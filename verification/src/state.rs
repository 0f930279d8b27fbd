//! What a schedule keeps between actions, and how it is stored.

pub mod layout;
pub mod vesting_royale;
