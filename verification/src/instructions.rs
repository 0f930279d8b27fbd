//! The two actions on a schedule: creating it, and claiming from it.

pub mod create_vesting;
pub mod take;
