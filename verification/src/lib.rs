//! A shared escrow pool that unlocks linearly over a range of epochs and is claimed, once each,
//! by a fixed set of enrolled recipients.
//!
//! The crate holds the schedule's state machine: the unlock curve, the registry of recipients
//! that have not claimed yet, and the claim that turns "who asks, how many remain, how much is
//! in the pool" into the amount to pay out. Moving funds and resolving accounts is left to the
//! caller.
//!
//! - [`curve`]: the fraction of the pool that is unlocked at an epoch.
//! - [`registry`]: the recipients that have not claimed yet.
//! - [`state`]: the schedule, the claim, and the bytes that store a schedule.
//! - [`instructions`]: the two actions, creating a schedule and claiming from it.
//! - [`settlement`]: what holds of claims taken together.

pub mod identity;
pub mod error;
pub mod curve;
pub mod registry;
mod clock;
pub mod state;
pub mod settlement;
pub mod instructions;

pub use crate::identity::Identity;
pub use crate::error::VestingRoyaleError;
pub use crate::registry::Registry;
pub use crate::state::vesting_royale::{Schedule, VestingRoyale, VestingRoyaleRecord};
pub use crate::instructions::create_vesting::{CreateVesting, CreateVestingArgs};
pub use crate::instructions::take::{Take, TakeArgs};
