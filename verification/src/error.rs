//! The ways in which creating a schedule or claiming from it can fail.

use vstd::prelude::*;

verus! {

/// Why an action on a schedule was refused. A refused action changes nothing.
#[derive(Clone, Copy, Debug, PartialEq, Eq, Structural)]
pub enum VestingRoyaleError {
    /// The parameters given at creation are not acceptable.
    ValidationError,
    /// The claimant is not enrolled, and is not the creator sweeping an emptied schedule.
    RecipientNotFound,
    /// The runtime did not report the current epoch.
    ClockUnavailable,
}

} // verus!
