//! The current epoch, as the runtime reports it.

use vstd::prelude::*;
use anchor_lang::prelude::Clock;
use anchor_lang::prelude::SolanaSysvar;

verus! {

/// Asks the runtime for its clock, through `Clock::get` of `anchor_lang`, and hands back the
/// clock's epoch. `None` when the runtime gives no clock. Nothing is claimed of the epoch that
/// comes back: it is whatever the runtime says, and may differ from one call to the next.
#[verifier::external_body]
pub(crate) fn current_epoch() -> (epoch: Option<u64>) {
    match Clock::get() {
        Ok(clock) => Some(clock.epoch),
        Err(_) => None,
    }
}

} // verus!
