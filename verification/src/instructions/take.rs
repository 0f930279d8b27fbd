//! Claiming from a schedule: the claim is settled, and the caller is told how much to pay.

use vstd::prelude::*;
use crate::error::VestingRoyaleError;
use crate::identity::Identity;
use crate::state::vesting_royale::VestingRoyale;

verus! {

/// The parameters of a claim: there are none.
#[derive(Clone, Copy, Debug)]
pub struct TakeArgs {}

/// What a claim acts on: the schedule, who claims, and what the pool holds.
#[derive(Debug)]
pub struct Take {
    /// The schedule claimed from.
    pub vesting_royale: VestingRoyale,
    /// Who claims.
    pub taker: Identity,
    /// What the pool holds before the claim is paid.
    pub pool_amount: u64,
}

impl Take {
    /// Settles the claim at the epoch that the runtime reports, as [`VestingRoyale::take`]
    /// does. Returns the amount to pay to the taker out of the pool.
    pub fn handle(ctx: &mut Take, args: TakeArgs) -> (outcome: Result<u64, VestingRoyaleError>)
        requires
            old(ctx).vesting_royale.wf(),
        ensures
            final(ctx).vesting_royale.wf(),
            final(ctx).taker == old(ctx).taker,
            final(ctx).pool_amount == old(ctx).pool_amount,
            outcome == Err::<u64, VestingRoyaleError>(VestingRoyaleError::ClockUnavailable) ==> {
                &&& old(ctx).vesting_royale@.claims_share(old(ctx).taker)
                &&& final(ctx).vesting_royale@ == old(ctx).vesting_royale@
            },
            outcome != Err::<u64, VestingRoyaleError>(VestingRoyaleError::ClockUnavailable)
                ==> exists|now: nat|
                old(ctx).vesting_royale@.takes(
                    now,
                    old(ctx).taker,
                    old(ctx).pool_amount as nat,
                    outcome,
                    final(ctx).vesting_royale@,
                ),
            outcome matches Ok(amount) ==> amount <= old(ctx).pool_amount,
    {
        let taker = ctx.taker;
        let pool_amount = ctx.pool_amount;
        ctx.vesting_royale.take(taker, pool_amount)
    }
}

} // verus!
