//! What holds of claims taken together: nobody claims twice, and a pool never pays out more
//! than was put into it.

use vstd::prelude::*;
use crate::curve::{
    lemma_unlocked_bps_at_start_and_end, lemma_unlocked_bps_bounded, lemma_unlocked_bps_monotonic,
    FULL_BPS,
};
use crate::error::VestingRoyaleError;
use crate::identity::Identity;
use crate::state::vesting_royale::{lemma_claim_amount_within_share, Schedule};

verus! {

/// One claim: who asks, and at which epoch.
pub struct Claim {
    pub now: nat,
    pub claimant: Identity,
}

/// A schedule together with its pool, and the sum of what the pool has paid out so far.
pub struct Escrow {
    pub schedule: Schedule,
    pub balance: nat,
    pub disbursed: nat,
}

impl Escrow {
    /// The escrow of a schedule that was just created with `deposit` in its pool.
    pub open spec fn opened(schedule: Schedule, deposit: nat) -> Escrow {
        Escrow { schedule, balance: deposit, disbursed: 0 }
    }

    /// The escrow after `claim` was made and, if it was accepted, paid out of the pool. A
    /// refused claim changes nothing.
    pub open spec fn settle(self, claim: Claim) -> Escrow {
        match self.schedule.payout(claim.now, claim.claimant, self.balance) {
            Some(amount) => Escrow {
                schedule: self.schedule.after_take(claim.claimant),
                balance: (self.balance - amount) as nat,
                disbursed: self.disbursed + amount,
            },
            None => self,
        }
    }

    /// The escrow after the claims of `claims` were settled one after the other.
    pub open spec fn settle_all(self, claims: Seq<Claim>) -> Escrow
        decreases claims.len(),
    {
        if claims.len() == 0 {
            self
        } else {
            self.settle(claims.first()).settle_all(claims.drop_first())
        }
    }
}

/// The unlock curve of a schedule that ends after it starts: the unlocked fraction never goes
/// down as time passes, is never more than the whole, is the initial slice at the start epoch,
/// and is the whole from the end epoch on.
pub proof fn lemma_unlock_curve(schedule: Schedule, earlier: nat, later: nat)
    requires
        schedule.wf(),
        schedule.start_epoch < schedule.end_epoch,
        earlier <= later,
    ensures
        schedule.unlocked_at(earlier) <= schedule.unlocked_at(later) <= FULL_BPS,
        schedule.unlocked_at(schedule.start_epoch) == schedule.initial_vest,
        later >= schedule.end_epoch ==> schedule.unlocked_at(later) == FULL_BPS,
{
    let start = schedule.start_epoch as int;
    let end = schedule.end_epoch as int;
    let initial = schedule.initial_vest as int;
    lemma_unlocked_bps_bounded(earlier as int, start, end, initial);
    lemma_unlocked_bps_bounded(later as int, start, end, initial);
    lemma_unlocked_bps_monotonic(earlier as int, later as int, start, end, initial);
    lemma_unlocked_bps_at_start_and_end(later as int, start, end, initial);
}

/// An accepted claim pays no more than the pool holds.
pub proof fn lemma_payout_within_pool(
    schedule: Schedule,
    now: nat,
    claimant: Identity,
    pool_amount: nat,
)
    requires
        schedule.wf(),
    ensures
        schedule.payout(now, claimant, pool_amount) matches Some(amount) ==> amount <= pool_amount,
{
    if schedule.claims_share(claimant) {
        lemma_unlocked_bps_bounded(
            now as int,
            schedule.start_epoch as int,
            schedule.end_epoch as int,
            schedule.initial_vest as int,
        );
        lemma_claim_amount_within_share(
            pool_amount,
            schedule.recipients.len(),
            schedule.unlocked_at(now),
        );
    }
}

/// A claim leaves the schedule well formed, and never enrolls anybody.
pub proof fn lemma_after_take_wf(schedule: Schedule, claimant: Identity)
    requires
        schedule.wf(),
    ensures
        schedule.after_take(claimant).wf(),
        schedule.after_take(claimant).recipients.subset_of(schedule.recipients),
        schedule.after_take(claimant).recipients.len() <= schedule.recipients.len(),
{
}

/// Nobody claims twice. Once a claim by `claimant` was accepted, a later claim by the same
/// identity against the same schedule is refused as not enrolled, at whatever epoch and
/// against whatever pool it is made.
///
/// The creator is the one exception: when the registry is empty after the first claim, the
/// creator's later claim is a sweep, and is accepted.
pub proof fn lemma_claims_at_most_once(
    schedule: Schedule,
    claimant: Identity,
    now: nat,
    pool_amount: nat,
    later: nat,
    later_pool_amount: nat,
)
    requires
        schedule.wf(),
        schedule.payout(now, claimant, pool_amount) is Some,
        !schedule.after_take(claimant).may_sweep(claimant),
    ensures
        schedule.after_take(claimant).payout(later, claimant, later_pool_amount) is None,
        forall|outcome: Result<u64, VestingRoyaleError>, after: Schedule|
            #[trigger] schedule.after_take(claimant).takes(
                later,
                claimant,
                later_pool_amount,
                outcome,
                after,
            ) ==> outcome == Err::<u64, VestingRoyaleError>(VestingRoyaleError::RecipientNotFound)
                && after == schedule.after_take(claimant),
{
    let after = schedule.after_take(claimant);
    assert(after.after_take(claimant).recipients =~= after.recipients);
}

/// Settling one claim moves what it pays from the pool to the sum paid out, and nothing is
/// lost or made on the way.
pub proof fn lemma_settle_conserves(escrow: Escrow, claim: Claim)
    requires
        escrow.schedule.wf(),
    ensures
        escrow.settle(claim).schedule.wf(),
        escrow.settle(claim).balance + escrow.settle(claim).disbursed == escrow.balance
            + escrow.disbursed,
        escrow.settle(claim).disbursed >= escrow.disbursed,
{
    lemma_payout_within_pool(escrow.schedule, claim.now, claim.claimant, escrow.balance);
    lemma_after_take_wf(escrow.schedule, claim.claimant);
}

/// The same of a run of claims.
pub proof fn lemma_settle_all_conserves(escrow: Escrow, claims: Seq<Claim>)
    requires
        escrow.schedule.wf(),
    ensures
        escrow.settle_all(claims).schedule.wf(),
        escrow.settle_all(claims).balance + escrow.settle_all(claims).disbursed == escrow.balance
            + escrow.disbursed,
        escrow.settle_all(claims).disbursed >= escrow.disbursed,
    decreases claims.len(),
{
    if claims.len() > 0 {
        lemma_settle_conserves(escrow, claims.first());
        lemma_settle_all_conserves(escrow.settle(claims.first()), claims.drop_first());
    }
}

/// A pool never pays out more than was put into it. Whatever claims are made against a
/// schedule created with `deposit` in its pool, by whomever, at whatever epochs and in
/// whatever order, the sum of what they are paid is at most `deposit`, and together with what
/// is left in the pool it is exactly `deposit`.
pub proof fn lemma_total_disbursed_within_deposit(
    schedule: Schedule,
    deposit: nat,
    claims: Seq<Claim>,
)
    requires
        schedule.wf(),
    ensures
        Escrow::opened(schedule, deposit).settle_all(claims).disbursed <= deposit,
        Escrow::opened(schedule, deposit).settle_all(claims).disbursed + Escrow::opened(
            schedule,
            deposit,
        ).settle_all(claims).balance == deposit,
{
    lemma_settle_all_conserves(Escrow::opened(schedule, deposit), claims);
}

/// A sweep empties the pool: once the creator has swept, everything that was in the pool
/// has been paid out.
pub proof fn lemma_sweep_empties_pool(escrow: Escrow, claim: Claim)
    requires
        escrow.schedule.wf(),
        escrow.schedule.may_sweep(claim.claimant),
    ensures
        escrow.settle(claim).balance == 0,
        escrow.settle(claim).disbursed == escrow.disbursed + escrow.balance,
{
}

} // verus!
