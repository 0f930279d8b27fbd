//! The vesting schedule: its parameters, the recipients still enrolled, and the claim.

use vstd::prelude::*;
use crate::clock::current_epoch;
use crate::curve::{unlocked_bps, unlocked_fraction, FULL_BPS};
use crate::error::VestingRoyaleError;
use crate::identity::Identity;
use crate::registry::{all_distinct, Registry};
use crate::state::layout::{record_size, RECORD_HEAD_BYTES, RECORD_RECIPIENT_BYTES};

verus! {

/// A schedule as a mathematical value.
#[verifier::ext_equal]
pub struct Schedule {
    /// Who created the schedule, and may sweep what is left once everybody has claimed.
    pub initializer: Identity,
    /// Bump of the schedule's derived address.
    pub bump: u8,
    /// Tells the schedules of one creator apart.
    pub nonce: u64,
    /// Epoch at which vesting starts.
    pub start_epoch: nat,
    /// Epoch from which everything is unlocked.
    pub end_epoch: nat,
    /// Basis points that unlock at the start epoch.
    pub initial_vest: nat,
    /// The account that holds the pool.
    pub vesting_pool: Identity,
    /// The asset that the pool holds.
    pub mint: Identity,
    /// How many recipients were enrolled at creation.
    pub initial_recipient_count: nat,
    /// The recipients that have not claimed yet.
    pub recipients: Set<Identity>,
}

/// What one of `enrolled` recipients gets from a pool of `pool_amount` when `unlocked` basis
/// points are unlocked: an equal share of the pool, rounded down, and of that share the
/// unlocked fraction, rounded down again.
pub open spec fn claim_amount(pool_amount: nat, enrolled: nat, unlocked: nat) -> nat {
    ((pool_amount / enrolled) * unlocked / (FULL_BPS as nat)) as nat
}

/// A claim never pays more than an equal share of the pool.
pub proof fn lemma_claim_amount_within_share(pool_amount: nat, enrolled: nat, unlocked: nat)
    requires
        enrolled > 0,
        unlocked <= FULL_BPS,
    ensures
        claim_amount(pool_amount, enrolled, unlocked) <= pool_amount / enrolled <= pool_amount,
        (pool_amount / enrolled) * unlocked <= (pool_amount / enrolled) * FULL_BPS,
{
    let share = pool_amount / enrolled;
    assert(0 <= share <= pool_amount) by (nonlinear_arith)
        requires
            share == pool_amount / enrolled,
            enrolled > 0,
    ;
    assert(share * unlocked <= share * FULL_BPS) by (nonlinear_arith)
        requires
            0 <= share,
            unlocked <= FULL_BPS,
    ;
    assert(share * unlocked / (FULL_BPS as nat) <= share) by (nonlinear_arith)
        requires
            0 <= share * unlocked <= share * FULL_BPS,
            FULL_BPS == 10000,
    ;
}

impl Schedule {
    /// The invariants of a schedule: less than the whole unlocks at the start, the end is not
    /// before the start, and of the finitely many recipients enrolled no more are left than
    /// there were at creation.
    pub open spec fn wf(self) -> bool {
        &&& self.initial_vest < FULL_BPS
        &&& self.start_epoch <= self.end_epoch
        &&& self.recipients.finite()
        &&& self.recipients.len() <= self.initial_recipient_count
    }

    /// The fraction unlocked at epoch `now`, in basis points.
    pub open spec fn unlocked_at(self, now: nat) -> nat {
        unlocked_bps(
            now as int,
            self.start_epoch as int,
            self.end_epoch as int,
            self.initial_vest as int,
        ) as nat
    }

    /// Whether `claimant` may sweep the pool: everybody has claimed, and the claimant is the
    /// creator.
    pub open spec fn may_sweep(self, claimant: Identity) -> bool {
        self.recipients.len() == 0 && claimant == self.initializer
    }

    /// Whether a claim by `claimant` depends on the current epoch: the claimant is enrolled
    /// and does not sweep.
    pub open spec fn claims_share(self, claimant: Identity) -> bool {
        !self.may_sweep(claimant) && self.recipients.contains(claimant)
    }

    /// What a claim by `claimant` at epoch `now` pays out of a pool of `pool_amount`, or `None`
    /// if the claim is refused. A sweep pays the whole pool. An enrolled recipient gets the
    /// unlocked fraction of an equal share, where the claimant counts among those who share.
    pub open spec fn payout(self, now: nat, claimant: Identity, pool_amount: nat) -> Option<nat> {
        if self.may_sweep(claimant) {
            Some(pool_amount)
        } else if self.recipients.contains(claimant) {
            Some(claim_amount(pool_amount, self.recipients.len(), self.unlocked_at(now)))
        } else {
            None
        }
    }

    /// The schedule after a claim by `claimant`, accepted or not: the claimant is no longer
    /// enrolled, and nothing else has changed.
    pub open spec fn after_take(self, claimant: Identity) -> Schedule {
        Schedule { recipients: self.recipients.remove(claimant), ..self }
    }

    /// Whether a claim by `claimant` at epoch `now` against a pool of `pool_amount` ends with
    /// `outcome` and leaves the schedule `after`.
    pub open spec fn takes(
        self,
        now: nat,
        claimant: Identity,
        pool_amount: nat,
        outcome: Result<u64, VestingRoyaleError>,
        after: Schedule,
    ) -> bool {
        &&& after == self.after_take(claimant)
        &&& match outcome {
            Ok(amount) => self.payout(now, claimant, pool_amount) == Some(amount as nat),
            Err(e) => e == VestingRoyaleError::RecipientNotFound && self.payout(
                now,
                claimant,
                pool_amount,
            ) is None,
        }
    }
}

/// A schedule as it is stored: its fields one by one, with nothing promised of them.
#[derive(Debug)]
pub struct VestingRoyaleRecord {
    /// Who created the schedule.
    pub initializer: Identity,
    /// Bump of the schedule's derived address.
    pub bump: u8,
    /// Tells the schedules of one creator apart.
    pub nonce: u64,
    /// Epoch at which vesting starts.
    pub start_epoch: u64,
    /// Epoch from which everything is unlocked.
    pub end_epoch: u64,
    /// Basis points that unlock at the start epoch.
    pub initial_vest: u16,
    /// The account that holds the pool.
    pub vesting_pool: Identity,
    /// The asset that the pool holds.
    pub mint: Identity,
    /// How many recipients were enrolled at creation.
    pub initial_recipient_count: u64,
    /// The recipients that have not claimed yet.
    pub recipients: Vec<Identity>,
}

impl View for VestingRoyaleRecord {
    type V = Schedule;

    /// The schedule that the record stands for. The order of its recipients means nothing.
    open spec fn view(&self) -> Schedule {
        Schedule {
            initializer: self.initializer,
            bump: self.bump,
            nonce: self.nonce,
            start_epoch: self.start_epoch as nat,
            end_epoch: self.end_epoch as nat,
            initial_vest: self.initial_vest as nat,
            vesting_pool: self.vesting_pool,
            mint: self.mint,
            initial_recipient_count: self.initial_recipient_count as nat,
            recipients: self.recipients@.to_set(),
        }
    }
}

impl VestingRoyaleRecord {
    /// Whether the record is that of a schedule: no recipient is listed twice, and the
    /// invariants of a schedule hold of it.
    pub open spec fn wf(&self) -> bool {
        &&& self.recipients@.no_duplicates()
        &&& self@.wf()
    }
}

/// A vesting schedule: the parameters fixed at its creation, and the recipients that have not
/// claimed yet.
///
/// Its fields are reached through [`VestingRoyale::to_record`], and a schedule is made from
/// fields by [`VestingRoyale::from_record`], which refuses fields that break an invariant.
#[derive(Debug)]
pub struct VestingRoyale {
    initializer: Identity,
    bump: u8,
    nonce: u64,
    start_epoch: u64,
    end_epoch: u64,
    initial_vest: u16,
    vesting_pool: Identity,
    mint: Identity,
    initial_recipient_count: u64,
    recipients: Registry,
}

impl View for VestingRoyale {
    type V = Schedule;

    closed spec fn view(&self) -> Schedule {
        Schedule {
            initializer: self.initializer,
            bump: self.bump,
            nonce: self.nonce,
            start_epoch: self.start_epoch as nat,
            end_epoch: self.end_epoch as nat,
            initial_vest: self.initial_vest as nat,
            vesting_pool: self.vesting_pool,
            mint: self.mint,
            initial_recipient_count: self.initial_recipient_count as nat,
            recipients: self.recipients@,
        }
    }
}

impl VestingRoyale {
    /// Whether the schedule is well formed: its registry is, and its invariants hold.
    pub closed spec fn wf(&self) -> bool {
        &&& self.recipients.wf()
        &&& self@.wf()
    }

    /// A well-formed schedule has the invariants of its model, and its numbers fit the
    /// machine's.
    pub proof fn lemma_wf(&self)
        requires
            self.wf(),
        ensures
            self@.wf(),
            self@.start_epoch <= u64::MAX,
            self@.end_epoch <= u64::MAX,
            self@.initial_recipient_count <= u64::MAX,
    {
    }

    /// The schedule that a well-formed record stands for.
    pub(crate) fn from_wf_record(record: VestingRoyaleRecord) -> (schedule: VestingRoyale)
        requires
            record.wf(),
        ensures
            schedule.wf(),
            schedule@ == record@,
    {
        VestingRoyale {
            initializer: record.initializer,
            bump: record.bump,
            nonce: record.nonce,
            start_epoch: record.start_epoch,
            end_epoch: record.end_epoch,
            initial_vest: record.initial_vest,
            vesting_pool: record.vesting_pool,
            mint: record.mint,
            initial_recipient_count: record.initial_recipient_count,
            recipients: Registry::from_distinct(record.recipients),
        }
    }

    /// The schedule that `record` stands for, unless the record breaks an invariant.
    pub fn from_record(record: VestingRoyaleRecord) -> (made: Option<VestingRoyale>)
        ensures
            made is Some <==> record.wf(),
            made matches Some(schedule) ==> schedule.wf() && schedule@ == record@,
    {
        if record.initial_vest as u64 >= FULL_BPS || record.start_epoch > record.end_epoch {
            return None;
        }
        if !all_distinct(&record.recipients) {
            return None;
        }
        proof {
            vstd::seq_lib::seq_to_set_is_finite(record.recipients@);
            record.recipients@.unique_seq_to_set();
        }
        if record.recipients.len() as u64 > record.initial_recipient_count {
            return None;
        }
        Some(VestingRoyale::from_wf_record(record))
    }

    /// The schedule as a record, its recipients listed each once and in no particular order.
    pub fn to_record(&self) -> (record: VestingRoyaleRecord)
        requires
            self.wf(),
        ensures
            record.wf(),
            record@ == self@,
    {
        VestingRoyaleRecord {
            initializer: self.initializer,
            bump: self.bump,
            nonce: self.nonce,
            start_epoch: self.start_epoch,
            end_epoch: self.end_epoch,
            initial_vest: self.initial_vest,
            vesting_pool: self.vesting_pool,
            mint: self.mint,
            initial_recipient_count: self.initial_recipient_count,
            recipients: self.recipients.to_vec(),
        }
    }

    /// Bytes that a stored schedule with `recipients_length` recipients takes.
    pub fn size(recipients_length: usize) -> (bytes: usize)
        requires
            record_size(recipients_length as nat) <= usize::MAX,
        ensures
            bytes == record_size(recipients_length as nat),
    {
        RECORD_HEAD_BYTES + recipients_length * RECORD_RECIPIENT_BYTES
    }

    /// Settles a claim by `recipient` at epoch `now`, against a pool that holds `pool_amount`
    /// before the claim is paid. Returns the amount to pay to the claimant.
    ///
    /// The creator of a schedule that everybody has claimed from sweeps the whole pool. An
    /// enrolled recipient gets the unlocked fraction of an equal share of the pool and leaves
    /// the registry. Anybody else is refused, and nothing changes.
    pub fn take_at(&mut self, now: u64, recipient: Identity, pool_amount: u64) -> (outcome: Result<
        u64,
        VestingRoyaleError,
    >)
        requires
            old(self).wf(),
        ensures
            final(self).wf(),
            old(self)@.takes(now as nat, recipient, pool_amount as nat, outcome, final(self)@),
            outcome matches Ok(amount) ==> amount <= pool_amount,
    {
        if self.recipients.is_empty() && recipient == self.initializer {
            assert(self@.recipients =~= old(self)@.recipients.remove(recipient));
            return Ok(pool_amount);
        }
        if !self.recipients.contains(&recipient) {
            assert(self@.recipients =~= old(self)@.recipients.remove(recipient));
            return Err(VestingRoyaleError::RecipientNotFound);
        }
        let enrolled: u64 = self.recipients.len() as u64;
        let unlocked: u64 = unlocked_fraction(
            now,
            self.start_epoch,
            self.end_epoch,
            self.initial_vest,
        );
        let share: u64 = pool_amount / enrolled;
        proof {
            lemma_claim_amount_within_share(pool_amount as nat, enrolled as nat, unlocked as nat);
        }
        let widened: u128 = (share as u128) * (unlocked as u128) / (FULL_BPS as u128);
        let amount: u64 = widened as u64;
        let _ = self.recipients.remove(&recipient);
        Ok(amount)
    }

    /// Settles a claim by `recipient` at the epoch that the runtime reports, against a pool
    /// that holds `pool_amount` before the claim is paid. Returns the amount to pay to the
    /// claimant.
    ///
    /// A sweep and a refusal do not depend on the epoch, and the clock is not read for them.
    /// For the claim of an enrolled recipient the clock is read first: if the runtime reports
    /// no epoch the claim fails and nothing changes; otherwise the claim is settled as
    /// [`VestingRoyale::take_at`] settles it at the epoch reported.
    pub fn take(&mut self, recipient: Identity, pool_amount: u64) -> (outcome: Result<
        u64,
        VestingRoyaleError,
    >)
        requires
            old(self).wf(),
        ensures
            final(self).wf(),
            outcome == Err::<u64, VestingRoyaleError>(VestingRoyaleError::ClockUnavailable) ==> {
                &&& old(self)@.claims_share(recipient)
                &&& final(self)@ == old(self)@
            },
            outcome != Err::<u64, VestingRoyaleError>(VestingRoyaleError::ClockUnavailable)
                ==> exists|now: nat|
                old(self)@.takes(now, recipient, pool_amount as nat, outcome, final(self)@),
            outcome matches Ok(amount) ==> amount <= pool_amount,
    {
        let sweeps = self.recipients.is_empty() && recipient == self.initializer;
        if sweeps || !self.recipients.contains(&recipient) {
            let outcome = self.take_at(0, recipient, pool_amount);
            assert(old(self)@.takes(0, recipient, pool_amount as nat, outcome, self@));
            return outcome;
        }
        match current_epoch() {
            Some(now) => {
                let outcome = self.take_at(now, recipient, pool_amount);
                assert(old(self)@.takes(now as nat, recipient, pool_amount as nat, outcome, self@));
                outcome
            },
            None => Err(VestingRoyaleError::ClockUnavailable),
        }
    }
}

} // verus!
