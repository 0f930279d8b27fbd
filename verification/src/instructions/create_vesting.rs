//! Creating a schedule: the parameters are validated, the recipients enrolled, and the caller
//! is told how much to move into the pool.

use vstd::prelude::*;
use crate::clock::current_epoch;
use crate::curve::FULL_BPS;
use crate::error::VestingRoyaleError;
use crate::identity::Identity;
use crate::registry::all_distinct;
use crate::state::vesting_royale::{Schedule, VestingRoyale, VestingRoyaleRecord};

verus! {

/// The parameters of a new schedule.
#[derive(Clone, Copy, Debug)]
pub struct CreateVestingArgs {
    /// The epoch that the vesting starts with. `None` starts it at the current epoch.
    pub start_epoch: Option<u64>,
    /// Number of epochs to vest for: the end is the start plus this.
    pub end_epoch_delta: u64,
    /// How much of the pool unlocks at the start, in basis points.
    pub initial_vest: u16,
    /// Amount to put into the pool.
    pub amount: u64,
    /// Number of recipients to enroll.
    pub recipient_count: u64,
}

impl CreateVestingArgs {
    /// Whether the parameters are acceptable by themselves: less than the whole unlocks at
    /// the start, the schedule lasts at least one epoch, and somebody is enrolled.
    pub open spec fn acceptable(&self) -> bool {
        &&& self.initial_vest < FULL_BPS
        &&& self.end_epoch_delta > 0
        &&& self.recipient_count > 0
    }

    /// Whether the start is acceptable at epoch `now`: a start that is named lies in the
    /// future.
    pub open spec fn starts_after(&self, now: nat) -> bool {
        self.start_epoch matches Some(epoch) ==> epoch > now
    }

    /// The epoch at which a schedule created at epoch `now` starts.
    pub open spec fn start_at(&self, now: nat) -> nat {
        match self.start_epoch {
            Some(epoch) => epoch as nat,
            None => now,
        }
    }

    /// The epoch at which a schedule created at epoch `now` ends: the start plus the number
    /// of epochs to vest for, or the last epoch there is if that is less.
    pub open spec fn end_at(&self, now: nat) -> nat {
        if self.start_at(now) + self.end_epoch_delta <= u64::MAX {
            self.start_at(now) + self.end_epoch_delta as nat
        } else {
            u64::MAX as nat
        }
    }
}

/// What a creation acts on: who creates, where the schedule and its pool live, and whom to
/// enroll.
#[derive(Debug)]
pub struct CreateVesting {
    /// Who creates the schedule, and pays into the pool.
    pub initializer: Identity,
    /// Bump of the schedule's derived address.
    pub bump: u8,
    /// Tells the schedules of one creator apart.
    pub nonce: u64,
    /// The account that holds the pool.
    pub vesting_pool: Identity,
    /// The asset that the pool holds.
    pub mint: Identity,
    /// The recipients to enroll.
    pub remaining_accounts: Vec<Identity>,
}

impl CreateVesting {
    /// Whether the recipients to enroll are acceptable: there are as many as `args` declares,
    /// and none is named twice.
    pub open spec fn enrolls(&self, args: &CreateVestingArgs) -> bool {
        &&& self.remaining_accounts@.len() == args.recipient_count
        &&& self.remaining_accounts@.no_duplicates()
    }

    /// Whether a creation with `args` at epoch `now` is accepted.
    pub open spec fn accepts(&self, args: &CreateVestingArgs, now: nat) -> bool {
        &&& args.acceptable()
        &&& args.starts_after(now)
        &&& self.enrolls(args)
    }

    /// The schedule that a creation with `args` at epoch `now` makes.
    pub open spec fn schedule_at(&self, args: &CreateVestingArgs, now: nat) -> Schedule {
        Schedule {
            initializer: self.initializer,
            bump: self.bump,
            nonce: self.nonce,
            start_epoch: args.start_at(now),
            end_epoch: args.end_at(now),
            initial_vest: args.initial_vest as nat,
            vesting_pool: self.vesting_pool,
            mint: self.mint,
            initial_recipient_count: args.recipient_count as nat,
            recipients: self.remaining_accounts@.to_set(),
        }
    }

    /// Whether a creation with `args` at epoch `now` ends with `outcome`: where it is
    /// accepted, with the new schedule and the amount to move into its pool; where it is
    /// not, with a validation error.
    pub open spec fn creates(
        &self,
        args: &CreateVestingArgs,
        now: nat,
        outcome: Result<(VestingRoyale, u64), VestingRoyaleError>,
    ) -> bool {
        match outcome {
            Ok((schedule, deposit)) => {
                &&& self.accepts(args, now)
                &&& schedule.wf()
                &&& schedule@ == self.schedule_at(args, now)
                &&& deposit == args.amount
            },
            Err(e) => e == VestingRoyaleError::ValidationError && !self.accepts(args, now),
        }
    }

    /// A creation that is accepted makes a well-formed schedule, in which exactly the
    /// recipients named are enrolled, as many as declared. The schedule ends after it starts,
    /// unless it starts at the last epoch there is.
    pub proof fn lemma_accepted_schedule(&self, args: &CreateVestingArgs, now: nat)
        requires
            self.accepts(args, now),
            now <= u64::MAX,
        ensures
            self.schedule_at(args, now).wf(),
            self.schedule_at(args, now).recipients.len() == args.recipient_count,
            forall|who: Identity|
                self.schedule_at(args, now).recipients.contains(who)
                    <==> self.remaining_accounts@.contains(who),
            args.start_at(now) < u64::MAX ==> self.schedule_at(args, now).start_epoch
                < self.schedule_at(args, now).end_epoch,
            args.end_at(now) <= u64::MAX,
    {
        vstd::seq_lib::seq_to_set_is_finite(self.remaining_accounts@);
        self.remaining_accounts@.unique_seq_to_set();
    }

    /// Checks the parameters that can be checked by themselves.
    pub fn validate(&self, args: &CreateVestingArgs) -> (checked: Result<(), VestingRoyaleError>)
        ensures
            args.acceptable() ==> checked == Ok::<(), VestingRoyaleError>(()),
            !args.acceptable() ==> checked == Err::<(), VestingRoyaleError>(
                VestingRoyaleError::ValidationError,
            ),
    {
        if args.initial_vest as u64 >= FULL_BPS {
            return Err(VestingRoyaleError::ValidationError);
        }
        if args.end_epoch_delta == 0 {
            return Err(VestingRoyaleError::ValidationError);
        }
        if args.recipient_count == 0 {
            return Err(VestingRoyaleError::ValidationError);
        }
        Ok(())
    }

    /// Checks the recipients to enroll.
    fn check_enrollment(&self, args: &CreateVestingArgs) -> (acceptable: bool)
        ensures
            acceptable == self.enrolls(args),
    {
        self.remaining_accounts.len() as u64 == args.recipient_count && all_distinct(
            &self.remaining_accounts,
        )
    }

    /// Creates the schedule at epoch `now`, once the parameters and the recipients have been
    /// found acceptable: only the start is left to check.
    fn create(ctx: CreateVesting, args: CreateVestingArgs, now: u64) -> (outcome: Result<
        (VestingRoyale, u64),
        VestingRoyaleError,
    >)
        requires
            args.acceptable(),
            ctx.enrolls(&args),
        ensures
            ctx.creates(&args, now as nat, outcome),
    {
        let start_epoch: u64 = match args.start_epoch {
            Some(epoch) => {
                if epoch <= now {
                    return Err(VestingRoyaleError::ValidationError);
                }
                epoch
            },
            None => now,
        };
        let record = VestingRoyaleRecord {
            initializer: ctx.initializer,
            bump: ctx.bump,
            nonce: ctx.nonce,
            start_epoch,
            end_epoch: start_epoch.saturating_add(args.end_epoch_delta),
            initial_vest: args.initial_vest,
            vesting_pool: ctx.vesting_pool,
            mint: ctx.mint,
            initial_recipient_count: args.recipient_count,
            recipients: ctx.remaining_accounts,
        };
        proof {
            ctx.lemma_accepted_schedule(&args, now as nat);
        }
        Ok((VestingRoyale::from_wf_record(record), args.amount))
    }

    /// Creates a schedule at epoch `now`. Returns the schedule and the amount that the creator
    /// is to move into its pool.
    ///
    /// The creation is refused when the parameters are not acceptable, when a start is named
    /// that is not after `now`, when the number of recipients is not the number declared, or
    /// when a recipient is named twice.
    pub fn handle_at(ctx: CreateVesting, args: CreateVestingArgs, now: u64) -> (outcome: Result<
        (VestingRoyale, u64),
        VestingRoyaleError,
    >)
        ensures
            ctx.creates(&args, now as nat, outcome),
    {
        if ctx.validate(&args).is_err() || !ctx.check_enrollment(&args) {
            return Err(VestingRoyaleError::ValidationError);
        }
        CreateVesting::create(ctx, args, now)
    }

    /// Creates a schedule at the epoch that the runtime reports. Returns the schedule and the
    /// amount that the creator is to move into its pool.
    ///
    /// What can be refused without the clock is refused without reading it. Otherwise the
    /// clock is read: if the runtime reports no epoch the creation fails; if it does, the
    /// schedule is created as [`CreateVesting::handle_at`] creates it at the epoch reported.
    pub fn handle(ctx: CreateVesting, args: CreateVestingArgs) -> (outcome: Result<
        (VestingRoyale, u64),
        VestingRoyaleError,
    >)
        ensures
            !(args.acceptable() && ctx.enrolls(&args)) ==> outcome matches Err(
                VestingRoyaleError::ValidationError,
            ),
            outcome matches Err(VestingRoyaleError::ClockUnavailable) ==> args.acceptable()
                && ctx.enrolls(&args),
            !(outcome matches Err(VestingRoyaleError::ClockUnavailable)) ==> exists|now: nat|
                ctx.creates(&args, now, outcome),
    {
        if ctx.validate(&args).is_err() || !ctx.check_enrollment(&args) {
            assert(ctx.creates(&args, 0, Err(VestingRoyaleError::ValidationError)));
            return Err(VestingRoyaleError::ValidationError);
        }
        match current_epoch() {
            Some(now) => {
                let outcome = CreateVesting::create(ctx, args, now);
                assert(ctx.creates(&args, now as nat, outcome));
                outcome
            },
            None => Err(VestingRoyaleError::ClockUnavailable),
        }
    }
}

} // verus!
