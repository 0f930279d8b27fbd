//! The unlock curve: which fraction of the pool is unlocked at a given epoch.
//!
//! Fractions are in basis points, 10000 being the whole. Nothing is unlocked before the start
//! epoch; at the start epoch the initial slice unlocks; every further epoch unlocks the same
//! whole number of basis points; from the end epoch on everything is unlocked.

use vstd::prelude::*;

verus! {

/// The whole, in basis points.
pub const FULL_BPS: u64 = 10000;

/// Basis points that each epoch after the start adds: the part that is not unlocked at the
/// start, spread over the epochs of the schedule and rounded down.
pub open spec fn bps_per_step(start_epoch: int, end_epoch: int, initial_vest_bps: int) -> int {
    (FULL_BPS - initial_vest_bps) / (end_epoch - start_epoch)
}

/// The fraction unlocked at epoch `now`, in basis points.
pub open spec fn unlocked_bps(now: int, start_epoch: int, end_epoch: int, initial_vest_bps: int) -> int {
    if now >= end_epoch {
        FULL_BPS as int
    } else if now < start_epoch {
        0
    } else {
        initial_vest_bps + (now - start_epoch) * bps_per_step(
            start_epoch,
            end_epoch,
            initial_vest_bps,
        )
    }
}

/// Between start and end the steps taken so far never add more than the part that was locked
/// at the start.
pub proof fn lemma_steps_stay_within_locked_part(
    now: int,
    start_epoch: int,
    end_epoch: int,
    initial_vest_bps: int,
)
    requires
        start_epoch <= now < end_epoch,
        0 <= initial_vest_bps <= FULL_BPS,
    ensures
        0 <= bps_per_step(start_epoch, end_epoch, initial_vest_bps),
        0 <= (now - start_epoch) * bps_per_step(start_epoch, end_epoch, initial_vest_bps)
            <= FULL_BPS - initial_vest_bps,
{
    let steps = end_epoch - start_epoch;
    let locked = FULL_BPS - initial_vest_bps;
    let passed = now - start_epoch;
    let per_step = locked / steps;
    assert(0 <= per_step && per_step * steps <= locked) by (nonlinear_arith)
        requires
            per_step == locked / steps,
            steps > 0,
            locked >= 0,
    ;
    assert(0 <= passed * per_step <= per_step * steps) by (nonlinear_arith)
        requires
            0 <= passed < steps,
            0 <= per_step,
    ;
}

/// The unlocked fraction is never negative and never more than the whole.
pub proof fn lemma_unlocked_bps_bounded(
    now: int,
    start_epoch: int,
    end_epoch: int,
    initial_vest_bps: int,
)
    requires
        0 <= initial_vest_bps <= FULL_BPS,
    ensures
        0 <= unlocked_bps(now, start_epoch, end_epoch, initial_vest_bps) <= FULL_BPS,
{
    if start_epoch <= now < end_epoch {
        lemma_steps_stay_within_locked_part(now, start_epoch, end_epoch, initial_vest_bps);
    }
}

/// At the start epoch exactly the initial slice is unlocked, before it nothing is, and from
/// the end epoch on everything is.
pub proof fn lemma_unlocked_bps_at_start_and_end(
    now: int,
    start_epoch: int,
    end_epoch: int,
    initial_vest_bps: int,
)
    requires
        start_epoch < end_epoch,
    ensures
        unlocked_bps(start_epoch, start_epoch, end_epoch, initial_vest_bps) == initial_vest_bps,
        now < start_epoch ==> unlocked_bps(now, start_epoch, end_epoch, initial_vest_bps) == 0,
        now >= end_epoch ==> unlocked_bps(now, start_epoch, end_epoch, initial_vest_bps)
            == FULL_BPS,
{
    assert(0 * bps_per_step(start_epoch, end_epoch, initial_vest_bps) == 0);
}

/// The unlocked fraction never goes down as time passes.
pub proof fn lemma_unlocked_bps_monotonic(
    earlier: int,
    later: int,
    start_epoch: int,
    end_epoch: int,
    initial_vest_bps: int,
)
    requires
        earlier <= later,
        0 <= initial_vest_bps <= FULL_BPS,
    ensures
        unlocked_bps(earlier, start_epoch, end_epoch, initial_vest_bps) <= unlocked_bps(
            later,
            start_epoch,
            end_epoch,
            initial_vest_bps,
        ),
{
    lemma_unlocked_bps_bounded(earlier, start_epoch, end_epoch, initial_vest_bps);
    lemma_unlocked_bps_bounded(later, start_epoch, end_epoch, initial_vest_bps);
    if start_epoch <= earlier && later < end_epoch {
        let per_step = bps_per_step(start_epoch, end_epoch, initial_vest_bps);
        lemma_steps_stay_within_locked_part(earlier, start_epoch, end_epoch, initial_vest_bps);
        assert((earlier - start_epoch) * per_step <= (later - start_epoch) * per_step)
            by (nonlinear_arith)
            requires
                earlier <= later,
                0 <= per_step,
        ;
    }
}

/// The fraction of the pool that is unlocked at epoch `now`, in basis points.
pub fn unlocked_fraction(now: u64, start_epoch: u64, end_epoch: u64, initial_vest_bps: u16) -> (bps:
    u64)
    requires
        initial_vest_bps < FULL_BPS,
    ensures
        bps == unlocked_bps(now as int, start_epoch as int, end_epoch as int, initial_vest_bps as int),
        bps <= FULL_BPS,
        now >= end_epoch ==> bps == FULL_BPS,
        now < start_epoch && now < end_epoch ==> bps == 0,
        now == start_epoch && now < end_epoch ==> bps == initial_vest_bps,
{
    if now >= end_epoch {
        return FULL_BPS;
    }
    if now < start_epoch {
        return 0;
    }
    let initial: u64 = initial_vest_bps as u64;
    if now == start_epoch {
        return initial;
    }
    let steps: u64 = end_epoch - start_epoch;
    let allocatable: u64 = FULL_BPS - initial;
    let per_step: u64 = allocatable / steps;
    let passed: u64 = now - start_epoch;
    proof {
        lemma_steps_stay_within_locked_part(
            now as int,
            start_epoch as int,
            end_epoch as int,
            initial_vest_bps as int,
        );
    }
    initial + passed * per_step
}

} // verus!
