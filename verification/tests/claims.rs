use vestingroyale::{Identity, Take, TakeArgs, VestingRoyale, VestingRoyaleError, VestingRoyaleRecord};

fn id(n: u8) -> Identity {
    Identity::new([n; 32])
}

const CREATOR: u8 = 200;

/// A schedule of `creator` that starts at epoch 1000 and still has recipients 1 to `left`.
fn schedule(end_epoch: u64, initial_vest: u16, left: u8) -> VestingRoyale {
    let record = VestingRoyaleRecord {
        initializer: id(CREATOR),
        bump: 254,
        nonce: 3,
        start_epoch: 1000,
        end_epoch,
        initial_vest,
        vesting_pool: id(201),
        mint: id(202),
        initial_recipient_count: 10,
        recipients: (1..=left).map(id).collect(),
    };
    VestingRoyale::from_record(record).unwrap()
}

fn left(schedule: &VestingRoyale) -> Vec<Identity> {
    schedule.to_record().recipients
}

#[test]
fn ten_recipients_two_epochs_in_a_tenth_at_the_start() {
    // share = floor(1000 / 10) = 100; unlocked = 2800; amount = floor(100 * 2800 / 10000) = 28
    let mut schedule = schedule(1010, 1000, 10);
    assert_eq!(schedule.take_at(1002, id(4), 1000), Ok(28));
    let left = left(&schedule);
    assert_eq!(left.len(), 9);
    assert!(!left.contains(&id(4)));
}

#[test]
fn at_the_end_epoch_a_claimant_gets_the_whole_share() {
    let mut schedule = schedule(1010, 1000, 5);
    assert_eq!(schedule.take_at(1010, id(5), 500), Ok(100));
    assert_eq!(left(&schedule).len(), 4);
}

#[test]
fn before_the_start_a_claimant_gets_nothing_and_still_leaves() {
    let mut schedule = schedule(1010, 1000, 5);
    assert_eq!(schedule.take_at(999, id(1), 500), Ok(0));
    assert_eq!(left(&schedule).len(), 4);
    assert_eq!(schedule.take_at(1010, id(1), 500), Err(VestingRoyaleError::RecipientNotFound));
}

#[test]
fn at_the_start_epoch_a_claimant_gets_the_initial_slice_of_the_share() {
    // share = floor(1000 / 4) = 250; amount = floor(250 * 1000 / 10000) = 25
    let mut schedule = schedule(1010, 1000, 4);
    assert_eq!(schedule.take_at(1000, id(2), 1000), Ok(25));
}

#[test]
fn the_share_is_divided_before_it_is_scaled() {
    // share = floor(19 / 10) = 1; amount = floor(1 * 5500 / 10000) = 0, not floor(19 * 5500 / 100000)
    let mut first = schedule(1010, 1000, 10);
    assert_eq!(first.take_at(1005, id(1), 19), Ok(0));
    // share = floor(29999 / 3) = 9999; amount = floor(9999 * 5500 / 10000) = 5499
    let mut second = schedule(1010, 1000, 3);
    assert_eq!(second.take_at(1005, id(1), 29999), Ok(5499));
}

#[test]
fn the_largest_pool_does_not_overflow() {
    let mut all = schedule(1010, 0, 1);
    assert_eq!(all.take_at(1010, id(1), u64::MAX), Ok(u64::MAX));
    // share = u64::MAX; unlocked = 9 * 1000 = 9000
    let mut most = schedule(1010, 0, 1);
    assert_eq!(most.take_at(1009, id(1), u64::MAX), Ok(16602069666338596453));
}

#[test]
fn a_claimant_claims_at_most_once() {
    let mut schedule = schedule(1010, 1000, 3);
    assert_eq!(schedule.take_at(1005, id(2), 900), Ok(165));
    assert_eq!(schedule.take_at(1005, id(2), 735), Err(VestingRoyaleError::RecipientNotFound));
    assert_eq!(schedule.take_at(1010, id(2), 735), Err(VestingRoyaleError::RecipientNotFound));
    assert_eq!(left(&schedule).len(), 2);
}

#[test]
fn somebody_who_was_never_enrolled_is_refused() {
    let mut schedule = schedule(1010, 1000, 3);
    assert_eq!(schedule.take_at(1005, id(9), 900), Err(VestingRoyaleError::RecipientNotFound));
    assert_eq!(schedule.take_at(1005, id(CREATOR), 900), Err(VestingRoyaleError::RecipientNotFound));
    assert_eq!(left(&schedule).len(), 3);
}

#[test]
fn the_creator_sweeps_what_the_last_recipient_left() {
    let mut schedule = schedule(1010, 1000, 1);
    // the last recipient claims early: floor(1000 / 1) * 3700 / 10000 = 370
    assert_eq!(schedule.take_at(1003, id(1), 1000), Ok(370));
    assert!(left(&schedule).is_empty());
    // the creator gets all that is left, whatever the curve says
    assert_eq!(schedule.take_at(1003, id(CREATOR), 630), Ok(630));
    assert_eq!(schedule.take_at(0, id(CREATOR), 630), Ok(630));
    assert_eq!(schedule.take_at(5000, id(CREATOR), 0), Ok(0));
    assert!(left(&schedule).is_empty());
}

#[test]
fn only_the_creator_sweeps() {
    let mut schedule = schedule(1010, 1000, 1);
    assert_eq!(schedule.take_at(1010, id(1), 1000), Ok(1000));
    assert_eq!(schedule.take_at(1010, id(1), 77), Err(VestingRoyaleError::RecipientNotFound));
    assert_eq!(schedule.take_at(1010, id(2), 77), Err(VestingRoyaleError::RecipientNotFound));
}

#[test]
fn a_creator_who_is_the_last_recipient_claims_and_then_sweeps() {
    let record = VestingRoyaleRecord {
        initializer: id(CREATOR),
        bump: 0,
        nonce: 0,
        start_epoch: 1000,
        end_epoch: 1010,
        initial_vest: 1000,
        vesting_pool: id(201),
        mint: id(202),
        initial_recipient_count: 2,
        recipients: vec![id(CREATOR)],
    };
    let mut schedule = VestingRoyale::from_record(record).unwrap();
    assert_eq!(schedule.take_at(1005, id(CREATOR), 1000), Ok(550));
    assert_eq!(schedule.take_at(1005, id(CREATOR), 450), Ok(450));
}

#[test]
fn all_claims_and_the_sweep_together_pay_what_was_deposited() {
    let deposit: u64 = 1_000_003;
    let mut pool = deposit;
    let mut paid: u64 = 0;
    let mut schedule = schedule(1010, 1000, 7);
    let claims: [(u64, u8); 9] =
        [(1001, 3), (1001, 3), (1004, 7), (999, 1), (1010, 2), (1007, 50), (1008, 6), (1012, 5), (1009, 4)];
    for (now, who) in claims {
        if let Ok(amount) = schedule.take_at(now, id(who), pool) {
            assert!(amount <= pool);
            pool -= amount;
            paid += amount;
        }
    }
    assert!(left(&schedule).is_empty());
    assert!(paid < deposit);
    let swept = schedule.take_at(1009, id(CREATOR), pool).unwrap();
    assert_eq!(swept, pool);
    assert_eq!(paid + swept, deposit);
}

#[test]
fn a_sweep_and_a_refusal_are_settled_without_the_clock() {
    let mut emptied = schedule(1010, 1000, 0);
    assert_eq!(emptied.take(id(CREATOR), 321), Ok(321));
    assert_eq!(emptied.take(id(1), 321), Err(VestingRoyaleError::RecipientNotFound));
    let mut running = schedule(1010, 1000, 2);
    assert_eq!(running.take(id(9), 321), Err(VestingRoyaleError::RecipientNotFound));
    assert_eq!(running.take(id(CREATOR), 321), Err(VestingRoyaleError::RecipientNotFound));
    assert_eq!(left(&running).len(), 2);
}

#[test]
fn a_claim_without_a_clock_fails_and_changes_nothing() {
    // outside the runtime there is no clock to read
    let mut schedule = schedule(1010, 1000, 2);
    assert_eq!(schedule.take(id(1), 1000), Err(VestingRoyaleError::ClockUnavailable));
    let left = left(&schedule);
    assert_eq!(left.len(), 2);
    assert!(left.contains(&id(1)));
}

#[test]
fn the_take_action_settles_the_claim_of_its_taker() {
    let mut sweep = Take { vesting_royale: schedule(1010, 1000, 0), taker: id(CREATOR), pool_amount: 55 };
    assert_eq!(Take::handle(&mut sweep, TakeArgs {}), Ok(55));
    let mut stranger = Take { vesting_royale: schedule(1010, 1000, 3), taker: id(9), pool_amount: 55 };
    assert_eq!(Take::handle(&mut stranger, TakeArgs {}), Err(VestingRoyaleError::RecipientNotFound));
    assert_eq!(stranger.vesting_royale.to_record().recipients.len(), 3);
    let mut enrolled = Take { vesting_royale: schedule(1010, 1000, 3), taker: id(1), pool_amount: 55 };
    assert_eq!(Take::handle(&mut enrolled, TakeArgs {}), Err(VestingRoyaleError::ClockUnavailable));
    assert_eq!(enrolled.vesting_royale.to_record().recipients.len(), 3);
}
