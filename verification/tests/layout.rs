use anchor_lang::prelude::Pubkey;
use anchor_lang::AnchorSerialize;
use vestingroyale::state::layout::{RECORD_HEAD_BYTES, RECORD_RECIPIENT_BYTES};
use vestingroyale::{Identity, VestingRoyale, VestingRoyaleRecord};

const TAG: [u8; 8] = [9, 8, 7, 6, 5, 4, 3, 2];

fn id(n: u8) -> Identity {
    Identity::new([n; 32])
}

fn sample(recipients: Vec<Identity>) -> VestingRoyaleRecord {
    VestingRoyaleRecord {
        initializer: id(0xA1),
        bump: 0xFE,
        nonce: 0x0102030405060708,
        start_epoch: 1000,
        end_epoch: 1010,
        initial_vest: 0x1234,
        vesting_pool: id(0xB2),
        mint: id(0xC3),
        initial_recipient_count: 3,
        recipients,
    }
}

fn same(a: &VestingRoyaleRecord, b: &VestingRoyaleRecord) -> bool {
    a.initializer == b.initializer
        && a.bump == b.bump
        && a.nonce == b.nonce
        && a.start_epoch == b.start_epoch
        && a.end_epoch == b.end_epoch
        && a.initial_vest == b.initial_vest
        && a.vesting_pool == b.vesting_pool
        && a.mint == b.mint
        && a.initial_recipient_count == b.initial_recipient_count
        && a.recipients == b.recipients
}

#[test]
fn a_record_is_stored_field_by_field_little_endian() {
    let bytes = sample(vec![id(1), id(2)]).encode(&TAG).unwrap();
    let mut expected: Vec<u8> = Vec::new();
    expected.extend_from_slice(&TAG);
    expected.extend_from_slice(&[0xA1; 32]);
    expected.push(0xFE);
    expected.extend_from_slice(&[8, 7, 6, 5, 4, 3, 2, 1]);
    expected.extend_from_slice(&[0xE8, 0x03, 0, 0, 0, 0, 0, 0]);
    expected.extend_from_slice(&[0xF2, 0x03, 0, 0, 0, 0, 0, 0]);
    expected.extend_from_slice(&[0x34, 0x12]);
    expected.extend_from_slice(&[0xB2; 32]);
    expected.extend_from_slice(&[0xC3; 32]);
    expected.extend_from_slice(&[3, 0, 0, 0, 0, 0, 0, 0]);
    expected.extend_from_slice(&[2, 0, 0, 0]);
    expected.extend_from_slice(&[1; 32]);
    expected.extend_from_slice(&[2; 32]);
    assert_eq!(bytes, expected);
    assert_eq!(bytes.len(), 207);
}

#[test]
fn the_stored_bytes_are_as_many_as_the_size_says() {
    assert_eq!(RECORD_HEAD_BYTES, 143);
    assert_eq!(RECORD_RECIPIENT_BYTES, 32);
    for n in [0u8, 1, 2, 10, 100] {
        let bytes = sample((0..n).map(id).collect()).encode(&TAG).unwrap();
        assert_eq!(bytes.len(), VestingRoyale::size(n as usize));
    }
}

#[test]
fn the_stored_bytes_are_those_of_the_fields_serialized_in_order() {
    let record = sample(vec![id(5), id(6), id(7)]);
    let key = |identity: &Identity| Pubkey::new_from_array(identity.to_bytes());
    let mut expected: Vec<u8> = TAG.to_vec();
    expected.extend(key(&record.initializer).try_to_vec().unwrap());
    expected.extend(record.bump.try_to_vec().unwrap());
    expected.extend(record.nonce.try_to_vec().unwrap());
    expected.extend(record.start_epoch.try_to_vec().unwrap());
    expected.extend(record.end_epoch.try_to_vec().unwrap());
    expected.extend(record.initial_vest.try_to_vec().unwrap());
    expected.extend(key(&record.vesting_pool).try_to_vec().unwrap());
    expected.extend(key(&record.mint).try_to_vec().unwrap());
    expected.extend(record.initial_recipient_count.try_to_vec().unwrap());
    let keys: Vec<Pubkey> = record.recipients.iter().map(key).collect();
    expected.extend(keys.try_to_vec().unwrap());
    assert_eq!(record.encode(&TAG).unwrap(), expected);
}

#[test]
fn what_is_stored_is_read_back() {
    for n in [0u8, 1, 3, 40] {
        let record = sample((0..n).map(id).collect());
        let bytes = record.encode(&TAG).unwrap();
        let back = VestingRoyaleRecord::decode(&bytes, &TAG).unwrap();
        assert!(same(&back, &record));
    }
}

#[test]
fn bytes_after_the_record_are_passed_over() {
    let record = sample(vec![id(1), id(2)]);
    let mut bytes = record.encode(&TAG).unwrap();
    bytes.extend_from_slice(&[0xEE; 64]);
    let back = VestingRoyaleRecord::decode(&bytes, &TAG).unwrap();
    assert!(same(&back, &record));
}

#[test]
fn bytes_that_are_too_few_are_not_read() {
    let bytes = sample(vec![id(1), id(2)]).encode(&TAG).unwrap();
    assert!(VestingRoyaleRecord::decode(&[], &TAG).is_none());
    assert!(VestingRoyaleRecord::decode(&bytes[..142], &TAG).is_none());
    assert!(VestingRoyaleRecord::decode(&bytes[..143], &TAG).is_none());
    assert!(VestingRoyaleRecord::decode(&bytes[..206], &TAG).is_none());
    assert!(VestingRoyaleRecord::decode(&bytes[..207], &TAG).is_some());
    let empty = sample(vec![]).encode(&TAG).unwrap();
    assert!(VestingRoyaleRecord::decode(&empty[..143], &TAG).is_some());
}

#[test]
fn bytes_under_another_tag_are_not_read() {
    let bytes = sample(vec![id(1)]).encode(&TAG).unwrap();
    let mut other = TAG;
    other[7] = 0;
    assert!(VestingRoyaleRecord::decode(&bytes, &other).is_none());
    other = TAG;
    other[0] = 0;
    assert!(VestingRoyaleRecord::decode(&bytes, &other).is_none());
}

#[test]
fn a_list_that_claims_more_than_there_is_is_not_read() {
    let mut bytes = sample(vec![id(1)]).encode(&TAG).unwrap();
    bytes[139] = 2;
    assert!(VestingRoyaleRecord::decode(&bytes, &TAG).is_none());
    bytes[139] = 1;
    bytes[142] = 0xFF;
    assert!(VestingRoyaleRecord::decode(&bytes, &TAG).is_none());
}

#[test]
fn a_schedule_survives_being_stored_and_read() {
    let schedule = VestingRoyale::from_record(sample(vec![id(1), id(2), id(3)])).unwrap();
    let bytes = schedule.to_record().encode(&TAG).unwrap();
    let record = VestingRoyaleRecord::decode(&bytes, &TAG).unwrap();
    let mut back = VestingRoyale::from_record(record).unwrap();
    // share = floor(900 / 3) = 300; unlocked = 0x1234 + 5 * floor((10000 - 0x1234) / 10) = 7330
    assert_eq!(back.take_at(1005, id(2), 900), Ok(219));
}
