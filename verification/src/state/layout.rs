//! How a schedule is stored: its fields one after the other, integers little-endian.
//!
//! | bytes | field |
//! |-------|-------|
//! | 8     | tag of the kind of record |
//! | 32    | creator |
//! | 1     | bump |
//! | 8     | nonce |
//! | 8     | start epoch |
//! | 8     | end epoch |
//! | 2     | initial slice, in basis points |
//! | 32    | the pool's account |
//! | 32    | the asset |
//! | 8     | number of recipients at creation |
//! | 4     | number of recipients listed |
//! | 32 each | the recipients listed |

use vstd::prelude::*;
use vstd::bytes::{
    spec_u16_from_le_bytes, spec_u16_to_le_bytes, spec_u32_from_le_bytes, spec_u32_to_le_bytes,
    spec_u64_from_le_bytes, spec_u64_to_le_bytes, u16_from_le_bytes, u16_to_le_bytes,
    u32_from_le_bytes, u32_to_le_bytes, u64_from_le_bytes, u64_to_le_bytes,
    lemma_auto_spec_u16_to_from_le_bytes, lemma_auto_spec_u32_to_from_le_bytes,
    lemma_auto_spec_u64_to_from_le_bytes,
};
use vstd::slice::slice_subrange;
use crate::identity::Identity;
use crate::state::vesting_royale::VestingRoyaleRecord;

verus! {

/// Bytes of the tag that a stored record starts with.
pub const TAG_BYTES: usize = 8;

/// Where the creator stands in a stored schedule.
pub const INITIALIZER_AT: usize = 8;

/// Where the bump stands.
pub const BUMP_AT: usize = 40;

/// Where the nonce stands.
pub const NONCE_AT: usize = 41;

/// Where the start epoch stands.
pub const START_EPOCH_AT: usize = 49;

/// Where the end epoch stands.
pub const END_EPOCH_AT: usize = 57;

/// Where the initial slice stands.
pub const INITIAL_VEST_AT: usize = 65;

/// Where the pool's account stands.
pub const VESTING_POOL_AT: usize = 67;

/// Where the asset stands.
pub const MINT_AT: usize = 99;

/// Where the number of recipients at creation stands.
pub const INITIAL_RECIPIENT_COUNT_AT: usize = 131;

/// Where the number of recipients listed stands.
pub const RECIPIENTS_LENGTH_AT: usize = 139;

/// Bytes that a stored schedule takes before its list of recipients: a tag of 8 bytes, the
/// creator, the bump, the nonce, the two epochs, the initial slice, the pool's account, the
/// asset, the number of recipients at creation, and the length of the list.
pub const RECORD_HEAD_BYTES: usize = 8 + 32 + 1 + 8 + 8 + 8 + 2 + 32 + 32 + 8 + 4;

/// Bytes that one listed recipient takes.
pub const RECORD_RECIPIENT_BYTES: usize = 32;

/// Bytes that a stored schedule with `recipients_length` recipients takes.
pub open spec fn record_size(recipients_length: nat) -> nat {
    RECORD_HEAD_BYTES as nat + recipients_length * (RECORD_RECIPIENT_BYTES as nat)
}

/// The bytes of a list of identities: those of the first, then those of the second, and so
/// on.
pub open spec fn identities_bytes(list: Seq<Identity>) -> Seq<u8> {
    Seq::new(32 * list.len(), |i: int| list[i / 32].bytes@[i % 32])
}

/// The bytes of a stored schedule before its list of recipients.
pub open spec fn encoded_head(tag: Seq<u8>, record: &VestingRoyaleRecord) -> Seq<u8> {
    tag + record.initializer.bytes@ + seq![record.bump] + spec_u64_to_le_bytes(record.nonce)
        + spec_u64_to_le_bytes(record.start_epoch) + spec_u64_to_le_bytes(record.end_epoch)
        + spec_u16_to_le_bytes(record.initial_vest) + record.vesting_pool.bytes@
        + record.mint.bytes@ + spec_u64_to_le_bytes(record.initial_recipient_count)
        + spec_u32_to_le_bytes(record.recipients@.len() as u32)
}

/// The bytes of a stored schedule.
pub open spec fn encoded(tag: Seq<u8>, record: &VestingRoyaleRecord) -> Seq<u8> {
    encoded_head(tag, record) + identities_bytes(record.recipients@)
}

/// The number of recipients that stored bytes say they list.
pub open spec fn declared_recipients(bytes: Seq<u8>) -> nat {
    spec_u32_from_le_bytes(
        bytes.subrange(RECIPIENTS_LENGTH_AT as int, RECORD_HEAD_BYTES as int),
    ) as nat
}

/// Whether `bytes` start with a stored schedule under `tag`: they hold at least the fields
/// before the list, start with the tag, and hold all the recipients that they say they list.
pub open spec fn decodable(bytes: Seq<u8>, tag: Seq<u8>) -> bool {
    &&& bytes.len() >= RECORD_HEAD_BYTES
    &&& bytes.subrange(0, TAG_BYTES as int) == tag
    &&& bytes.len() >= record_size(declared_recipients(bytes))
}

/// Whether two records hold the same: field by field, and recipient by recipient in the same
/// order.
pub open spec fn same_record(a: &VestingRoyaleRecord, b: &VestingRoyaleRecord) -> bool {
    &&& a.initializer == b.initializer
    &&& a.bump == b.bump
    &&& a.nonce == b.nonce
    &&& a.start_epoch == b.start_epoch
    &&& a.end_epoch == b.end_epoch
    &&& a.initial_vest == b.initial_vest
    &&& a.vesting_pool == b.vesting_pool
    &&& a.mint == b.mint
    &&& a.initial_recipient_count == b.initial_recipient_count
    &&& a.recipients@ == b.recipients@
}

/// Where each field of a record stands in the bytes that store it.
pub proof fn lemma_encoded_fields(tag: Seq<u8>, record: &VestingRoyaleRecord)
    requires
        tag.len() == TAG_BYTES,
    ensures
        encoded_head(tag, record).len() == RECORD_HEAD_BYTES,
        encoded(tag, record).len() == record_size(record.recipients@.len()),
        encoded(tag, record).subrange(0, RECORD_HEAD_BYTES as int) == encoded_head(tag, record),
        encoded(tag, record).subrange(0, INITIALIZER_AT as int) == tag,
        encoded(tag, record).subrange(INITIALIZER_AT as int, BUMP_AT as int)
            == record.initializer.bytes@,
        encoded(tag, record)[BUMP_AT as int] == record.bump,
        encoded(tag, record).subrange(NONCE_AT as int, START_EPOCH_AT as int)
            == spec_u64_to_le_bytes(record.nonce),
        encoded(tag, record).subrange(START_EPOCH_AT as int, END_EPOCH_AT as int)
            == spec_u64_to_le_bytes(record.start_epoch),
        encoded(tag, record).subrange(END_EPOCH_AT as int, INITIAL_VEST_AT as int)
            == spec_u64_to_le_bytes(record.end_epoch),
        encoded(tag, record).subrange(INITIAL_VEST_AT as int, VESTING_POOL_AT as int)
            == spec_u16_to_le_bytes(record.initial_vest),
        encoded(tag, record).subrange(VESTING_POOL_AT as int, MINT_AT as int)
            == record.vesting_pool.bytes@,
        encoded(tag, record).subrange(MINT_AT as int, INITIAL_RECIPIENT_COUNT_AT as int)
            == record.mint.bytes@,
        encoded(tag, record).subrange(
            INITIAL_RECIPIENT_COUNT_AT as int,
            RECIPIENTS_LENGTH_AT as int,
        ) == spec_u64_to_le_bytes(record.initial_recipient_count),
        encoded(tag, record).subrange(RECIPIENTS_LENGTH_AT as int, RECORD_HEAD_BYTES as int)
            == spec_u32_to_le_bytes(record.recipients@.len() as u32),
        forall|m: int|
            0 <= m < record.recipients@.len() ==> encoded(tag, record).subrange(
                RECORD_HEAD_BYTES + 32 * m,
                RECORD_HEAD_BYTES + 32 * m + 32,
            ) == (#[trigger] record.recipients@[m]).bytes@,
{
    lemma_auto_spec_u16_to_from_le_bytes();
    lemma_auto_spec_u32_to_from_le_bytes();
    lemma_auto_spec_u64_to_from_le_bytes();
    let all = encoded(tag, record);
    assert(all.subrange(0, RECORD_HEAD_BYTES as int) =~= encoded_head(tag, record));
    assert(all.subrange(0, INITIALIZER_AT as int) =~= tag);
    assert(all.subrange(INITIALIZER_AT as int, BUMP_AT as int) =~= record.initializer.bytes@);
    assert(all.subrange(NONCE_AT as int, START_EPOCH_AT as int) =~= spec_u64_to_le_bytes(
        record.nonce,
    ));
    assert(all.subrange(START_EPOCH_AT as int, END_EPOCH_AT as int) =~= spec_u64_to_le_bytes(
        record.start_epoch,
    ));
    assert(all.subrange(END_EPOCH_AT as int, INITIAL_VEST_AT as int) =~= spec_u64_to_le_bytes(
        record.end_epoch,
    ));
    assert(all.subrange(INITIAL_VEST_AT as int, VESTING_POOL_AT as int)
        =~= spec_u16_to_le_bytes(record.initial_vest));
    assert(all.subrange(VESTING_POOL_AT as int, MINT_AT as int) =~= record.vesting_pool.bytes@);
    assert(all.subrange(MINT_AT as int, INITIAL_RECIPIENT_COUNT_AT as int)
        =~= record.mint.bytes@);
    assert(all.subrange(INITIAL_RECIPIENT_COUNT_AT as int, RECIPIENTS_LENGTH_AT as int)
        =~= spec_u64_to_le_bytes(record.initial_recipient_count));
    assert(all.subrange(RECIPIENTS_LENGTH_AT as int, RECORD_HEAD_BYTES as int)
        =~= spec_u32_to_le_bytes(record.recipients@.len() as u32));
    assert forall|m: int| 0 <= m < record.recipients@.len() implies all.subrange(
        RECORD_HEAD_BYTES + 32 * m,
        RECORD_HEAD_BYTES + 32 * m + 32,
    ) == (#[trigger] record.recipients@[m]).bytes@ by {
        let piece = all.subrange(RECORD_HEAD_BYTES + 32 * m, RECORD_HEAD_BYTES + 32 * m + 32);
        assert forall|j: int| 0 <= j < 32 implies piece[j] == record.recipients@[m].bytes@[j] by {
            let i = 32 * m + j;
            assert(i / 32 == m && i % 32 == j);
            assert(piece[j] == identities_bytes(record.recipients@)[i]);
        }
        assert(piece =~= record.recipients@[m].bytes@);
    }
}

/// The bytes that store a record, whatever follows them, start with a stored schedule, and
/// say that they list as many recipients as the record has.
pub proof fn lemma_stored_record_is_decodable(
    tag: Seq<u8>,
    record: &VestingRoyaleRecord,
    rest: Seq<u8>,
)
    requires
        tag.len() == TAG_BYTES,
        record.encodable(),
    ensures
        decodable(encoded(tag, record) + rest, tag),
        declared_recipients(encoded(tag, record) + rest) == record.recipients@.len(),
{
    lemma_encoded_fields(tag, record);
    lemma_auto_spec_u32_to_from_le_bytes();
    let all = encoded(tag, record);
    let bytes = all + rest;
    assert(bytes.subrange(0, TAG_BYTES as int) =~= all.subrange(0, INITIALIZER_AT as int));
    assert(bytes.subrange(RECIPIENTS_LENGTH_AT as int, RECORD_HEAD_BYTES as int)
        =~= all.subrange(RECIPIENTS_LENGTH_AT as int, RECORD_HEAD_BYTES as int));
}

/// Two records whose stored bytes both stand at the start of the same bytes hold the same:
/// no two records are stored alike.
pub proof fn lemma_stored_records_agree(
    tag: Seq<u8>,
    a: &VestingRoyaleRecord,
    b: &VestingRoyaleRecord,
    bytes: Seq<u8>,
)
    requires
        tag.len() == TAG_BYTES,
        a.encodable(),
        b.encodable(),
        encoded(tag, a).is_prefix_of(bytes),
        encoded(tag, b).is_prefix_of(bytes),
    ensures
        same_record(a, b),
{
    lemma_encoded_fields(tag, a);
    lemma_encoded_fields(tag, b);
    lemma_auto_spec_u16_to_from_le_bytes();
    lemma_auto_spec_u32_to_from_le_bytes();
    lemma_auto_spec_u64_to_from_le_bytes();
    let ea = encoded(tag, a);
    let eb = encoded(tag, b);
    assert forall|from: int, to: int| 0 <= from <= to <= RECORD_HEAD_BYTES implies #[trigger] ea.subrange(
        from,
        to,
    ) == eb.subrange(from, to) by {
        assert(ea.subrange(from, to) =~= bytes.subrange(from, to));
        assert(eb.subrange(from, to) =~= bytes.subrange(from, to));
    }
    assert(ea.subrange(INITIALIZER_AT as int, BUMP_AT as int) == eb.subrange(
        INITIALIZER_AT as int,
        BUMP_AT as int,
    ));
    assert(a.initializer.bytes =~= b.initializer.bytes);
    assert(ea[BUMP_AT as int] == bytes[BUMP_AT as int] == eb[BUMP_AT as int]);
    assert(ea.subrange(NONCE_AT as int, START_EPOCH_AT as int) == eb.subrange(
        NONCE_AT as int,
        START_EPOCH_AT as int,
    ));
    assert(a.nonce == spec_u64_from_le_bytes(spec_u64_to_le_bytes(a.nonce)));
    assert(b.nonce == spec_u64_from_le_bytes(spec_u64_to_le_bytes(b.nonce)));
    assert(ea.subrange(START_EPOCH_AT as int, END_EPOCH_AT as int) == eb.subrange(
        START_EPOCH_AT as int,
        END_EPOCH_AT as int,
    ));
    assert(a.start_epoch == spec_u64_from_le_bytes(spec_u64_to_le_bytes(a.start_epoch)));
    assert(b.start_epoch == spec_u64_from_le_bytes(spec_u64_to_le_bytes(b.start_epoch)));
    assert(ea.subrange(END_EPOCH_AT as int, INITIAL_VEST_AT as int) == eb.subrange(
        END_EPOCH_AT as int,
        INITIAL_VEST_AT as int,
    ));
    assert(a.end_epoch == spec_u64_from_le_bytes(spec_u64_to_le_bytes(a.end_epoch)));
    assert(b.end_epoch == spec_u64_from_le_bytes(spec_u64_to_le_bytes(b.end_epoch)));
    assert(ea.subrange(INITIAL_VEST_AT as int, VESTING_POOL_AT as int) == eb.subrange(
        INITIAL_VEST_AT as int,
        VESTING_POOL_AT as int,
    ));
    assert(a.initial_vest == spec_u16_from_le_bytes(spec_u16_to_le_bytes(a.initial_vest)));
    assert(b.initial_vest == spec_u16_from_le_bytes(spec_u16_to_le_bytes(b.initial_vest)));
    assert(ea.subrange(VESTING_POOL_AT as int, MINT_AT as int) == eb.subrange(
        VESTING_POOL_AT as int,
        MINT_AT as int,
    ));
    assert(a.vesting_pool.bytes =~= b.vesting_pool.bytes);
    assert(ea.subrange(MINT_AT as int, INITIAL_RECIPIENT_COUNT_AT as int) == eb.subrange(
        MINT_AT as int,
        INITIAL_RECIPIENT_COUNT_AT as int,
    ));
    assert(a.mint.bytes =~= b.mint.bytes);
    assert(ea.subrange(INITIAL_RECIPIENT_COUNT_AT as int, RECIPIENTS_LENGTH_AT as int)
        == eb.subrange(INITIAL_RECIPIENT_COUNT_AT as int, RECIPIENTS_LENGTH_AT as int));
    assert(a.initial_recipient_count == spec_u64_from_le_bytes(
        spec_u64_to_le_bytes(a.initial_recipient_count),
    ));
    assert(b.initial_recipient_count == spec_u64_from_le_bytes(
        spec_u64_to_le_bytes(b.initial_recipient_count),
    ));
    assert(ea.subrange(RECIPIENTS_LENGTH_AT as int, RECORD_HEAD_BYTES as int) == eb.subrange(
        RECIPIENTS_LENGTH_AT as int,
        RECORD_HEAD_BYTES as int,
    ));
    let la = a.recipients@.len() as u32;
    let lb = b.recipients@.len() as u32;
    assert(la == spec_u32_from_le_bytes(spec_u32_to_le_bytes(la)));
    assert(lb == spec_u32_from_le_bytes(spec_u32_to_le_bytes(lb)));
    assert(a.recipients@.len() == b.recipients@.len());
    assert forall|m: int| 0 <= m < a.recipients@.len() implies a.recipients@[m]
        == b.recipients@[m] by {
        let from = RECORD_HEAD_BYTES + 32 * m;
        assert(ea.subrange(from, from + 32) =~= bytes.subrange(from, from + 32));
        assert(eb.subrange(from, from + 32) =~= bytes.subrange(from, from + 32));
        assert(a.recipients@[m].bytes =~= b.recipients@[m].bytes);
    }
    assert(a.recipients@ =~= b.recipients@);
}

/// What is stored is read back: a record whose stored bytes are the start of the bytes that
/// store `stored`, whatever follows them, holds the same as `stored`.
pub proof fn lemma_stored_is_read_back(
    tag: Seq<u8>,
    stored: &VestingRoyaleRecord,
    rest: Seq<u8>,
    read: &VestingRoyaleRecord,
)
    requires
        tag.len() == TAG_BYTES,
        stored.encodable(),
        read.encodable(),
        record_size(read.recipients@.len()) <= (encoded(tag, stored) + rest).len(),
        encoded(tag, read) == (encoded(tag, stored) + rest).subrange(
            0,
            record_size(read.recipients@.len()) as int,
        ),
    ensures
        same_record(stored, read),
{
    lemma_stored_records_agree(tag, stored, read, encoded(tag, stored) + rest);
}

/// Appends `bytes` to `out`.
fn append_bytes(out: &mut Vec<u8>, bytes: &[u8])
    ensures
        final(out)@ == old(out)@ + bytes@,
{
    let mut i: usize = 0;
    while i < bytes.len()
        invariant
            i <= bytes.len(),
            out@ == old(out)@ + bytes@.subrange(0, i as int),
        decreases bytes.len() - i,
    {
        out.push(bytes[i]);
        i += 1;
    }
    assert(bytes@.subrange(0, bytes@.len() as int) =~= bytes@);
}

/// Whether `bytes` start with `tag`.
fn starts_with_tag(bytes: &[u8], tag: &[u8; 8]) -> (starts: bool)
    requires
        bytes@.len() >= TAG_BYTES,
    ensures
        starts == (bytes@.subrange(0, TAG_BYTES as int) == tag@),
{
    let mut i: usize = 0;
    while i < 8
        invariant
            i <= 8,
            bytes@.len() >= 8,
            forall|j: int| 0 <= j < i ==> bytes@[j] == tag@[j],
        decreases 8 - i,
    {
        if bytes[i] != tag[i] {
            assert(bytes@.subrange(0, 8)[i as int] != tag@[i as int]);
            return false;
        }
        i += 1;
    }
    assert(bytes@.subrange(0, 8) =~= tag@);
    true
}

/// The identity that stands at `at` in `bytes`.
fn read_identity(bytes: &[u8], at: usize) -> (identity: Identity)
    requires
        at + 32 <= bytes.len(),
    ensures
        identity.bytes@ == bytes@.subrange(at as int, at + 32),
{
    let mut raw: [u8; 32] = [0u8; 32];
    let mut j: usize = 0;
    while j < 32
        invariant
            j <= 32,
            at + 32 <= bytes.len(),
            forall|m: int| 0 <= m < j ==> raw@[m] == bytes@[at + m],
        decreases 32 - j,
    {
        raw[j] = bytes[at + j];
        j += 1;
    }
    assert(raw@ =~= bytes@.subrange(at as int, at + 32));
    Identity { bytes: raw }
}

impl VestingRoyaleRecord {
    /// Whether the record can be stored: the number of its recipients fits the 4 bytes that
    /// hold it.
    pub open spec fn encodable(&self) -> bool {
        self.recipients@.len() <= u32::MAX
    }

    /// The bytes that store the record under `tag`, or `None` if it lists more recipients
    /// than can be stored.
    pub fn encode(&self, tag: &[u8; 8]) -> (bytes: Option<Vec<u8>>)
        ensures
            bytes is Some <==> self.encodable(),
            bytes matches Some(stored) ==> {
                &&& stored@ == encoded(tag@, self)
                &&& stored@.len() == record_size(self.recipients@.len())
            },
    {
        if self.recipients.len() > u32::MAX as usize {
            return None;
        }
        proof {
            lemma_auto_spec_u16_to_from_le_bytes();
            lemma_auto_spec_u32_to_from_le_bytes();
            lemma_auto_spec_u64_to_from_le_bytes();
        }
        let mut out: Vec<u8> = Vec::new();
        append_bytes(&mut out, tag.as_slice());
        append_bytes(&mut out, self.initializer.bytes.as_slice());
        out.push(self.bump);
        append_bytes(&mut out, u64_to_le_bytes(self.nonce).as_slice());
        append_bytes(&mut out, u64_to_le_bytes(self.start_epoch).as_slice());
        append_bytes(&mut out, u64_to_le_bytes(self.end_epoch).as_slice());
        append_bytes(&mut out, u16_to_le_bytes(self.initial_vest).as_slice());
        append_bytes(&mut out, self.vesting_pool.bytes.as_slice());
        append_bytes(&mut out, self.mint.bytes.as_slice());
        append_bytes(&mut out, u64_to_le_bytes(self.initial_recipient_count).as_slice());
        append_bytes(&mut out, u32_to_le_bytes(self.recipients.len() as u32).as_slice());
        assert(out@ =~= encoded_head(tag@, self));
        let mut k: usize = 0;
        while k < self.recipients.len()
            invariant
                k <= self.recipients.len(),
                out@ == encoded_head(tag@, self) + identities_bytes(
                    self.recipients@.subrange(0, k as int),
                ),
                encoded_head(tag@, self).len() == RECORD_HEAD_BYTES,
            decreases self.recipients.len() - k,
        {
            let ghost before = out@;
            append_bytes(&mut out, self.recipients[k].bytes.as_slice());
            assert(out@ =~= encoded_head(tag@, self) + identities_bytes(
                self.recipients@.subrange(0, k + 1),
            )) by {
                let head = encoded_head(tag@, self);
                let shorter = self.recipients@.subrange(0, k as int);
                let longer = self.recipients@.subrange(0, k + 1);
                assert forall|i: int| 0 <= i < out@.len() implies out@[i] == (head
                    + identities_bytes(longer))[i] by {
                    if i >= head.len() {
                        let j = i - head.len();
                        if j < 32 * k {
                            assert(before[i] == identities_bytes(shorter)[j]);
                            assert(shorter[j / 32] == longer[j / 32]);
                        } else {
                            assert(longer[j / 32] == self.recipients@[k as int]);
                        }
                    }
                }
            }
            k += 1;
        }
        assert(self.recipients@.subrange(0, k as int) =~= self.recipients@);
        Some(out)
    }

    /// The record that `bytes` start with, if they start with one stored under `tag`. Bytes
    /// that follow the record are passed over.
    pub fn decode(bytes: &[u8], tag: &[u8; 8]) -> (decoded: Option<VestingRoyaleRecord>)
        ensures
            decoded is Some <==> decodable(bytes@, tag@),
            decoded matches Some(record) ==> {
                &&& record.encodable()
                &&& record.recipients@.len() == declared_recipients(bytes@)
                &&& encoded(tag@, &record) == bytes@.subrange(
                    0,
                    record_size(record.recipients@.len()) as int,
                )
            },
    {
        if bytes.len() < RECORD_HEAD_BYTES {
            return None;
        }
        if !starts_with_tag(bytes, tag) {
            return None;
        }
        let listed: usize = u32_from_le_bytes(
            slice_subrange(bytes, RECIPIENTS_LENGTH_AT, RECORD_HEAD_BYTES),
        ) as usize;
        if (bytes.len() - RECORD_HEAD_BYTES) / RECORD_RECIPIENT_BYTES < listed {
            return None;
        }
        let initializer = read_identity(bytes, INITIALIZER_AT);
        let bump = bytes[BUMP_AT];
        let nonce = u64_from_le_bytes(slice_subrange(bytes, NONCE_AT, START_EPOCH_AT));
        let start_epoch = u64_from_le_bytes(slice_subrange(bytes, START_EPOCH_AT, END_EPOCH_AT));
        let end_epoch = u64_from_le_bytes(slice_subrange(bytes, END_EPOCH_AT, INITIAL_VEST_AT));
        let initial_vest = u16_from_le_bytes(
            slice_subrange(bytes, INITIAL_VEST_AT, VESTING_POOL_AT),
        );
        let vesting_pool = read_identity(bytes, VESTING_POOL_AT);
        let mint = read_identity(bytes, MINT_AT);
        let initial_recipient_count = u64_from_le_bytes(
            slice_subrange(bytes, INITIAL_RECIPIENT_COUNT_AT, RECIPIENTS_LENGTH_AT),
        );
        let mut recipients: Vec<Identity> = Vec::new();
        let mut k: usize = 0;
        while k < listed
            invariant
                k <= listed,
                RECORD_HEAD_BYTES + 32 * listed <= bytes.len(),
                recipients@.len() == k,
                forall|m: int|
                    0 <= m < k ==> (#[trigger] recipients@[m]).bytes@ == bytes@.subrange(
                        RECORD_HEAD_BYTES + 32 * m,
                        RECORD_HEAD_BYTES + 32 * m + 32,
                    ),
            decreases listed - k,
        {
            let identity = read_identity(bytes, RECORD_HEAD_BYTES + RECORD_RECIPIENT_BYTES * k);
            recipients.push(identity);
            k += 1;
        }
        let record = VestingRoyaleRecord {
            initializer,
            bump,
            nonce,
            start_epoch,
            end_epoch,
            initial_vest,
            vesting_pool,
            mint,
            initial_recipient_count,
            recipients,
        };
        proof {
            lemma_auto_spec_u16_to_from_le_bytes();
            lemma_auto_spec_u32_to_from_le_bytes();
            lemma_auto_spec_u64_to_from_le_bytes();
            let stored = bytes@.subrange(0, record_size(listed as nat) as int);
            let head = encoded_head(tag@, &record);
            assert(spec_u32_to_le_bytes(listed as u32) == bytes@.subrange(
                RECIPIENTS_LENGTH_AT as int,
                RECORD_HEAD_BYTES as int,
            ));
            assert(head =~= bytes@.subrange(0, RECORD_HEAD_BYTES as int));
            assert forall|i: int| 0 <= i < stored.len() implies stored[i] == encoded(
                tag@,
                &record,
            )[i] by {
                if i >= RECORD_HEAD_BYTES {
                    let j = i - RECORD_HEAD_BYTES;
                    let m = j / 32;
                    assert(record.recipients@[m].bytes@[j % 32] == bytes@.subrange(
                        RECORD_HEAD_BYTES + 32 * m,
                        RECORD_HEAD_BYTES + 32 * m + 32,
                    )[j % 32]);
                }
            }
            assert(encoded(tag@, &record) =~= stored);
        }
        Some(record)
    }
}

} // verus!
