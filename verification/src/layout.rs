//! The byte layout of the persisted vault record.
//!
//! A record is the admin's address (32 bytes), the number of ledger entries
//! (4 bytes, little-endian), and the entries in order, each an address
//! (32 bytes) followed by an amount (8 bytes, little-endian).
use crate::identity::Identity;
use vstd::bytes::*;
use vstd::prelude::*;

verus! {

/// The bytes before the first ledger entry: the admin's address and the count.
pub const HEADER_LEN: usize = 36;

/// The bytes of one ledger entry.
pub const ENTRY_LEN: usize = 40;

/// The most entries that the count field can announce.
pub const MAX_ENTRIES: usize = 0xffff_ffff;

/// A vault record as a mathematical value.
pub struct VaultView {
    pub admin: Identity,
    pub participants: Seq<(Identity, u64)>,
}

/// The bytes of one ledger entry.
pub open spec fn entry_bytes(entry: (Identity, u64)) -> Seq<u8> {
    entry.0@ + spec_u64_to_le_bytes(entry.1)
}

/// The bytes of the ledger entries, one after the other.
pub open spec fn entries_bytes(entries: Seq<(Identity, u64)>) -> Seq<u8>
    decreases entries.len(),
{
    if entries.len() == 0 {
        Seq::empty()
    } else {
        entries_bytes(entries.drop_last()) + entry_bytes(entries.last())
    }
}

impl VaultView {
    /// Whether the count field can hold the number of entries.
    pub open spec fn storable(self) -> bool {
        self.participants.len() <= MAX_ENTRIES
    }

    /// The bytes that the record is stored as.
    pub open spec fn encoding(self) -> Seq<u8> {
        self.admin@ + spec_u32_to_le_bytes(self.participants.len() as u32) + entries_bytes(
            self.participants,
        )
    }

    /// Whether `bytes` is what the record is stored as.
    pub open spec fn encodes_to(self, bytes: Seq<u8>) -> bool {
        self.storable() && self.encoding() == bytes
    }
}

/// The record that `bytes` stores, if they store one.
pub open spec fn decode_record(bytes: Seq<u8>) -> Option<VaultView> {
    if exists|v: VaultView| v.encodes_to(bytes) {
        Some(choose|v: VaultView| v.encodes_to(bytes))
    } else {
        None
    }
}

/// An entry takes 40 bytes: its address, then its amount.
pub proof fn lemma_entry_shape(entry: (Identity, u64))
    ensures
        entry_bytes(entry).len() == ENTRY_LEN,
        entry_bytes(entry).subrange(0, 32) == entry.0@,
        entry_bytes(entry).subrange(32, 40) == spec_u64_to_le_bytes(entry.1),
{
    lemma_auto_spec_u64_to_from_le_bytes();
}

/// Two entries with the same bytes are the same entry.
pub proof fn lemma_entry_injective(a: (Identity, u64), b: (Identity, u64))
    requires
        entry_bytes(a) == entry_bytes(b),
    ensures
        a == b,
{
    lemma_entry_shape(a);
    lemma_entry_shape(b);
    lemma_auto_spec_u64_to_from_le_bytes();
    Identity::lemma_view_injective(a.0, b.0);
}

/// Appending an entry appends its bytes.
pub proof fn lemma_entries_push(entries: Seq<(Identity, u64)>, entry: (Identity, u64))
    ensures
        entries_bytes(entries.push(entry)) == entries_bytes(entries) + entry_bytes(entry),
{
    assert(entries.push(entry).drop_last() =~= entries);
}

/// The entries take 40 bytes each, and the entry at `i` starts at byte `40 * i`.
pub proof fn lemma_entries_shape(entries: Seq<(Identity, u64)>)
    ensures
        entries_bytes(entries).len() == ENTRY_LEN * entries.len(),
        forall|i: int|
            0 <= i < entries.len() ==> #[trigger] entries_bytes(entries).subrange(
                ENTRY_LEN * i,
                ENTRY_LEN * i + ENTRY_LEN,
            ) == entry_bytes(entries[i]),
    decreases entries.len(),
{
    if entries.len() > 0 {
        let front = entries.drop_last();
        let all = entries_bytes(entries);
        lemma_entries_shape(front);
        lemma_entry_shape(entries.last());
        assert forall|i: int| 0 <= i < entries.len() implies #[trigger] all.subrange(
            ENTRY_LEN * i,
            ENTRY_LEN * i + ENTRY_LEN,
        ) == entry_bytes(entries[i]) by {
            if i < front.len() {
                assert(entries_bytes(front).subrange(ENTRY_LEN * i, ENTRY_LEN * i + ENTRY_LEN)
                    == entry_bytes(front[i]));
            }
        }
    }
}

/// Two ledgers with the same bytes hold the same entries in the same order.
pub proof fn lemma_entries_injective(a: Seq<(Identity, u64)>, b: Seq<(Identity, u64)>)
    requires
        entries_bytes(a) == entries_bytes(b),
    ensures
        a == b,
{
    lemma_entries_shape(a);
    lemma_entries_shape(b);
    assert forall|i: int| 0 <= i < a.len() implies a[i] == b[i] by {
        assert(entries_bytes(a).subrange(ENTRY_LEN * i, ENTRY_LEN * i + ENTRY_LEN) == entry_bytes(
            a[i],
        ));
        lemma_entry_injective(a[i], b[i]);
    }
}

/// Where the parts of a stored record lie.
pub proof fn lemma_record_shape(v: VaultView)
    ensures
        v.encoding().len() == HEADER_LEN + ENTRY_LEN * v.participants.len(),
        v.encoding().subrange(0, 32) == v.admin@,
        v.encoding().subrange(32, 36) == spec_u32_to_le_bytes(v.participants.len() as u32),
        v.encoding().subrange(36, v.encoding().len() as int) == entries_bytes(v.participants),
{
    lemma_auto_spec_u32_to_from_le_bytes();
    lemma_entries_shape(v.participants);
}

/// Two storable records with the same bytes are the same record.
pub proof fn lemma_encoding_injective(v: VaultView, w: VaultView)
    requires
        v.storable(),
        w.storable(),
        v.encoding() == w.encoding(),
    ensures
        v == w,
{
    lemma_record_shape(v);
    lemma_record_shape(w);
    Identity::lemma_view_injective(v.admin, w.admin);
    lemma_entries_injective(v.participants, w.participants);
}

/// Reading back what was stored gives the record that was stored: the admin
/// and every ledger entry, in the order in which the ledger holds them,
/// whatever that order is.
pub proof fn lemma_round_trip(v: VaultView)
    requires
        v.storable(),
    ensures
        decode_record(v.encoding()) == Some(v),
{
    assert(v.encodes_to(v.encoding()));
    let w = choose|w: VaultView| w.encodes_to(v.encoding());
    lemma_encoding_injective(v, w);
}

/// Bytes that store a record are the stored form of that record, and of no other.
pub proof fn lemma_decode_inverts(bytes: Seq<u8>, v: VaultView)
    ensures
        decode_record(bytes) == Some(v) <==> v.encodes_to(bytes),
{
    if v.encodes_to(bytes) {
        lemma_round_trip(v);
    }
}

} // verus!
