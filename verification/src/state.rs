//! The persisted state: the participant ledger and the vault record that owns it.
use crate::account::{Account, AccountView};
use crate::error::VaultError;
use crate::identity::Identity;
use crate::layout::{
    decode_record, entries_bytes, lemma_decode_inverts, lemma_entries_push, lemma_record_shape,
    VaultView, ENTRY_LEN, HEADER_LEN, MAX_ENTRIES,
};
use crate::ledger::{
    distinct, has_key, is_first_index, lemma_upsert, lemma_without, lemma_without_push, lookup,
    upsert, without,
};
use vstd::bytes::*;
use vstd::prelude::*;
use vstd::slice::slice_subrange;

verus! {

/// The participant ledger: what each depositor may still withdraw.
///
/// The entries are kept in a sequence and read as a map; `insert` and
/// `remove` keep each identity to at most one entry.
#[derive(Clone, Debug, PartialEq, Eq)]
pub struct Participants {
    pub participants: Vec<(Identity, u64)>,
}

impl View for Participants {
    type V = Seq<(Identity, u64)>;

    open spec fn view(&self) -> Seq<(Identity, u64)> {
        self.participants@
    }
}

impl Participants {
    /// Whether no identity has two entries. `new` makes such a ledger, and
    /// `insert` and `remove` keep it so.
    pub open spec fn well_formed(&self) -> bool {
        distinct(self@)
    }

    /// The ledger without entries.
    pub fn new() -> (ledger: Participants)
        ensures
            ledger@ == Seq::<(Identity, u64)>::empty(),
            ledger.well_formed(),
            forall|key: Identity| lookup(ledger@, key) is None,
    {
        Participants { participants: Vec::new() }
    }

    /// The place of the first entry for `key`.
    fn position(&self, key: &Identity) -> (at: Option<usize>)
        ensures
            match at {
                Some(i) => is_first_index(self@, *key, i as int),
                None => !has_key(self@, *key),
            },
    {
        let mut i: usize = 0;
        while i < self.participants.len()
            invariant
                i <= self@.len(),
                forall|j: int| 0 <= j < i ==> self@[j].0 != *key,
            decreases self@.len() - i,
        {
            if self.participants[i].0 == *key {
                return Some(i);
            }
            i += 1;
        }
        None
    }

    /// The amount recorded for `key`: that of its first entry.
    pub fn get(&self, key: &Identity) -> (amount: Option<&u64>)
        ensures
            match amount {
                Some(recorded) => lookup(self@, *key) == Some(*recorded),
                None => lookup(self@, *key) is None,
            },
    {
        match self.position(key) {
            Some(i) => Some(&self.participants[i].1),
            None => None,
        }
    }

    /// Records `value` for `key`: in the entry that `key` has, or else in a
    /// new entry at the end.
    pub fn insert(&mut self, key: Identity, value: u64)
        ensures
            final(self)@ == upsert(old(self)@, key, value),
            lookup(final(self)@, key) == Some(value),
            forall|other: Identity|
                other != key ==> lookup(final(self)@, other) == lookup(old(self)@, other),
            old(self).well_formed() ==> final(self).well_formed(),
    {
        proof {
            lemma_upsert(self@, key, value);
        }
        match self.position(&key) {
            Some(i) => {
                self.participants[i] = (key, value);
            },
            None => {
                self.participants.push((key, value));
            },
        }
    }

    /// Takes every entry for `key` out of the ledger; the others keep their order.
    pub fn remove(&mut self, key: &Identity)
        ensures
            final(self)@ == without(old(self)@, *key),
            lookup(final(self)@, *key) is None,
            forall|other: Identity|
                other != *key ==> lookup(final(self)@, other) == lookup(old(self)@, other),
            old(self).well_formed() ==> final(self).well_formed(),
    {
        let mut kept: Vec<(Identity, u64)> = Vec::new();
        let mut i: usize = 0;
        proof {
            lemma_without(self@, *key);
        }
        while i < self.participants.len()
            invariant
                i <= self@.len(),
                kept@ == without(self@.take(i as int), *key),
            decreases self@.len() - i,
        {
            let entry = self.participants[i];
            proof {
                assert(self@.take(i + 1) =~= self@.take(i as int).push(entry));
                lemma_without_push(self@.take(i as int), entry, *key);
            }
            if entry.0 != *key {
                kept.push(entry);
            }
            i += 1;
        }
        assert(self@.take(self@.len() as int) =~= self@);
        self.participants = kept;
    }
}

/// The vault record: the admin named at initialization, and the ledger.
#[derive(Clone, Debug, PartialEq, Eq)]
pub struct Vault {
    pub admin: Identity,
    pub participants: Participants,
}

impl View for Vault {
    type V = VaultView;

    open spec fn view(&self) -> VaultView {
        VaultView { admin: self.admin, participants: self.participants@ }
    }
}

/// The record that initialization stores: the admin and an empty ledger.
pub open spec fn fresh_record(admin: Identity) -> VaultView {
    VaultView { admin, participants: Seq::empty() }
}

/// Whether initialization goes through, and why not where it does not. The
/// owner is looked at before the stored data.
pub open spec fn initialize_outcome(program_id: Identity, accounts: Seq<AccountView>) -> Result<
    (),
    VaultError,
> {
    if accounts.len() == 0 {
        Err(VaultError::NotEnoughAccountKeys)
    } else if accounts[0].owner != program_id {
        Err(VaultError::IllegalOwner)
    } else if accounts[0].data.len() != 0 {
        Err(VaultError::AlreadyInitialized)
    } else {
        Ok(())
    }
}

/// The accounts after an initialization that went through: the first one
/// stores the fresh record, and nothing else has changed.
pub open spec fn initialized(admin: Identity, accounts: Seq<AccountView>) -> Seq<AccountView> {
    accounts.update(0, AccountView { data: fresh_record(admin).encoding(), ..accounts[0] })
}

/// Initialization goes through once: on the accounts that a successful
/// initialization leaves, a second one fails with `AlreadyInitialized`,
/// whoever is named as admin.
pub proof fn lemma_initialize_twice(
    program_id: Identity,
    admin: Identity,
    accounts: Seq<AccountView>,
)
    requires
        initialize_outcome(program_id, accounts) is Ok,
    ensures
        initialize_outcome(program_id, initialized(admin, accounts)) == Err::<(), VaultError>(
            VaultError::AlreadyInitialized,
        ),
{
}

/// A slot that this module does not own is refused with `IllegalOwner`,
/// whether it holds data or not.
pub proof fn lemma_initialize_illegal_owner(program_id: Identity, accounts: Seq<AccountView>)
    requires
        accounts.len() > 0,
        accounts[0].owner != program_id,
    ensures
        initialize_outcome(program_id, accounts) == Err::<(), VaultError>(
            VaultError::IllegalOwner,
        ),
{
}

impl Vault {
    /// Reads a record from the bytes that store it. All of `bytes` must be
    /// the record: nothing may be missing and nothing may follow it.
    pub fn try_from_slice(bytes: &[u8]) -> (r: Result<Vault, VaultError>)
        ensures
            match r {
                Ok(vault) => decode_record(bytes@) == Some(vault@),
                Err(e) => e == VaultError::InvalidRecord && decode_record(bytes@) is None,
            },
    {
        let len = bytes.len();
        proof {
            lemma_auto_spec_u32_to_from_le_bytes();
            assert forall|v: VaultView| #[trigger] v.encodes_to(bytes@) implies len == HEADER_LEN
                + ENTRY_LEN * v.participants.len() && v.participants.len()
                == spec_u32_from_le_bytes(bytes@.subrange(32, 36)) by {
                lemma_record_shape(v);
            }
        }
        if len < HEADER_LEN {
            return Err(VaultError::InvalidRecord);
        }
        let admin = Identity::read_from(bytes, 0);
        let count = u32_from_le_bytes(slice_subrange(bytes, 32, 36));
        let expected: u64 = 36 + 40 * (count as u64);
        if len as u64 != expected {
            return Err(VaultError::InvalidRecord);
        }
        let mut entries: Vec<(Identity, u64)> = Vec::new();
        let mut i: usize = 0;
        while i < count as usize
            invariant
                i <= count,
                len == bytes@.len(),
                len == HEADER_LEN + ENTRY_LEN * count,
                entries@.len() == i,
                entries_bytes(entries@) == bytes@.subrange(36, 36 + ENTRY_LEN * i),
            decreases count - i,
        {
            let at = 36 + 40 * i;
            let identity = Identity::read_from(bytes, at);
            let amount = u64_from_le_bytes(slice_subrange(bytes, at + 32, at + 40));
            proof {
                lemma_auto_spec_u64_to_from_le_bytes();
                lemma_entries_push(entries@, (identity, amount));
            }
            entries.push((identity, amount));
            i += 1;
        }
        let vault = Vault { admin, participants: Participants { participants: entries } };
        proof {
            assert(vault@.encoding() =~= bytes@);
            lemma_decode_inverts(bytes@, vault@);
        }
        Ok(vault)
    }

    /// Puts the bytes that store the record at the end of `out`. A ledger
    /// with more entries than the count field can announce is refused, and
    /// `out` is left as it was.
    pub fn serialize(&self, out: &mut Vec<u8>) -> (r: Result<(), VaultError>)
        ensures
            match r {
                Ok(_) => self@.storable() && final(out)@ == old(out)@ + self@.encoding(),
                Err(e) => e == VaultError::InvalidRecord && !self@.storable() && final(out)@
                    == old(out)@,
            },
    {
        let count = self.participants.participants.len();
        if count > MAX_ENTRIES {
            return Err(VaultError::InvalidRecord);
        }
        self.admin.write_to(out);
        let mut announced = u32_to_le_bytes(count as u32);
        out.append(&mut announced);
        let ghost header = out@;
        let mut i: usize = 0;
        while i < count
            invariant
                i <= count,
                count == self@.participants.len(),
                out@ == header + entries_bytes(self@.participants.take(i as int)),
            decreases count - i,
        {
            let entry = self.participants.participants[i];
            entry.0.write_to(out);
            let mut amount = u64_to_le_bytes(entry.1);
            out.append(&mut amount);
            proof {
                assert(self@.participants.take(i + 1) =~= self@.participants.take(i as int).push(
                    entry,
                ));
                lemma_entries_push(self@.participants.take(i as int), entry);
            }
            i += 1;
        }
        assert(self@.participants.take(count as int) =~= self@.participants);
        Ok(())
    }

    /// Creates the vault record in the storage slot of the first account.
    ///
    /// The slot has to be owned by this module and to hold no data yet. On
    /// success it holds the record of `admin` with an empty ledger; on
    /// failure no account has changed.
    pub fn initialize(program_id: &Identity, admin: Identity, vault: &mut [Account]) -> (r: Result<
        (),
        VaultError,
    >)
        ensures
            r == initialize_outcome(*program_id, old(vault).deep_view()),
            r is Ok ==> final(vault).deep_view() == initialized(admin, old(vault).deep_view()),
            r is Err ==> final(vault)@ == old(vault)@,
    {
        if vault.len() == 0 {
            return Err(VaultError::NotEnoughAccountKeys);
        }
        if vault[0].owner != *program_id {
            return Err(VaultError::IllegalOwner);
        }
        if vault[0].data.len() != 0 {
            return Err(VaultError::AlreadyInitialized);
        }
        let record = Vault { admin, participants: Participants::new() };
        let mut stored: Vec<u8> = Vec::new();
        match record.serialize(&mut stored) {
            Ok(_) => {
                vault[0].data = stored;
                Ok(())
            },
            Err(e) => Err(e),
        }
    }
}

} // verus!
