//! The four instructions, their encoding, and what each of them decides.
use crate::account::{Account, AccountView};
use crate::error::VaultError;
use crate::identity::Identity;
use crate::layout::{decode_record, lemma_decode_inverts, VaultView};
use crate::ledger::{lemma_upsert, lookup, recorded, upsert};
use crate::state::{initialize_outcome, initialized, Vault};
use crate::transfer::Transfer;
use vstd::bytes::*;
use vstd::prelude::*;
use vstd::slice::slice_subrange;

verus! {

/// The tag of `Instructions::Deposit`.
pub const DEPOSIT_TAG: u8 = 0;

/// The tag of `Instructions::CheckBalance`.
pub const CHECK_BALANCE_TAG: u8 = 1;

/// The tag of `Instructions::Withdraw`.
pub const WITHDRAW_TAG: u8 = 2;

/// The tag of `Instructions::Initialize`.
pub const INITIALIZE_TAG: u8 = 3;

/// A request to the vault. In the instruction buffer it is one tag byte,
/// followed for a deposit and a withdrawal by the amount as 8 little-endian bytes.
#[derive(Clone, Copy, Debug, PartialEq, Eq)]
pub enum Instructions {
    /// Move the amount from the depositor into the vault.
    Deposit(u64),
    /// Report what the vault holds.
    CheckBalance,
    /// Pay the amount out of the vault to the recipient.
    Withdraw(u64),
    /// Create the vault record.
    Initialize,
}

/// The instruction that `bytes` encode, if they encode one. Nothing may
/// follow the instruction.
pub open spec fn decode_instruction(bytes: Seq<u8>) -> Option<Instructions> {
    if bytes.len() == 9 && bytes[0] == DEPOSIT_TAG {
        Some(Instructions::Deposit(spec_u64_from_le_bytes(bytes.subrange(1, 9))))
    } else if bytes.len() == 1 && bytes[0] == CHECK_BALANCE_TAG {
        Some(Instructions::CheckBalance)
    } else if bytes.len() == 9 && bytes[0] == WITHDRAW_TAG {
        Some(Instructions::Withdraw(spec_u64_from_le_bytes(bytes.subrange(1, 9))))
    } else if bytes.len() == 1 && bytes[0] == INITIALIZE_TAG {
        Some(Instructions::Initialize)
    } else {
        None
    }
}

/// What a deposit decides: the depositor must have signed and the vault must
/// be owned by this module; then the amount is to move from the depositor to
/// the vault. The ledger is not touched.
pub open spec fn deposit_outcome(
    program_id: Identity,
    from: AccountView,
    vault: AccountView,
    amount: u64,
) -> Result<Transfer, VaultError> {
    if !from.is_signer {
        Err(VaultError::MissingSignature)
    } else if vault.owner != program_id {
        Err(VaultError::IllegalOwner)
    } else {
        Ok(Transfer { from: from.key, to: vault.key, lamports: amount })
    }
}

/// What a balance check decides: the vault must be owned by this module;
/// then what it holds is reported.
pub open spec fn check_balance_outcome(program_id: Identity, vault: AccountView) -> Result<
    u64,
    VaultError,
> {
    if vault.owner != program_id {
        Err(VaultError::IllegalOwner)
    } else {
        Ok(vault.lamports)
    }
}

/// What a withdrawal decides: the recipient must have signed, the vault must
/// be owned by this module and store a record, and the ledger must record
/// for the recipient at least the amount; then the amount is to move from the
/// vault to the recipient. The ledger is not touched.
pub open spec fn withdraw_outcome(
    program_id: Identity,
    vault: AccountView,
    recipient: AccountView,
    amount: u64,
) -> Result<Transfer, VaultError> {
    if !recipient.is_signer {
        Err(VaultError::MissingSignature)
    } else if vault.owner != program_id {
        Err(VaultError::IllegalOwner)
    } else {
        match decode_record(vault.data) {
            None => Err(VaultError::InvalidRecord),
            Some(record) => match lookup(record.participants, recipient.key) {
                None => Err(VaultError::UnknownParticipant),
                Some(recorded) => if recorded < amount {
                    Err(VaultError::InsufficientBalance)
                } else {
                    Ok(Transfer { from: vault.key, to: recipient.key, lamports: amount })
                },
            },
        }
    }
}

/// The record after the ledger was made to record `amount` for `who`.
pub open spec fn with_amount(record: VaultView, who: Identity, amount: u64) -> VaultView {
    VaultView { admin: record.admin, participants: upsert(record.participants, who, amount) }
}

/// What a deposit that keeps the ledger decides, and the record that the
/// vault stores afterwards.
///
/// The checks are those of a deposit, and the vault must store a record. The
/// depositor is then credited with the amount on top of what the ledger
/// records for it. That fails where the sum is more than 64 bits hold, or
/// where the ledger would get more entries than can be stored.
pub open spec fn deposit_and_credit_outcome(
    program_id: Identity,
    from: AccountView,
    vault: AccountView,
    amount: u64,
) -> Result<(Transfer, VaultView), VaultError> {
    if !from.is_signer {
        Err(VaultError::MissingSignature)
    } else if vault.owner != program_id {
        Err(VaultError::IllegalOwner)
    } else {
        match decode_record(vault.data) {
            None => Err(VaultError::InvalidRecord),
            Some(record) => {
                let credited = recorded(record.participants, from.key) + amount;
                if credited > u64::MAX {
                    Err(VaultError::ArithmeticOverflow)
                } else if !with_amount(record, from.key, credited as u64).storable() {
                    Err(VaultError::InvalidRecord)
                } else {
                    Ok(
                        (
                            Transfer { from: from.key, to: vault.key, lamports: amount },
                            with_amount(record, from.key, credited as u64),
                        ),
                    )
                }
            },
        }
    }
}

/// What a withdrawal that keeps the ledger decides, and the record that the
/// vault stores afterwards.
///
/// The checks are those of a withdrawal. The recipient is then debited with
/// the amount, so that what was paid out cannot be asked for again.
pub open spec fn withdraw_and_debit_outcome(
    program_id: Identity,
    vault: AccountView,
    recipient: AccountView,
    amount: u64,
) -> Result<(Transfer, VaultView), VaultError> {
    match withdraw_outcome(program_id, vault, recipient, amount) {
        Err(e) => Err(e),
        Ok(transfer) => {
            let record = decode_record(vault.data)->Some_0;
            let left = recorded(record.participants, recipient.key) - amount;
            Ok((transfer, with_amount(record, recipient.key, left as u64)))
        },
    }
}

/// The vault account after its stored record was replaced by `record`.
pub open spec fn storing(vault: AccountView, record: VaultView) -> AccountView {
    AccountView { data: record.encoding(), ..vault }
}

/// An unknown recipient and a recipient with too little are told apart, and
/// a recipient with exactly the amount is paid: for a recipient that signed
/// and a vault of this module that stores `record`, a withdrawal fails with
/// `UnknownParticipant` if the ledger has no entry for the recipient, fails
/// with `InsufficientBalance` if it records less than the amount, and else
/// asks for the transfer from the vault to the recipient.
pub proof fn lemma_withdraw_by_ledger(
    program_id: Identity,
    vault: AccountView,
    recipient: AccountView,
    amount: u64,
    record: VaultView,
)
    requires
        recipient.is_signer,
        vault.owner == program_id,
        record.encodes_to(vault.data),
    ensures
        withdraw_outcome(program_id, vault, recipient, amount) == match lookup(
            record.participants,
            recipient.key,
        ) {
            None => Err::<Transfer, VaultError>(VaultError::UnknownParticipant),
            Some(recorded) => if recorded < amount {
                Err::<Transfer, VaultError>(VaultError::InsufficientBalance)
            } else {
                Ok::<Transfer, VaultError>(
                    Transfer { from: vault.key, to: recipient.key, lamports: amount },
                )
            },
        },
{
    lemma_decode_inverts(vault.data, record);
}

/// What was paid out cannot be asked for again: after a withdrawal that
/// debited the recipient, a further withdrawal goes through only as far as
/// both amounts together stay within what the ledger recorded before.
pub proof fn lemma_debit_limits_withdrawals(
    program_id: Identity,
    vault: AccountView,
    recipient: AccountView,
    first: u64,
    second: u64,
)
    requires
        withdraw_and_debit_outcome(program_id, vault, recipient, first) is Ok,
    ensures
        ({
            let before = decode_record(vault.data)->Some_0;
            let after = storing(
                vault,
                withdraw_and_debit_outcome(program_id, vault, recipient, first)->Ok_0.1,
            );
            withdraw_outcome(program_id, after, recipient, second) is Ok <==> first + second
                <= recorded(before.participants, recipient.key)
        }),
{
    let before = decode_record(vault.data)->Some_0;
    let record = withdraw_and_debit_outcome(program_id, vault, recipient, first)->Ok_0.1;
    let left = (recorded(before.participants, recipient.key) - first) as u64;
    lemma_upsert(before.participants, recipient.key, left);
    lemma_decode_inverts(record.encoding(), record);
}

/// What was deposited can be withdrawn: after a deposit that credited the
/// depositor, a withdrawal by the depositor goes through exactly as far as
/// its amount stays within what the ledger recorded before plus the deposit.
pub proof fn lemma_credit_allows_withdrawal(
    program_id: Identity,
    depositor: AccountView,
    vault: AccountView,
    deposited: u64,
    asked: u64,
)
    requires
        deposit_and_credit_outcome(program_id, depositor, vault, deposited) is Ok,
    ensures
        ({
            let before = decode_record(vault.data)->Some_0;
            let after = storing(
                vault,
                deposit_and_credit_outcome(program_id, depositor, vault, deposited)->Ok_0.1,
            );
            withdraw_outcome(program_id, after, depositor, asked) is Ok <==> asked <= recorded(
                before.participants,
                depositor.key,
            ) + deposited
        }),
{
    let before = decode_record(vault.data)->Some_0;
    let record = deposit_and_credit_outcome(program_id, depositor, vault, deposited)->Ok_0.1;
    let credited = (recorded(before.participants, depositor.key) + deposited) as u64;
    lemma_upsert(before.participants, depositor.key, credited);
    lemma_decode_inverts(record.encoding(), record);
}

impl Instructions {
    /// The bytes of the instruction buffer that asks for this instruction.
    pub open spec fn encoding(self) -> Seq<u8> {
        match self {
            Instructions::Deposit(amount) => seq![DEPOSIT_TAG] + spec_u64_to_le_bytes(amount),
            Instructions::CheckBalance => seq![CHECK_BALANCE_TAG],
            Instructions::Withdraw(amount) => seq![WITHDRAW_TAG] + spec_u64_to_le_bytes(amount),
            Instructions::Initialize => seq![INITIALIZE_TAG],
        }
    }

    /// Decoding is the inverse of encoding: an encoded instruction decodes to
    /// itself, and bytes decode to an instruction only if they are its encoding.
    pub proof fn lemma_encoding_round_trip(self, bytes: Seq<u8>)
        ensures
            decode_instruction(self.encoding()) == Some(self),
            decode_instruction(bytes) == Some(self) <==> bytes == self.encoding(),
    {
        lemma_auto_spec_u64_to_from_le_bytes();
        match self {
            Instructions::Deposit(amount) => {
                assert(self.encoding().subrange(1, 9) =~= spec_u64_to_le_bytes(amount));
            },
            Instructions::Withdraw(amount) => {
                assert(self.encoding().subrange(1, 9) =~= spec_u64_to_le_bytes(amount));
            },
            _ => {},
        }
        if decode_instruction(bytes) == Some(self) {
            match self {
                Instructions::Deposit(amount) => {
                    assert(bytes =~= seq![DEPOSIT_TAG] + bytes.subrange(1, 9));
                },
                Instructions::Withdraw(amount) => {
                    assert(bytes =~= seq![WITHDRAW_TAG] + bytes.subrange(1, 9));
                },
                _ => {
                    assert(bytes =~= self.encoding());
                },
            }
        }
    }

    /// Decodes the instruction buffer. All of `data` must be the instruction.
    pub fn try_from_slice(data: &[u8]) -> (r: Result<Instructions, VaultError>)
        ensures
            match r {
                Ok(instruction) => decode_instruction(data@) == Some(instruction),
                Err(e) => e == VaultError::InvalidInstructionData && decode_instruction(data@)
                    is None,
            },
    {
        let len = data.len();
        if len == 1 {
            if data[0] == CHECK_BALANCE_TAG {
                return Ok(Instructions::CheckBalance);
            }
            if data[0] == INITIALIZE_TAG {
                return Ok(Instructions::Initialize);
            }
        } else if len == 9 {
            if data[0] == DEPOSIT_TAG {
                return Ok(Instructions::Deposit(u64_from_le_bytes(slice_subrange(data, 1, 9))));
            }
            if data[0] == WITHDRAW_TAG {
                return Ok(Instructions::Withdraw(u64_from_le_bytes(slice_subrange(data, 1, 9))));
            }
        }
        Err(VaultError::InvalidInstructionData)
    }

    /// Puts the bytes that encode the instruction at the end of `out`.
    pub fn serialize(&self, out: &mut Vec<u8>)
        ensures
            final(out)@ == old(out)@ + self.encoding(),
    {
        match self {
            Instructions::Deposit(amount) => {
                out.push(DEPOSIT_TAG);
                let mut raw = u64_to_le_bytes(*amount);
                out.append(&mut raw);
            },
            Instructions::CheckBalance => {
                out.push(CHECK_BALANCE_TAG);
            },
            Instructions::Withdraw(amount) => {
                out.push(WITHDRAW_TAG);
                let mut raw = u64_to_le_bytes(*amount);
                out.append(&mut raw);
            },
            Instructions::Initialize => {
                out.push(INITIALIZE_TAG);
            },
        }
    }

    /// Creates the vault record in the storage slot of the first account,
    /// with `admin` as its admin and an empty ledger.
    ///
    /// Fails with `NotEnoughAccountKeys` without an account, with
    /// `IllegalOwner` if the slot is not owned by `program_id`, whatever it
    /// holds, and with `AlreadyInitialized` if the slot holds data. On
    /// failure no account has changed.
    pub fn initialize(program_id: &Identity, admin: Identity, accounts: &mut [Account]) -> (r:
        Result<(), VaultError>)
        ensures
            r == initialize_outcome(*program_id, old(accounts).deep_view()),
            r is Ok ==> final(accounts).deep_view() == initialized(
                admin,
                old(accounts).deep_view(),
            ),
            r is Err ==> final(accounts)@ == old(accounts)@,
            old(accounts)@.len() > 0 && old(accounts)@[0].owner != *program_id ==> r == Err::<
                (),
                VaultError,
            >(VaultError::IllegalOwner),
    {
        Vault::initialize(program_id, admin, accounts)
    }

    /// Decides a deposit of `amount` from `from` into `vault`, and answers
    /// with the transfer that the host runtime has to carry out.
    ///
    /// Fails with `MissingSignature` if `from` did not sign, whatever the
    /// amount and the vault, and else with `IllegalOwner` if the vault is not
    /// owned by `program_id`. An amount of zero is not refused.
    pub fn deposit(program_id: &Identity, from: &Account, vault: &Account, amount: u64) -> (r:
        Result<Transfer, VaultError>)
        ensures
            r == deposit_outcome(*program_id, from@, vault@, amount),
            !from.is_signer ==> r == Err::<Transfer, VaultError>(VaultError::MissingSignature),
    {
        if !from.is_signer {
            return Err(VaultError::MissingSignature);
        }
        if vault.owner != *program_id {
            return Err(VaultError::IllegalOwner);
        }
        Ok(Transfer { from: from.key, to: vault.key, lamports: amount })
    }

    /// Reports the currency units that `vault` holds.
    ///
    /// Fails with `IllegalOwner` if the vault is not owned by `program_id`.
    pub fn check_balance(program_id: &Identity, vault: &Account) -> (r: Result<u64, VaultError>)
        ensures
            r == check_balance_outcome(*program_id, vault@),
    {
        if vault.owner != *program_id {
            return Err(VaultError::IllegalOwner);
        }
        Ok(vault.lamports)
    }

    /// Decides a withdrawal of `amount` from `vault` to `recipient`, and
    /// answers with the transfer that the host runtime has to carry out.
    ///
    /// Fails with `MissingSignature` if `recipient` did not sign, with
    /// `IllegalOwner` if the vault is not owned by `program_id`, with
    /// `InvalidRecord` if the vault does not store a record, with
    /// `UnknownParticipant` if the ledger has no entry for the recipient, and
    /// with `InsufficientBalance` if it records less than `amount`. An amount
    /// equal to the recorded one is paid out.
    pub fn withdraw(program_id: &Identity, vault: &Account, recipient: &Account, amount: u64) -> (r:
        Result<Transfer, VaultError>)
        ensures
            r == withdraw_outcome(*program_id, vault@, recipient@, amount),
            recipient.is_signer && vault.owner == *program_id ==> match decode_record(vault@.data) {
                None => r == Err::<Transfer, VaultError>(VaultError::InvalidRecord),
                Some(record) => match lookup(record.participants, recipient.key) {
                    None => r == Err::<Transfer, VaultError>(VaultError::UnknownParticipant),
                    Some(recorded) => {
                        &&& recorded < amount ==> r == Err::<Transfer, VaultError>(
                            VaultError::InsufficientBalance,
                        )
                        &&& recorded >= amount ==> r == Ok::<Transfer, VaultError>(
                            Transfer { from: vault.key, to: recipient.key, lamports: amount },
                        )
                    },
                },
            },
    {
        if !recipient.is_signer {
            return Err(VaultError::MissingSignature);
        }
        if vault.owner != *program_id {
            return Err(VaultError::IllegalOwner);
        }
        let record = match Vault::try_from_slice(vault.data.as_slice()) {
            Ok(record) => record,
            Err(e) => {
                return Err(e);
            },
        };
        match record.participants.get(&recipient.key) {
            Some(recorded) => {
                if *recorded < amount {
                    Err(VaultError::InsufficientBalance)
                } else {
                    Ok(Transfer { from: vault.key, to: recipient.key, lamports: amount })
                }
            },
            None => Err(VaultError::UnknownParticipant),
        }
    }

    /// A deposit that keeps the ledger: decides as `deposit` does, and on
    /// success has credited the depositor in the record that `vault` stores.
    ///
    /// Besides the failures of `deposit`, fails with `InvalidRecord` if the
    /// vault does not store a record or the ledger cannot take one more
    /// entry, and with `ArithmeticOverflow` if the credited amount does not
    /// fit in 64 bits. On failure the vault has not changed.
    pub fn deposit_and_credit(
        program_id: &Identity,
        from: &Account,
        vault: &mut Account,
        amount: u64,
    ) -> (r: Result<Transfer, VaultError>)
        ensures
            match deposit_and_credit_outcome(*program_id, from@, old(vault)@, amount) {
                Ok((transfer, record)) => {
                    &&& r == Ok::<Transfer, VaultError>(transfer)
                    &&& final(vault)@ == (AccountView { data: record.encoding(), ..old(vault)@ })
                    &&& decode_record(final(vault)@.data) == Some(record)
                    &&& lookup(record.participants, from.key) == Some(
                        (recorded(decode_record(old(vault)@.data)->Some_0.participants, from.key)
                            + amount) as u64,
                    )
                },
                Err(e) => r == Err::<Transfer, VaultError>(e) && *final(vault) == *old(vault),
            },
            !from.is_signer ==> r == Err::<Transfer, VaultError>(VaultError::MissingSignature),
    {
        if !from.is_signer {
            return Err(VaultError::MissingSignature);
        }
        if vault.owner != *program_id {
            return Err(VaultError::IllegalOwner);
        }
        let mut record = match Vault::try_from_slice(vault.data.as_slice()) {
            Ok(record) => record,
            Err(e) => {
                return Err(e);
            },
        };
        let prior = match record.participants.get(&from.key) {
            Some(recorded) => *recorded,
            None => 0,
        };
        let credited = match prior.checked_add(amount) {
            Some(credited) => credited,
            None => {
                return Err(VaultError::ArithmeticOverflow);
            },
        };
        record.participants.insert(from.key, credited);
        let mut stored: Vec<u8> = Vec::new();
        match record.serialize(&mut stored) {
            Ok(_) => {
                proof {
                    lemma_decode_inverts(stored@, record@);
                }
                vault.data = stored;
                Ok(Transfer { from: from.key, to: vault.key, lamports: amount })
            },
            Err(e) => Err(e),
        }
    }

    /// A withdrawal that keeps the ledger: decides as `withdraw` does, and on
    /// success has debited the recipient in the record that `vault` stores.
    ///
    /// Fails as `withdraw` does. On failure the vault has not changed.
    pub fn withdraw_and_debit(
        program_id: &Identity,
        vault: &mut Account,
        recipient: &Account,
        amount: u64,
    ) -> (r: Result<Transfer, VaultError>)
        ensures
            match withdraw_and_debit_outcome(*program_id, old(vault)@, recipient@, amount) {
                Ok((transfer, record)) => {
                    &&& r == Ok::<Transfer, VaultError>(transfer)
                    &&& final(vault)@ == (AccountView { data: record.encoding(), ..old(vault)@ })
                    &&& decode_record(final(vault)@.data) == Some(record)
                    &&& lookup(record.participants, recipient.key) == Some(
                        (recorded(
                            decode_record(old(vault)@.data)->Some_0.participants,
                            recipient.key,
                        ) - amount) as u64,
                    )
                },
                Err(e) => r == Err::<Transfer, VaultError>(e) && *final(vault) == *old(vault),
            },
    {
        if !recipient.is_signer {
            return Err(VaultError::MissingSignature);
        }
        if vault.owner != *program_id {
            return Err(VaultError::IllegalOwner);
        }
        let mut record = match Vault::try_from_slice(vault.data.as_slice()) {
            Ok(record) => record,
            Err(e) => {
                return Err(e);
            },
        };
        let prior = match record.participants.get(&recipient.key) {
            Some(recorded) => *recorded,
            None => {
                return Err(VaultError::UnknownParticipant);
            },
        };
        if prior < amount {
            return Err(VaultError::InsufficientBalance);
        }
        record.participants.insert(recipient.key, prior - amount);
        let mut stored: Vec<u8> = Vec::new();
        match record.serialize(&mut stored) {
            Ok(_) => {
                proof {
                    lemma_decode_inverts(stored@, record@);
                }
                vault.data = stored;
                Ok(Transfer { from: vault.key, to: recipient.key, lamports: amount })
            },
            Err(e) => Err(e),
        }
    }
}

} // verus!
