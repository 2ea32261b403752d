//! The dispatcher: decodes the instruction buffer and routes the instruction
//! to its handler with the accounts that it asks for.
use crate::account::{Account, AccountView};
use crate::error::VaultError;
use crate::identity::Identity;
use crate::instruction::{
    check_balance_outcome, decode_instruction, deposit_and_credit_outcome, deposit_outcome,
    withdraw_and_debit_outcome, withdraw_outcome, Instructions,
};
use crate::state::{initialize_outcome, initialized};
use crate::transfer::Transfer;
use vstd::prelude::*;

verus! {

/// What an instruction that went through asks of the host runtime.
#[derive(Clone, Copy, Debug, PartialEq, Eq)]
pub enum Outcome {
    /// The vault record was created with this admin. Nothing is to be moved.
    Initialized { admin: Identity },
    /// A deposit was accepted: the transfer is to be carried out.
    Deposit(Transfer),
    /// The vault holds this many currency units. Nothing is to be moved.
    Balance(u64),
    /// A withdrawal was accepted: the transfer is to be carried out.
    Withdraw(Transfer),
}

/// What the dispatcher answers.
///
/// The instruction is decoded first. It then takes its accounts from the
/// front of the list: initialization the storage slot, whose address is
/// recorded as the admin; a deposit the depositor and the vault; a balance
/// check the vault; a withdrawal the vault and the recipient.
pub open spec fn process_outcome(
    program_id: Identity,
    accounts: Seq<AccountView>,
    instruction_data: Seq<u8>,
) -> Result<Outcome, VaultError> {
    match decode_instruction(instruction_data) {
        None => Err(VaultError::InvalidInstructionData),
        Some(Instructions::Initialize) => match initialize_outcome(program_id, accounts) {
            Ok(_) => Ok(Outcome::Initialized { admin: accounts[0].key }),
            Err(e) => Err(e),
        },
        Some(Instructions::Deposit(amount)) => if accounts.len() < 2 {
            Err(VaultError::NotEnoughAccountKeys)
        } else {
            match deposit_outcome(program_id, accounts[0], accounts[1], amount) {
                Ok(transfer) => Ok(Outcome::Deposit(transfer)),
                Err(e) => Err(e),
            }
        },
        Some(Instructions::CheckBalance) => if accounts.len() < 1 {
            Err(VaultError::NotEnoughAccountKeys)
        } else {
            match check_balance_outcome(program_id, accounts[0]) {
                Ok(lamports) => Ok(Outcome::Balance(lamports)),
                Err(e) => Err(e),
            }
        },
        Some(Instructions::Withdraw(amount)) => if accounts.len() < 2 {
            Err(VaultError::NotEnoughAccountKeys)
        } else {
            match withdraw_outcome(program_id, accounts[0], accounts[1], amount) {
                Ok(transfer) => Ok(Outcome::Withdraw(transfer)),
                Err(e) => Err(e),
            }
        },
    }
}

/// Decodes `instruction_data` and carries the instruction out on `accounts`.
///
/// Fails with `InvalidInstructionData` if the buffer does not decode, with
/// `NotEnoughAccountKeys` if the list is shorter than the instruction needs,
/// and else with what the handler fails with. Only an initialization that
/// went through changes an account, and no call leaves anything half done.
pub fn process(program_id: &Identity, accounts: &mut [Account], instruction_data: &[u8]) -> (r:
    Result<Outcome, VaultError>)
    ensures
        r == process_outcome(*program_id, old(accounts).deep_view(), instruction_data@),
        r matches Ok(Outcome::Initialized { admin }) ==> final(accounts).deep_view()
            == initialized(admin, old(accounts).deep_view()),
        !(r matches Ok(Outcome::Initialized { .. })) ==> final(accounts)@ == old(accounts)@,
{
    let instruction = match Instructions::try_from_slice(instruction_data) {
        Ok(instruction) => instruction,
        Err(e) => {
            return Err(e);
        },
    };
    match instruction {
        Instructions::Initialize => {
            if accounts.len() < 1 {
                return Err(VaultError::NotEnoughAccountKeys);
            }
            let admin = accounts[0].key;
            match Instructions::initialize(program_id, admin, accounts) {
                Ok(_) => Ok(Outcome::Initialized { admin }),
                Err(e) => Err(e),
            }
        },
        Instructions::Deposit(amount) => {
            if accounts.len() < 2 {
                return Err(VaultError::NotEnoughAccountKeys);
            }
            match Instructions::deposit(program_id, &accounts[0], &accounts[1], amount) {
                Ok(transfer) => Ok(Outcome::Deposit(transfer)),
                Err(e) => Err(e),
            }
        },
        Instructions::CheckBalance => {
            if accounts.len() < 1 {
                return Err(VaultError::NotEnoughAccountKeys);
            }
            match Instructions::check_balance(program_id, &accounts[0]) {
                Ok(lamports) => Ok(Outcome::Balance(lamports)),
                Err(e) => Err(e),
            }
        },
        Instructions::Withdraw(amount) => {
            if accounts.len() < 2 {
                return Err(VaultError::NotEnoughAccountKeys);
            }
            match Instructions::withdraw(program_id, &accounts[0], &accounts[1], amount) {
                Ok(transfer) => Ok(Outcome::Withdraw(transfer)),
                Err(e) => Err(e),
            }
        },
    }
}

/// What the dispatcher that keeps the ledger answers, and the accounts afterwards.
///
/// It reads the instruction and takes the accounts as `process_outcome`
/// says. A deposit credits the depositor and a withdrawal debits the
/// recipient, in the record that the vault stores.
pub open spec fn process_with_ledger_outcome(
    program_id: Identity,
    accounts: Seq<AccountView>,
    instruction_data: Seq<u8>,
) -> Result<(Outcome, Seq<AccountView>), VaultError> {
    match decode_instruction(instruction_data) {
        Some(Instructions::Deposit(amount)) => if accounts.len() < 2 {
            Err(VaultError::NotEnoughAccountKeys)
        } else {
            match deposit_and_credit_outcome(program_id, accounts[0], accounts[1], amount) {
                Ok((transfer, record)) => Ok(
                    (
                        Outcome::Deposit(transfer),
                        accounts.update(
                            1,
                            AccountView { data: record.encoding(), ..accounts[1] },
                        ),
                    ),
                ),
                Err(e) => Err(e),
            }
        },
        Some(Instructions::Withdraw(amount)) => if accounts.len() < 2 {
            Err(VaultError::NotEnoughAccountKeys)
        } else {
            match withdraw_and_debit_outcome(program_id, accounts[0], accounts[1], amount) {
                Ok((transfer, record)) => Ok(
                    (
                        Outcome::Withdraw(transfer),
                        accounts.update(
                            0,
                            AccountView { data: record.encoding(), ..accounts[0] },
                        ),
                    ),
                ),
                Err(e) => Err(e),
            }
        },
        _ => match process_outcome(program_id, accounts, instruction_data) {
            Ok(Outcome::Initialized { admin }) => Ok(
                (Outcome::Initialized { admin }, initialized(admin, accounts)),
            ),
            Ok(outcome) => Ok((outcome, accounts)),
            Err(e) => Err(e),
        },
    }
}

/// Decodes `instruction_data` and carries the instruction out on `accounts`,
/// keeping the ledger: as `process`, but with `deposit_and_credit` for a
/// deposit and `withdraw_and_debit` for a withdrawal.
///
/// On failure no account has changed.
pub fn process_with_ledger(
    program_id: &Identity,
    accounts: &mut [Account],
    instruction_data: &[u8],
) -> (r: Result<Outcome, VaultError>)
    ensures
        match process_with_ledger_outcome(
            *program_id,
            old(accounts).deep_view(),
            instruction_data@,
        ) {
            Ok((outcome, after)) => {
                &&& r == Ok::<Outcome, VaultError>(outcome)
                &&& final(accounts).deep_view() == after
            },
            Err(e) => {
                &&& r == Err::<Outcome, VaultError>(e)
                &&& final(accounts).deep_view() == old(accounts).deep_view()
            },
        },
{
    let instruction = match Instructions::try_from_slice(instruction_data) {
        Ok(instruction) => instruction,
        Err(e) => {
            return Err(e);
        },
    };
    match instruction {
        Instructions::Deposit(amount) => {
            if accounts.len() < 2 {
                return Err(VaultError::NotEnoughAccountKeys);
            }
            let (depositor, rest) = accounts.split_at_mut(1);
            let r = Instructions::deposit_and_credit(
                program_id,
                &depositor[0],
                &mut rest[0],
                amount,
            );
            match r {
                Ok(transfer) => Ok(Outcome::Deposit(transfer)),
                Err(e) => Err(e),
            }
        },
        Instructions::Withdraw(amount) => {
            if accounts.len() < 2 {
                return Err(VaultError::NotEnoughAccountKeys);
            }
            let (vault, rest) = accounts.split_at_mut(1);
            let r = Instructions::withdraw_and_debit(program_id, &mut vault[0], &rest[0], amount);
            match r {
                Ok(transfer) => Ok(Outcome::Withdraw(transfer)),
                Err(e) => Err(e),
            }
        },
        _ => process(program_id, accounts, instruction_data),
    }
}

} // verus!
