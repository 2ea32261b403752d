use vault_ledger::account::Account;
use vault_ledger::transfer::Transfer;
use vault_ledger::error::VaultError;
use vault_ledger::identity::Identity;
use vault_ledger::instruction::Instructions;
use vault_ledger::state::{Participants, Vault};

fn addr(n: u8) -> Identity {
    Identity::new([n; 32])
}

const MODULE: u8 = 200;
const OTHER_MODULE: u8 = 201;
const VAULT: u8 = 50;

fn account(key: u8, owner: u8, is_signer: bool, lamports: u64, data: Vec<u8>) -> Account {
    Account { key: addr(key), owner: addr(owner), is_signer, lamports, data }
}

fn record_bytes(admin: u8, entries: Vec<(Identity, u64)>) -> Vec<u8> {
    let vault = Vault { admin: addr(admin), participants: Participants { participants: entries } };
    let mut out = Vec::new();
    vault.serialize(&mut out).unwrap();
    out
}

fn vault_with(entries: Vec<(Identity, u64)>) -> Account {
    account(VAULT, MODULE, false, 1_000, record_bytes(1, entries))
}

#[test]
fn initialize_writes_the_record_into_an_empty_owned_slot() {
    let mut accounts = vec![account(VAULT, MODULE, false, 5, vec![])];
    assert_eq!(Instructions::initialize(&addr(MODULE), addr(1), &mut accounts), Ok(()));
    let stored = Vault::try_from_slice(&accounts[0].data).unwrap();
    assert_eq!(stored.admin, addr(1));
    assert!(stored.participants.participants.is_empty());
    assert_eq!(accounts[0].data, record_bytes(1, vec![]));
    assert_eq!(accounts[0].key, addr(VAULT));
    assert_eq!(accounts[0].owner, addr(MODULE));
    assert_eq!(accounts[0].lamports, 5);
}

#[test]
fn initialize_twice_fails_the_second_time() {
    let mut accounts = vec![account(VAULT, MODULE, false, 5, vec![])];
    assert_eq!(Vault::initialize(&addr(MODULE), addr(1), &mut accounts), Ok(()));
    let after_first = accounts.clone();
    assert_eq!(
        Vault::initialize(&addr(MODULE), addr(1), &mut accounts),
        Err(VaultError::AlreadyInitialized)
    );
    assert_eq!(
        Vault::initialize(&addr(MODULE), addr(2), &mut accounts),
        Err(VaultError::AlreadyInitialized)
    );
    assert_eq!(accounts, after_first);
}

#[test]
fn initialize_refuses_any_data_in_the_slot() {
    let mut accounts = vec![account(VAULT, MODULE, false, 5, vec![0])];
    assert_eq!(
        Instructions::initialize(&addr(MODULE), addr(1), &mut accounts),
        Err(VaultError::AlreadyInitialized)
    );
    assert_eq!(accounts[0].data, vec![0]);
}

#[test]
fn initialize_refuses_a_foreign_slot_whether_empty_or_not() {
    let mut empty = vec![account(VAULT, OTHER_MODULE, false, 5, vec![])];
    assert_eq!(
        Instructions::initialize(&addr(MODULE), addr(1), &mut empty),
        Err(VaultError::IllegalOwner)
    );
    assert!(empty[0].data.is_empty());
    let mut full = vec![account(VAULT, OTHER_MODULE, false, 5, vec![1, 2, 3])];
    assert_eq!(
        Instructions::initialize(&addr(MODULE), addr(1), &mut full),
        Err(VaultError::IllegalOwner)
    );
    assert_eq!(full[0].data, vec![1, 2, 3]);
}

#[test]
fn initialize_needs_an_account() {
    let mut none: Vec<Account> = vec![];
    assert_eq!(
        Instructions::initialize(&addr(MODULE), addr(1), &mut none),
        Err(VaultError::NotEnoughAccountKeys)
    );
}

#[test]
fn initialize_touches_only_the_first_account() {
    let mut accounts = vec![
        account(VAULT, MODULE, false, 5, vec![]),
        account(51, MODULE, false, 6, vec![]),
    ];
    assert_eq!(Instructions::initialize(&addr(MODULE), addr(1), &mut accounts), Ok(()));
    assert_eq!(accounts[0].data.len(), 36);
    assert_eq!(accounts[1], account(51, MODULE, false, 6, vec![]));
}

#[test]
fn deposit_asks_for_the_transfer() {
    let depositor = account(10, 0, true, 500, vec![]);
    let vault = vault_with(vec![]);
    assert_eq!(
        Instructions::deposit(&addr(MODULE), &depositor, &vault, 100),
        Ok(Transfer { from: addr(10), to: addr(VAULT), lamports: 100 })
    );
}

#[test]
fn deposit_without_signature_fails() {
    let depositor = account(10, 0, false, 500, vec![]);
    let vault = vault_with(vec![]);
    assert_eq!(
        Instructions::deposit(&addr(MODULE), &depositor, &vault, 100),
        Err(VaultError::MissingSignature)
    );
}

#[test]
fn deposit_checks_the_signature_before_the_owner() {
    let depositor = account(10, 0, false, 500, vec![]);
    let foreign = account(VAULT, OTHER_MODULE, false, 0, vec![]);
    assert_eq!(
        Instructions::deposit(&addr(MODULE), &depositor, &foreign, 100),
        Err(VaultError::MissingSignature)
    );
}

#[test]
fn deposit_into_a_foreign_vault_fails() {
    let depositor = account(10, 0, true, 500, vec![]);
    let foreign = account(VAULT, OTHER_MODULE, false, 0, vec![]);
    assert_eq!(
        Instructions::deposit(&addr(MODULE), &depositor, &foreign, 100),
        Err(VaultError::IllegalOwner)
    );
}

#[test]
fn deposit_of_zero_is_not_refused() {
    let depositor = account(10, 0, true, 500, vec![]);
    let vault = vault_with(vec![]);
    assert_eq!(
        Instructions::deposit(&addr(MODULE), &depositor, &vault, 0),
        Ok(Transfer { from: addr(10), to: addr(VAULT), lamports: 0 })
    );
}

#[test]
fn deposit_does_not_read_the_vault_data() {
    let depositor = account(10, 0, true, 500, vec![]);
    let vault = account(VAULT, MODULE, false, 0, vec![1, 2, 3]);
    assert_eq!(
        Instructions::deposit(&addr(MODULE), &depositor, &vault, 7),
        Ok(Transfer { from: addr(10), to: addr(VAULT), lamports: 7 })
    );
}

#[test]
fn check_balance_reports_what_the_vault_holds() {
    assert_eq!(Instructions::check_balance(&addr(MODULE), &vault_with(vec![])), Ok(1_000));
    let rich = account(VAULT, MODULE, false, u64::MAX, vec![]);
    assert_eq!(Instructions::check_balance(&addr(MODULE), &rich), Ok(u64::MAX));
}

#[test]
fn check_balance_of_a_foreign_vault_fails() {
    let foreign = account(VAULT, OTHER_MODULE, false, 9, vec![]);
    assert_eq!(
        Instructions::check_balance(&addr(MODULE), &foreign),
        Err(VaultError::IllegalOwner)
    );
}

#[test]
fn withdraw_for_an_unknown_recipient_fails() {
    let vault = vault_with(vec![]);
    let recipient = account(20, 0, true, 0, vec![]);
    assert_eq!(
        Instructions::withdraw(&addr(MODULE), &vault, &recipient, 50),
        Err(VaultError::UnknownParticipant)
    );
    let others = vault_with(vec![(addr(21), 500)]);
    assert_eq!(
        Instructions::withdraw(&addr(MODULE), &others, &recipient, 50),
        Err(VaultError::UnknownParticipant)
    );
}

#[test]
fn withdraw_of_more_than_recorded_fails() {
    let vault = vault_with(vec![(addr(20), 30)]);
    let recipient = account(20, 0, true, 0, vec![]);
    assert_eq!(
        Instructions::withdraw(&addr(MODULE), &vault, &recipient, 50),
        Err(VaultError::InsufficientBalance)
    );
    assert_eq!(
        Instructions::withdraw(&addr(MODULE), &vault, &recipient, 31),
        Err(VaultError::InsufficientBalance)
    );
}

#[test]
fn withdraw_of_exactly_the_recorded_amount_succeeds() {
    let vault = vault_with(vec![(addr(20), 30)]);
    let recipient = account(20, 0, true, 0, vec![]);
    assert_eq!(
        Instructions::withdraw(&addr(MODULE), &vault, &recipient, 30),
        Ok(Transfer { from: addr(VAULT), to: addr(20), lamports: 30 })
    );
}

#[test]
fn withdraw_of_less_than_recorded_succeeds() {
    let vault = vault_with(vec![(addr(19), 1), (addr(20), 30)]);
    let recipient = account(20, 0, true, 0, vec![]);
    assert_eq!(
        Instructions::withdraw(&addr(MODULE), &vault, &recipient, 29),
        Ok(Transfer { from: addr(VAULT), to: addr(20), lamports: 29 })
    );
    assert_eq!(
        Instructions::withdraw(&addr(MODULE), &vault, &recipient, 0),
        Ok(Transfer { from: addr(VAULT), to: addr(20), lamports: 0 })
    );
}

#[test]
fn withdraw_is_capped_by_the_ledger_not_by_the_vault_balance() {
    let mut vault = vault_with(vec![(addr(20), 30)]);
    vault.lamports = 10;
    let recipient = account(20, 0, true, 0, vec![]);
    assert_eq!(
        Instructions::withdraw(&addr(MODULE), &vault, &recipient, 30),
        Ok(Transfer { from: addr(VAULT), to: addr(20), lamports: 30 })
    );
}

#[test]
fn withdraw_does_not_debit_the_ledger() {
    let vault = vault_with(vec![(addr(20), 30)]);
    let before = vault.clone();
    let recipient = account(20, 0, true, 0, vec![]);
    assert!(Instructions::withdraw(&addr(MODULE), &vault, &recipient, 30).is_ok());
    assert_eq!(vault, before);
    assert!(Instructions::withdraw(&addr(MODULE), &vault, &recipient, 30).is_ok());
}

#[test]
fn withdraw_without_signature_fails() {
    let vault = vault_with(vec![(addr(20), 30)]);
    let recipient = account(20, 0, false, 0, vec![]);
    assert_eq!(
        Instructions::withdraw(&addr(MODULE), &vault, &recipient, 10),
        Err(VaultError::MissingSignature)
    );
}

#[test]
fn withdraw_from_a_foreign_vault_fails() {
    let mut vault = vault_with(vec![(addr(20), 30)]);
    vault.owner = addr(OTHER_MODULE);
    let recipient = account(20, 0, true, 0, vec![]);
    assert_eq!(
        Instructions::withdraw(&addr(MODULE), &vault, &recipient, 10),
        Err(VaultError::IllegalOwner)
    );
}

#[test]
fn withdraw_from_a_vault_without_record_fails() {
    let recipient = account(20, 0, true, 0, vec![]);
    let empty = account(VAULT, MODULE, false, 0, vec![]);
    assert_eq!(
        Instructions::withdraw(&addr(MODULE), &empty, &recipient, 10),
        Err(VaultError::InvalidRecord)
    );
    let mut padded = vault_with(vec![(addr(20), 30)]);
    padded.data.push(0);
    assert_eq!(
        Instructions::withdraw(&addr(MODULE), &padded, &recipient, 10),
        Err(VaultError::InvalidRecord)
    );
}

#[test]
fn deposit_and_credit_records_the_amount() {
    let depositor = account(10, 0, true, 500, vec![]);
    let mut vault = vault_with(vec![]);
    assert_eq!(
        Instructions::deposit_and_credit(&addr(MODULE), &depositor, &mut vault, 100),
        Ok(Transfer { from: addr(10), to: addr(VAULT), lamports: 100 })
    );
    assert_eq!(vault.data, record_bytes(1, vec![(addr(10), 100)]));
    assert_eq!(
        Instructions::deposit_and_credit(&addr(MODULE), &depositor, &mut vault, 23),
        Ok(Transfer { from: addr(10), to: addr(VAULT), lamports: 23 })
    );
    assert_eq!(vault.data, record_bytes(1, vec![(addr(10), 123)]));
    assert_eq!(vault.lamports, 1_000);
    assert_eq!(vault.key, addr(VAULT));
}

#[test]
fn deposit_and_credit_keeps_the_other_entries() {
    let depositor = account(10, 0, true, 500, vec![]);
    let mut vault = vault_with(vec![(addr(9), 1), (addr(10), 2), (addr(11), 3)]);
    assert!(Instructions::deposit_and_credit(&addr(MODULE), &depositor, &mut vault, 5).is_ok());
    assert_eq!(vault.data, record_bytes(1, vec![(addr(9), 1), (addr(10), 7), (addr(11), 3)]));
}

#[test]
fn deposit_and_credit_fails_as_deposit_does() {
    let unsigned = account(10, 0, false, 500, vec![]);
    let signed = account(10, 0, true, 500, vec![]);
    let mut vault = vault_with(vec![]);
    let before = vault.clone();
    assert_eq!(
        Instructions::deposit_and_credit(&addr(MODULE), &unsigned, &mut vault, 100),
        Err(VaultError::MissingSignature)
    );
    assert_eq!(vault, before);
    let mut foreign = account(VAULT, OTHER_MODULE, false, 0, record_bytes(1, vec![]));
    assert_eq!(
        Instructions::deposit_and_credit(&addr(MODULE), &signed, &mut foreign, 100),
        Err(VaultError::IllegalOwner)
    );
    let mut blank = account(VAULT, MODULE, false, 0, vec![]);
    assert_eq!(
        Instructions::deposit_and_credit(&addr(MODULE), &signed, &mut blank, 100),
        Err(VaultError::InvalidRecord)
    );
    assert!(blank.data.is_empty());
}

#[test]
fn deposit_and_credit_refuses_an_amount_that_overflows() {
    let depositor = account(10, 0, true, 500, vec![]);
    let mut vault = vault_with(vec![(addr(10), u64::MAX - 5)]);
    let before = vault.clone();
    assert_eq!(
        Instructions::deposit_and_credit(&addr(MODULE), &depositor, &mut vault, 6),
        Err(VaultError::ArithmeticOverflow)
    );
    assert_eq!(vault, before);
    assert!(Instructions::deposit_and_credit(&addr(MODULE), &depositor, &mut vault, 5).is_ok());
    assert_eq!(vault.data, record_bytes(1, vec![(addr(10), u64::MAX)]));
}

#[test]
fn withdraw_and_debit_takes_the_amount_off() {
    let recipient = account(20, 0, true, 0, vec![]);
    let mut vault = vault_with(vec![(addr(19), 1), (addr(20), 30)]);
    assert_eq!(
        Instructions::withdraw_and_debit(&addr(MODULE), &mut vault, &recipient, 10),
        Ok(Transfer { from: addr(VAULT), to: addr(20), lamports: 10 })
    );
    assert_eq!(vault.data, record_bytes(1, vec![(addr(19), 1), (addr(20), 20)]));
    assert_eq!(
        Instructions::withdraw_and_debit(&addr(MODULE), &mut vault, &recipient, 20),
        Ok(Transfer { from: addr(VAULT), to: addr(20), lamports: 20 })
    );
    assert_eq!(vault.data, record_bytes(1, vec![(addr(19), 1), (addr(20), 0)]));
    assert_eq!(
        Instructions::withdraw_and_debit(&addr(MODULE), &mut vault, &recipient, 1),
        Err(VaultError::InsufficientBalance)
    );
}

#[test]
fn withdraw_and_debit_fails_as_withdraw_does() {
    let recipient = account(20, 0, true, 0, vec![]);
    let mut vault = vault_with(vec![(addr(20), 30)]);
    let before = vault.clone();
    assert_eq!(
        Instructions::withdraw_and_debit(&addr(MODULE), &mut vault, &recipient, 50),
        Err(VaultError::InsufficientBalance)
    );
    let stranger = account(21, 0, true, 0, vec![]);
    assert_eq!(
        Instructions::withdraw_and_debit(&addr(MODULE), &mut vault, &stranger, 1),
        Err(VaultError::UnknownParticipant)
    );
    let unsigned = account(20, 0, false, 0, vec![]);
    assert_eq!(
        Instructions::withdraw_and_debit(&addr(MODULE), &mut vault, &unsigned, 1),
        Err(VaultError::MissingSignature)
    );
    assert_eq!(vault, before);
    let mut foreign = vault_with(vec![(addr(20), 30)]);
    foreign.owner = addr(OTHER_MODULE);
    assert_eq!(
        Instructions::withdraw_and_debit(&addr(MODULE), &mut foreign, &recipient, 1),
        Err(VaultError::IllegalOwner)
    );
    let mut blank = account(VAULT, MODULE, false, 0, vec![9]);
    assert_eq!(
        Instructions::withdraw_and_debit(&addr(MODULE), &mut blank, &recipient, 1),
        Err(VaultError::InvalidRecord)
    );
}
