//! A custodial vault ledger: one shared account that takes deposits from many
//! identities and pays each of them back no more than the ledger records.
//!
//! The crate holds the decisions only. It reads accounts as plain values,
//! checks authorization and ownership, reads and writes the persisted record
//! as bytes, and answers with the value transfer that the host runtime has to
//! carry out.
//!
//! A deposit and a withdrawal come in two forms. `deposit` and `withdraw`
//! decide the transfer and leave the ledger as it is, so that nothing that is
//! deposited through them can be withdrawn and nothing that is withdrawn is
//! taken off. `deposit_and_credit` and `withdraw_and_debit` decide the same
//! transfer and keep the ledger. `process` dispatches to the first pair,
//! `process_with_ledger` to the second.
pub mod account;
pub mod error;
pub mod identity;
pub mod instruction;
pub mod layout;
pub mod ledger;
pub mod processor;
pub mod state;
pub mod transfer;
