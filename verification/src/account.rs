//! Accounts as the host runtime hands them to an instruction, held as plain values.
use crate::identity::Identity;
use vstd::prelude::*;

verus! {

/// One account of the host runtime: an addressable storage slot with an owning
/// module, a byte buffer and a currency balance.
#[derive(Clone, Debug, PartialEq, Eq)]
pub struct Account {
    /// The address of the account.
    pub key: Identity,
    /// The module that owns the account.
    pub owner: Identity,
    /// Whether the transaction was signed by this account's key.
    pub is_signer: bool,
    /// The currency units that the account holds.
    pub lamports: u64,
    /// The data stored in the account.
    pub data: Vec<u8>,
}

/// An account as a mathematical value.
pub struct AccountView {
    pub key: Identity,
    pub owner: Identity,
    pub is_signer: bool,
    pub lamports: u64,
    pub data: Seq<u8>,
}

impl View for Account {
    type V = AccountView;

    open spec fn view(&self) -> AccountView {
        AccountView {
            key: self.key,
            owner: self.owner,
            is_signer: self.is_signer,
            lamports: self.lamports,
            data: self.data@,
        }
    }
}

impl DeepView for Account {
    type V = AccountView;

    open spec fn deep_view(&self) -> AccountView {
        self@
    }
}

} // verus!
