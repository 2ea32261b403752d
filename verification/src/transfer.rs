//! The value transfer that is asked of the host runtime, and the instruction
//! to the system program that asks for it.
use crate::identity::Identity;
use solana_program::pubkey::Pubkey;
use solana_program::system_instruction;
use vstd::bytes::spec_u64_to_le_bytes;
use vstd::prelude::*;

verus! {

/// A request to the host runtime: move `lamports` currency units from one
/// account to another, atomically with the instruction.
#[derive(Clone, Copy, Debug, PartialEq, Eq)]
pub struct Transfer {
    pub from: Identity,
    pub to: Identity,
    pub lamports: u64,
}

/// How an instruction uses one of the accounts that it names.
#[derive(Clone, Copy, Debug, PartialEq, Eq)]
pub struct AccountMeta {
    /// The address of the account.
    pub pubkey: Identity,
    /// Whether the account has to have signed.
    pub is_signer: bool,
    /// Whether the instruction may change the account.
    pub is_writable: bool,
}

/// An instruction to another program of the host runtime.
#[derive(Clone, Debug, PartialEq, Eq)]
pub struct Invocation {
    /// The program that carries the instruction out.
    pub program_id: Identity,
    /// The accounts that the instruction names, in its order.
    pub accounts: Vec<AccountMeta>,
    /// The instruction as that program reads it.
    pub data: Vec<u8>,
}

/// An instruction to another program as a mathematical value.
pub struct InvocationView {
    pub program_id: Seq<u8>,
    pub accounts: Seq<AccountMeta>,
    pub data: Seq<u8>,
}

impl View for Invocation {
    type V = InvocationView;

    open spec fn view(&self) -> InvocationView {
        InvocationView { program_id: self.program_id@, accounts: self.accounts@, data: self.data@ }
    }
}

/// The address of the system program, which moves currency: 32 zero bytes.
pub open spec fn system_program_id() -> Seq<u8> {
    Seq::new(32, |i: int| 0u8)
}

impl Transfer {
    /// The instruction that asks the system program for this transfer.
    ///
    /// It names the paying account, which has to have signed, and the
    /// receiving account, both writable. Its data is the number 2 in four
    /// little-endian bytes, then the amount in eight.
    pub open spec fn spec_instruction(self) -> InvocationView {
        InvocationView {
            program_id: system_program_id(),
            accounts: seq![
                AccountMeta { pubkey: self.from, is_signer: true, is_writable: true },
                AccountMeta { pubkey: self.to, is_signer: false, is_writable: true },
            ],
            data: seq![2u8, 0u8, 0u8, 0u8] + spec_u64_to_le_bytes(self.lamports),
        }
    }

    /// The instruction that asks the system program for this transfer.
    pub fn instruction(&self) -> (call: Invocation)
        ensures
            call@ == self.spec_instruction(),
    {
        system_transfer(&self.from, &self.to, self.lamports)
    }
}

/// `solana_program::system_instruction::transfer`, with its result taken
/// apart into plain values.
///
/// Not proved: that the instruction is for the system program, whose address
/// is 32 zero bytes; that it names `from` as a writable signer and then `to`
/// as writable and not a signer; and that its data is the index of the
/// transfer among the system program's instructions, which is 2, as four
/// little-endian bytes, followed by `lamports` as eight.
#[verifier::external_body]
fn system_transfer(from: &Identity, to: &Identity, lamports: u64) -> (call: Invocation)
    ensures
        call.program_id@ == system_program_id(),
        call.accounts@ == seq![
            AccountMeta { pubkey: *from, is_signer: true, is_writable: true },
            AccountMeta { pubkey: *to, is_signer: false, is_writable: true },
        ],
        call.data@ == seq![2u8, 0u8, 0u8, 0u8] + spec_u64_to_le_bytes(lamports),
{
    let built = system_instruction::transfer(
        &Pubkey::new_from_array(from.bytes),
        &Pubkey::new_from_array(to.bytes),
        lamports,
    );
    Invocation {
        program_id: Identity { bytes: built.program_id.to_bytes() },
        accounts: built.accounts.iter().map(|meta| AccountMeta {
            pubkey: Identity { bytes: meta.pubkey.to_bytes() },
            is_signer: meta.is_signer,
            is_writable: meta.is_writable,
        }).collect(),
        data: built.data,
    }
}

} // verus!
