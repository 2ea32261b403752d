//! The failures that an instruction can end in.
use vstd::prelude::*;

verus! {

/// Why an instruction was refused. Every failure aborts the whole instruction.
#[derive(Clone, Copy, Debug, PartialEq, Eq, Structural)]
pub enum VaultError {
    /// The storage slot already holds data.
    AlreadyInitialized,
    /// The account is not owned by this module.
    IllegalOwner,
    /// The account that has to authorize the instruction did not sign.
    MissingSignature,
    /// The instruction buffer does not decode to an instruction.
    InvalidInstructionData,
    /// The account list is shorter than the instruction needs.
    NotEnoughAccountKeys,
    /// The stored bytes are not a vault record, or the record cannot be stored.
    InvalidRecord,
    /// The ledger has no entry for the identity.
    UnknownParticipant,
    /// The ledger records less than the amount asked for.
    InsufficientBalance,
    /// A credited amount would exceed what the ledger can record.
    ArithmeticOverflow,
}

/// The custom code reported for `InsufficientBalance`.
pub const INSUFFICIENT_BALANCE_CODE: u32 = 12;

/// The custom code reported for `UnknownParticipant`.
pub const UNKNOWN_PARTICIPANT_CODE: u32 = 13;

impl VaultError {
    /// The custom code of a failure that the host runtime has no name for.
    pub open spec fn spec_custom_code(self) -> Option<u32> {
        match self {
            VaultError::InsufficientBalance => Some(INSUFFICIENT_BALANCE_CODE),
            VaultError::UnknownParticipant => Some(UNKNOWN_PARTICIPANT_CODE),
            _ => None,
        }
    }

    /// The custom code of a failure that the host runtime has no name for:
    /// 12 for an insufficient balance, 13 for an unknown participant.
    #[verifier::when_used_as_spec(spec_custom_code)]
    pub fn custom_code(self) -> (code: Option<u32>)
        ensures
            code == self.spec_custom_code(),
    {
        match self {
            VaultError::InsufficientBalance => Some(INSUFFICIENT_BALANCE_CODE),
            VaultError::UnknownParticipant => Some(UNKNOWN_PARTICIPANT_CODE),
            _ => None,
        }
    }
}

} // verus!
