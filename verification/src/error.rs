//! The ways in which an operation is rejected.

use vstd::prelude::*;

verus! {

/// Why an operation was rejected. A rejected operation changes nothing.
#[derive(Debug, Clone, Copy, PartialEq, Eq, Structural)]
pub enum ContractError {
    /// The caller does not hold the role that the operation asks for.
    Unauthorized,
    /// A balance decrease asks for more than the holder has.
    InsufficientBalance,
    /// The state and the request contradict each other: the reward pool
    /// shrank below its last observed size, a holder's index lies ahead of
    /// the global index, or no governance proposal is open for acceptance.
    StateInconsistency,
    /// An amount, an index or a deadline would exceed its machine width.
    Overflow,
}

impl ContractError {
    /// A short description for logs and clients.
    pub fn message(&self) -> (text: String)
        ensures
            text@ == self.message_spec(),
    {
        match self {
            ContractError::Unauthorized => "unauthorized".to_owned(),
            ContractError::InsufficientBalance => "insufficient balance".to_owned(),
            ContractError::StateInconsistency => "inconsistent state".to_owned(),
            ContractError::Overflow => "arithmetic overflow".to_owned(),
        }
    }

    /// The text that [`ContractError::message`] returns.
    pub open spec fn message_spec(&self) -> Seq<char> {
        match self {
            ContractError::Unauthorized => "unauthorized"@,
            ContractError::InsufficientBalance => "insufficient balance"@,
            ContractError::StateInconsistency => "inconsistent state"@,
            ContractError::Overflow => "arithmetic overflow"@,
        }
    }
}

} // verus!
