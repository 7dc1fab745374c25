use vstd::prelude::*;

verus! {

/// Why an operation of this library failed.
#[derive(Clone, Copy, Debug, PartialEq, Eq, Structural)]
pub enum MerkleError {
    /// The name is none of the supported hash functions.
    InvalidHashFunction,
    /// A tree was asked for over no items at all.
    EmptyInput,
    /// Two nodes of different height, or of different hash functions, were
    /// to be combined.
    BalanceError,
    /// The item that a proof was asked for is not among the leaves.
    ProofTargetNotFound,
}

impl MerkleError {
    /// A short description of the error.
    pub fn message(&self) -> (text: &'static str)
        ensures
            text@ == self.message_spec(),
    {
        match self {
            MerkleError::InvalidHashFunction => "not a valid hash function",
            MerkleError::EmptyInput => "no transactions to be hashed",
            MerkleError::BalanceError => "left and right branch not balanced",
            MerkleError::ProofTargetNotFound => "item not found among the leaves",
        }
    }

    pub open spec fn message_spec(&self) -> Seq<char> {
        match self {
            MerkleError::InvalidHashFunction => "not a valid hash function"@,
            MerkleError::EmptyInput => "no transactions to be hashed"@,
            MerkleError::BalanceError => "left and right branch not balanced"@,
            MerkleError::ProofTargetNotFound => "item not found among the leaves"@,
        }
    }
}

} // verus!
