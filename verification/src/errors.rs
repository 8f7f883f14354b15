//! Error taxonomy of the custody component.

use vstd::prelude::*;

verus! {

/// Every way a custody operation can fail.  Each operation's contract says
/// exactly which inputs produce which variant; a failed call never leaves a
/// vault half-mutated.
#[derive(Clone, Copy, Debug, PartialEq, Eq, Structural)]
pub enum CustodyError {
    /// Resource creation was rejected at construction; the component is not
    /// created.
    ConstructionError,
    /// The fee bucket's plain amount is below [`crate::FEE`].
    InsufficientFee,
    /// The fee bucket unexpectedly carries confidential commitments.
    FeeContainsHiddenValue,
    /// A plain withdrawal asked for more than the vault holds.
    InsufficientBalance,
    /// A confidential withdraw proof failed verification; the confidential
    /// vault is untouched.  Deliberately a single variant: no information
    /// about the attempted amount leaks through the error.
    InvalidWithdrawProof,
    /// A non-fungible mint collides with an existing item identifier.
    DuplicateItemId,
}

impl CustodyError {
    /// A short human-readable name for the error.
    pub fn describe(&self) -> (r: &'static str)
        ensures
            r@.len() > 0,
    {
        let r = match self {
            CustodyError::ConstructionError => "resource creation rejected",
            CustodyError::InsufficientFee => "fee is too low",
            CustodyError::FeeContainsHiddenValue => "fee bucket carries confidential funds",
            CustodyError::InsufficientBalance => "insufficient balance",
            CustodyError::InvalidWithdrawProof => "invalid withdraw proof",
            CustodyError::DuplicateItemId => "duplicate item identifier",
        };
        proof {
            reveal_strlit("resource creation rejected");
            reveal_strlit("fee is too low");
            reveal_strlit("fee bucket carries confidential funds");
            reveal_strlit("insufficient balance");
            reveal_strlit("invalid withdraw proof");
            reveal_strlit("duplicate item identifier");
        }
        r
    }
}

} // verus!
