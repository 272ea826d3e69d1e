use vstd::prelude::*;

verus! {

/// Failures of the token transfer service, reported to the caller verbatim.
#[derive(Clone, Copy, Debug, PartialEq, Eq, Structural)]
pub enum TransferError {
    /// The source account holds fewer units than the requested amount.
    InsufficientSourceBalance,
    /// The presented authority does not control the source account.
    AuthorityMismatch,
}

/// Every way a deposit, a withdrawal or a directory operation can fail.
/// All errors abort the whole operation; no partial state is ever committed.
#[derive(Clone, Copy, Debug, PartialEq, Eq, Structural)]
pub enum EscrowError {
    /// A withdrawal asked for more than the entry's balance.
    InsufficientFunds,
    /// The caller is not the entry's recorded authority.
    Unauthorized,
    /// A balance update would overflow the balance type.
    ArithmeticOverflow,
    /// The directory could not derive or allocate a storage slot, or the
    /// designated payer cannot cover the allocation cost.
    AllocationError,
    /// A caller-supplied address does not match the recomputed derivation.
    AddressMismatch,
    /// The token transfer service refused the movement; carried verbatim.
    Transfer(TransferError),
}

} // verus!
