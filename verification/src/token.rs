use vstd::prelude::*;

use crate::directory::{find_pda, pda_of};
use crate::errors::TransferError;
use crate::state::{address_eq, Address};

verus! {

/// An addressed token balance: either a party's external account or an
/// escrow vault. The vault's `owner` is the vault's own derived address,
/// never an external signer, so only the ledger's derivation proof can move
/// its holdings.
#[derive(Clone, Copy, Debug)]
pub struct TokenAccount {
    /// The identity that must authorize transfers out of this account.
    pub owner: Address,
    /// Units currently held.
    pub amount: u64,
}

/// Proof of the right to move tokens out of an account: either an external
/// signer's proof of identity, or the self-authorization of a derived
/// address, carried as the seed components that re-derive it.
pub enum Authority {
    ExternalSigner(Address),
    DerivedVault(Vec<Vec<u8>>),
}

/// Whether an authority controls the account owned by `account_owner`.
pub open spec fn authorizes(auth: Authority, account_owner: Seq<u8>) -> bool {
    match auth {
        Authority::ExternalSigner(signer) => signer@ == account_owner,
        Authority::DerivedVault(seeds) => pda_of(seeds.deep_view()) == Some(account_owner),
    }
}

/// Whether an authority controls the account owned by `account_owner`,
/// decided executably by re-deriving the claimed address.
pub fn check_authority(auth: &Authority, account_owner: &Address) -> (r: bool)
    ensures
        r == authorizes(*auth, account_owner@),
{
    match auth {
        Authority::ExternalSigner(signer) => address_eq(signer, account_owner),
        Authority::DerivedVault(seeds) => {
            match find_pda(seeds) {
                Some(derived) => address_eq(&derived, account_owner),
                None => false,
            }
        },
    }
}

/// The token transfer service: atomically moves `amount` units from `from`
/// to `to` when `authority` controls `from` and `from` holds enough; on any
/// failure neither account changes. The destination bound is a machine
/// limit: holdings are counted in the balance type.
pub fn transfer(
    from: &mut TokenAccount,
    to: &mut TokenAccount,
    amount: u64,
    authority: &Authority,
) -> (r: Result<(), TransferError>)
    requires
        old(to).amount + amount <= u64::MAX,
    ensures
        final(from).owner == old(from).owner,
        final(to).owner == old(to).owner,
        !authorizes(*authority, old(from).owner@) ==> r == Err::<(), TransferError>(
            TransferError::AuthorityMismatch,
        ) && *final(from) == *old(from) && *final(to) == *old(to),
        authorizes(*authority, old(from).owner@) && old(from).amount < amount ==> r == Err::<
            (),
            TransferError,
        >(TransferError::InsufficientSourceBalance) && *final(from) == *old(from) && *final(to)
            == *old(to),
        authorizes(*authority, old(from).owner@) && old(from).amount >= amount ==> r == Ok::<
            (),
            TransferError,
        >(()) && final(from).amount == old(from).amount - amount && final(to).amount == old(
            to,
        ).amount + amount,
{
    if !check_authority(authority, &from.owner) {
        return Err(TransferError::AuthorityMismatch);
    }
    if from.amount < amount {
        return Err(TransferError::InsufficientSourceBalance);
    }
    from.amount = from.amount - amount;
    to.amount = to.amount + amount;
    Ok(())
}

} // verus!
