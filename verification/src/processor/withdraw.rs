use vstd::prelude::*;

use crate::directory::pda_of;
use crate::errors::{EscrowError, TransferError};
use crate::state::{address_eq, Address, Escrow};
use crate::token::{transfer, Authority, TokenAccount};
use crate::utils::{get_escrow_token_seeds, vault_seeds};

verus! {

/// The resolved accounts of one withdrawal: the authenticated caller, the
/// mint being withdrawn, the ledger entry being drawn down and its paired
/// vault.
pub struct Withdraw {
    /// The authenticated identity asking for its tokens back.
    pub authority: Address,
    /// The asset being withdrawn.
    pub mint: Address,
    /// The ledger entry being drawn down.
    pub escrow: Escrow,
    /// The vault holding the tokens escrowed for (authority, mint).
    pub escrow_token_account: TokenAccount,
}

/// The exact outcome a withdrawal of `amount` must have, given the resolved
/// accounts and the caller's external token account. Sufficiency is checked
/// before authorization, so a short balance is reported as such even to a
/// caller who is not the owner.
pub open spec fn withdraw_result(ctx: Withdraw, user: TokenAccount, amount: u64) -> Result<
    u64,
    EscrowError,
> {
    if ctx.escrow.amount < amount {
        Err(EscrowError::InsufficientFunds)
    } else if ctx.escrow.authority@ != ctx.authority@ {
        Err(EscrowError::Unauthorized)
    } else if pda_of(vault_seeds(ctx.authority@, ctx.mint@)) != Some(
        ctx.escrow_token_account.owner@,
    ) {
        Err(EscrowError::Transfer(TransferError::AuthorityMismatch))
    } else if ctx.escrow_token_account.amount < amount {
        Err(EscrowError::Transfer(TransferError::InsufficientSourceBalance))
    } else if user.amount + amount > u64::MAX {
        Err(EscrowError::ArithmeticOverflow)
    } else {
        Ok((ctx.escrow.amount - amount) as u64)
    }
}

/// Withdraw `amount` units: check sufficiency, then authorization, then move
/// the tokens out of the vault back to the caller, authorized by the vault's
/// own derivation proof, and shrink the balance by exactly the same amount —
/// or fail without touching any account.
pub fn process(ctx: &mut Withdraw, user_token_account: &mut TokenAccount, amount: u64) -> (r:
    Result<u64, EscrowError>)
    ensures
        r == withdraw_result(*old(ctx), *old(user_token_account), amount),
        r is Err ==> *final(ctx) == *old(ctx) && *final(user_token_account) == *old(
            user_token_account,
        ),
        r is Ok ==> final(ctx).escrow.amount == old(ctx).escrow.amount - amount
            && final(ctx).escrow.authority == old(ctx).escrow.authority
            && final(ctx).escrow_token_account.amount == old(ctx).escrow_token_account.amount
            - amount && final(ctx).escrow_token_account.owner == old(
            ctx,
        ).escrow_token_account.owner && final(user_token_account).amount == old(
            user_token_account,
        ).amount + amount && final(user_token_account).owner == old(user_token_account).owner
            && final(ctx).authority == old(ctx).authority && final(ctx).mint == old(ctx).mint,
{
    // Check that the entry holds enough, then that the caller is the
    // recorded authority; both before any value moves.
    if ctx.escrow.amount < amount {
        return Err(EscrowError::InsufficientFunds);
    }
    if !address_eq(&ctx.escrow.authority, &ctx.authority) {
        return Err(EscrowError::Unauthorized);
    }
    // The vault signs for itself: its authority is re-derived from the same
    // seed components used at creation.
    let seeds = get_escrow_token_seeds(&ctx.authority, &ctx.mint);
    let vault_authority = Authority::DerivedVault(seeds);
    if !crate::token::check_authority(&vault_authority, &ctx.escrow_token_account.owner) {
        return Err(EscrowError::Transfer(TransferError::AuthorityMismatch));
    }
    if ctx.escrow_token_account.amount < amount {
        return Err(EscrowError::Transfer(TransferError::InsufficientSourceBalance));
    }
    if amount > u64::MAX - user_token_account.amount {
        return Err(EscrowError::ArithmeticOverflow);
    }
    let moved = transfer(&mut ctx.escrow_token_account, user_token_account, amount,
        &vault_authority);
    if let Err(e) = moved {
        return Err(EscrowError::Transfer(e));
    }
    // Commit the balance mutation; the subtraction cannot underflow given
    // the sufficiency check.
    ctx.escrow.amount = ctx.escrow.amount - amount;
    Ok(ctx.escrow.amount)
}

} // verus!
