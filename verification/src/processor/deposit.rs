use vstd::prelude::*;

use crate::errors::{EscrowError, TransferError};
use crate::state::{address_eq, Address, Escrow};
use crate::token::{transfer, Authority, TokenAccount};

verus! {

/// The resolved accounts of one deposit: the authenticated signer, the mint
/// of the asset being escrowed, the owner's ledger entry and its paired
/// vault. `entry_created` records whether the directory created the entry
/// for this very call, in which case its zero-initialized authority is still
/// to be set.
pub struct Deposit {
    /// The authenticated identity depositing its own tokens.
    pub authority: Address,
    /// The asset being escrowed.
    pub mint: Address,
    /// The owner's ledger entry.
    pub escrow: Escrow,
    /// The vault holding the tokens escrowed for (authority, mint).
    pub escrow_token_account: TokenAccount,
    /// Whether the entry was freshly created for this deposit.
    pub entry_created: bool,
}

/// The exact outcome a deposit of `amount` must have, given the resolved
/// accounts and the depositor's external token account.
pub open spec fn deposit_result(ctx: Deposit, user: TokenAccount, amount: u64) -> Result<
    u64,
    EscrowError,
> {
    if user.owner@ != ctx.authority@ {
        Err(EscrowError::Transfer(TransferError::AuthorityMismatch))
    } else if user.amount < amount {
        Err(EscrowError::Transfer(TransferError::InsufficientSourceBalance))
    } else if !ctx.entry_created && ctx.escrow.authority@ != ctx.authority@ {
        Err(EscrowError::Unauthorized)
    } else if ctx.escrow.amount + amount > u64::MAX {
        Err(EscrowError::ArithmeticOverflow)
    } else {
        Ok((ctx.escrow.amount + amount) as u64)
    }
}

/// Deposit `amount` units: move them from the depositor's token account into
/// the vault, then grow the entry's balance by exactly the same amount — or
/// fail without touching any account. The vault can hold at most what the
/// entry accounts for, so a balance that fits rules out vault overflow.
pub fn process(ctx: &mut Deposit, user_token_account: &mut TokenAccount, amount: u64) -> (r:
    Result<u64, EscrowError>)
    requires
        amount > 0,
        old(ctx).escrow_token_account.amount <= old(ctx).escrow.amount,
    ensures
        r == deposit_result(*old(ctx), *old(user_token_account), amount),
        r is Err ==> *final(ctx) == *old(ctx) && *final(user_token_account) == *old(
            user_token_account,
        ),
        r is Ok ==> final(ctx).escrow.amount == old(ctx).escrow.amount + amount
            && final(ctx).escrow.authority == old(ctx).authority
            && final(ctx).escrow_token_account.amount == old(ctx).escrow_token_account.amount
            + amount && final(ctx).escrow_token_account.owner == old(
            ctx,
        ).escrow_token_account.owner && final(user_token_account).amount == old(
            user_token_account,
        ).amount - amount && final(user_token_account).owner == old(user_token_account).owner
            && final(ctx).authority == old(ctx).authority && final(ctx).mint == old(ctx).mint
            && final(ctx).entry_created == old(ctx).entry_created,
{
    // Reject everything that would make any later step fail, before any
    // state or value moves: the transfer and the balance update are atomic
    // as a unit.
    if !address_eq(&user_token_account.owner, &ctx.authority) {
        return Err(EscrowError::Transfer(TransferError::AuthorityMismatch));
    }
    if user_token_account.amount < amount {
        return Err(EscrowError::Transfer(TransferError::InsufficientSourceBalance));
    }
    if !ctx.entry_created && !address_eq(&ctx.escrow.authority, &ctx.authority) {
        return Err(EscrowError::Unauthorized);
    }
    if amount > u64::MAX - ctx.escrow.amount {
        return Err(EscrowError::ArithmeticOverflow);
    }
    // Move the tokens from the depositor's account into the vault,
    // authorized by the depositor's own signature.
    let moved = transfer(
        user_token_account,
        &mut ctx.escrow_token_account,
        amount,
        &Authority::ExternalSigner(ctx.authority),
    );
    if let Err(e) = moved {
        return Err(EscrowError::Transfer(e));
    }
    // Commit the balance mutation: record the owner and grow the balance by
    // exactly the transferred amount.
    ctx.escrow.authority = ctx.authority;
    ctx.escrow.amount = ctx.escrow.amount + amount;
    Ok(ctx.escrow.amount)
}

} // verus!
