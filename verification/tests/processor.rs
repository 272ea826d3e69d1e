use basic_escrow::errors::{EscrowError, TransferError};
use basic_escrow::processor::deposit::{self, Deposit};
use basic_escrow::processor::withdraw::{self, Withdraw};
use basic_escrow::directory::derive_vault_address;
use basic_escrow::state::Escrow;
use basic_escrow::token::{transfer, Authority, TokenAccount};

fn addr(tag: u8) -> [u8; 32] {
    [tag; 32]
}

#[test]
fn deposit_process_moves_value_and_records_owner() {
    let owner = addr(1);
    let mint = addr(2);
    let vault = derive_vault_address(&owner, &mint).unwrap();
    let mut ctx = Deposit {
        authority: owner,
        mint,
        escrow: Escrow { authority: owner, amount: 0 },
        escrow_token_account: TokenAccount { owner: vault, amount: 0 },
        entry_created: true,
    };
    let mut wallet = TokenAccount { owner, amount: 300 };
    let r = deposit::process(&mut ctx, &mut wallet, 300);
    assert_eq!(r, Ok(300));
    assert_eq!(ctx.escrow.amount, 300);
    assert_eq!(ctx.escrow.authority, owner);
    assert_eq!(ctx.escrow_token_account.amount, 300);
    assert_eq!(wallet.amount, 0);
}

#[test]
fn deposit_process_guards_against_corrupted_record() {
    // an existing entry recorded for someone else is refused, even though
    // address derivation should make this unreachable
    let owner = addr(3);
    let other = addr(4);
    let mint = addr(5);
    let vault = derive_vault_address(&owner, &mint).unwrap();
    let mut ctx = Deposit {
        authority: owner,
        mint,
        escrow: Escrow { authority: other, amount: 10 },
        escrow_token_account: TokenAccount { owner: vault, amount: 10 },
        entry_created: false,
    };
    let mut wallet = TokenAccount { owner, amount: 100 };
    let r = deposit::process(&mut ctx, &mut wallet, 50);
    assert_eq!(r, Err(EscrowError::Unauthorized));
    assert_eq!(ctx.escrow.amount, 10);
    assert_eq!(ctx.escrow.authority, other);
    assert_eq!(wallet.amount, 100);
}

#[test]
fn withdraw_process_checks_sufficiency_before_authorization() {
    // a caller who is not the owner still learns only that funds are short
    let owner = addr(6);
    let caller = addr(7);
    let mint = addr(8);
    let vault = derive_vault_address(&owner, &mint).unwrap();
    let mut ctx = Withdraw {
        authority: caller,
        mint,
        escrow: Escrow { authority: owner, amount: 40 },
        escrow_token_account: TokenAccount { owner: vault, amount: 40 },
    };
    let mut wallet = TokenAccount { owner: caller, amount: 0 };
    let r = withdraw::process(&mut ctx, &mut wallet, 41);
    assert_eq!(r, Err(EscrowError::InsufficientFunds));
    // with a covered amount, authorization is what fails
    let r = withdraw::process(&mut ctx, &mut wallet, 40);
    assert_eq!(r, Err(EscrowError::Unauthorized));
    assert_eq!(ctx.escrow.amount, 40);
    assert_eq!(wallet.amount, 0);
}

#[test]
fn withdraw_process_vault_authorizes_itself() {
    let owner = addr(9);
    let mint = addr(10);
    let vault = derive_vault_address(&owner, &mint).unwrap();
    let mut ctx = Withdraw {
        authority: owner,
        mint,
        escrow: Escrow { authority: owner, amount: 120 },
        escrow_token_account: TokenAccount { owner: vault, amount: 120 },
    };
    let mut wallet = TokenAccount { owner, amount: 1 };
    let r = withdraw::process(&mut ctx, &mut wallet, 120);
    assert_eq!(r, Ok(0));
    assert_eq!(ctx.escrow.amount, 0);
    assert_eq!(ctx.escrow_token_account.amount, 0);
    assert_eq!(wallet.amount, 121);
}

#[test]
fn withdraw_process_refuses_vault_at_wrong_address() {
    // a vault whose recorded authority is not its derivation cannot sign
    // for itself: the transfer authority check fails
    let owner = addr(11);
    let mint = addr(12);
    let mut ctx = Withdraw {
        authority: owner,
        mint,
        escrow: Escrow { authority: owner, amount: 50 },
        escrow_token_account: TokenAccount { owner: addr(13), amount: 50 },
    };
    let mut wallet = TokenAccount { owner, amount: 0 };
    let r = withdraw::process(&mut ctx, &mut wallet, 10);
    assert_eq!(r, Err(EscrowError::Transfer(TransferError::AuthorityMismatch)));
    assert_eq!(ctx.escrow.amount, 50);
    assert_eq!(ctx.escrow_token_account.amount, 50);
}

#[test]
fn transfer_moves_exactly_the_amount() {
    let a = addr(14);
    let b = addr(15);
    let mut from = TokenAccount { owner: a, amount: 90 };
    let mut to = TokenAccount { owner: b, amount: 5 };
    let r = transfer(&mut from, &mut to, 30, &Authority::ExternalSigner(a));
    assert_eq!(r, Ok(()));
    assert_eq!(from.amount, 60);
    assert_eq!(to.amount, 35);
}

#[test]
fn transfer_refuses_foreign_authority() {
    let a = addr(16);
    let b = addr(17);
    let mut from = TokenAccount { owner: a, amount: 90 };
    let mut to = TokenAccount { owner: b, amount: 5 };
    let r = transfer(&mut from, &mut to, 30, &Authority::ExternalSigner(b));
    assert_eq!(r, Err(TransferError::AuthorityMismatch));
    assert_eq!(from.amount, 90);
    assert_eq!(to.amount, 5);
}

#[test]
fn transfer_refuses_short_source() {
    let a = addr(18);
    let b = addr(19);
    let mut from = TokenAccount { owner: a, amount: 29 };
    let mut to = TokenAccount { owner: b, amount: 5 };
    let r = transfer(&mut from, &mut to, 30, &Authority::ExternalSigner(a));
    assert_eq!(r, Err(TransferError::InsufficientSourceBalance));
    assert_eq!(from.amount, 29);
    assert_eq!(to.amount, 5);
}
