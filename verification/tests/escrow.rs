use basic_escrow::errors::{EscrowError, TransferError};
use basic_escrow::ledger::Ledger;
use basic_escrow::token::{Authority, TokenAccount};

fn addr(tag: u8) -> [u8; 32] {
    [tag; 32]
}

#[test]
fn deposit_increases_balance_and_vault() {
    let owner = addr(1);
    let mint = addr(2);
    let mut ledger = Ledger::new();
    let mut wallet = TokenAccount { owner, amount: 5_000 };
    let mut payer: u64 = 1_000_000;
    let auth = Authority::ExternalSigner(owner);

    let r = ledger.deposit(&owner, &mint, 1_500, &auth, &mut wallet, &mut payer);
    assert_eq!(r, Ok(1_500));
    assert_eq!(ledger.balance_of(&owner), Some(1_500));
    assert_eq!(ledger.vault_amount_of(&owner, &mint), Some(1_500));
    assert_eq!(wallet.amount, 3_500);
    // entry (8 + 32 + 8) and vault (165) were both created
    assert_eq!(payer, 1_000_000 - 48 - 165);
}

#[test]
fn withdraw_decreases_balance_and_vault() {
    let owner = addr(3);
    let mint = addr(4);
    let mut ledger = Ledger::new();
    let mut wallet = TokenAccount { owner, amount: 2_000 };
    let mut payer: u64 = 1_000_000;
    let auth = Authority::ExternalSigner(owner);

    ledger.deposit(&owner, &mint, 2_000, &auth, &mut wallet, &mut payer).unwrap();
    let r = ledger.withdraw(&owner, &mint, 700, &auth, &mut wallet);
    assert_eq!(r, Ok(1_300));
    assert_eq!(ledger.balance_of(&owner), Some(1_300));
    assert_eq!(ledger.vault_amount_of(&owner, &mint), Some(1_300));
    assert_eq!(wallet.amount, 700);
}

#[test]
fn overdraw_fails_insufficient_funds_and_preserves_balance() {
    let owner = addr(5);
    let mint = addr(6);
    let mut ledger = Ledger::new();
    let mut wallet = TokenAccount { owner, amount: 100 };
    let mut payer: u64 = 1_000_000;
    let auth = Authority::ExternalSigner(owner);

    ledger.deposit(&owner, &mint, 100, &auth, &mut wallet, &mut payer).unwrap();
    let r = ledger.withdraw(&owner, &mint, 101, &auth, &mut wallet);
    assert_eq!(r, Err(EscrowError::InsufficientFunds));
    assert_eq!(ledger.balance_of(&owner), Some(100));
    assert_eq!(ledger.vault_amount_of(&owner, &mint), Some(100));
    assert_eq!(wallet.amount, 0);
}

#[test]
fn withdraw_by_other_identity_fails_unauthorized() {
    let owner = addr(7);
    let thief = addr(8);
    let mint = addr(9);
    let mut ledger = Ledger::new();
    let mut wallet = TokenAccount { owner, amount: 500 };
    let mut payer: u64 = 1_000_000;
    let auth = Authority::ExternalSigner(owner);

    ledger.deposit(&owner, &mint, 500, &auth, &mut wallet, &mut payer).unwrap();
    // amount <= balance, yet the caller is not the entry's owner
    let mut thief_wallet = TokenAccount { owner: thief, amount: 0 };
    let r = ledger.withdraw(&owner, &mint, 100, &Authority::ExternalSigner(thief), &mut thief_wallet);
    assert_eq!(r, Err(EscrowError::Unauthorized));
    assert_eq!(ledger.balance_of(&owner), Some(500));
    assert_eq!(thief_wallet.amount, 0);
}

#[test]
fn second_deposit_accumulates_instead_of_resetting() {
    let owner = addr(10);
    let mint = addr(11);
    let mut ledger = Ledger::new();
    let mut wallet = TokenAccount { owner, amount: 1_000 };
    let mut payer: u64 = 1_000_000;
    let auth = Authority::ExternalSigner(owner);

    assert_eq!(ledger.deposit(&owner, &mint, 100, &auth, &mut wallet, &mut payer), Ok(100));
    assert_eq!(ledger.deposit(&owner, &mint, 50, &auth, &mut wallet, &mut payer), Ok(150));
    assert_eq!(ledger.balance_of(&owner), Some(150));
    // the second call created nothing, so it charged nothing
    assert_eq!(payer, 1_000_000 - 48 - 165);
}

#[test]
fn end_to_end_deposit_withdraw_overdraw_unauthorized() {
    let a = addr(12);
    let b = addr(13);
    let x = addr(14);
    let mut ledger = Ledger::new();
    let mut wallet_a = TokenAccount { owner: a, amount: 1_000 };
    let mut wallet_b = TokenAccount { owner: b, amount: 0 };
    let mut payer: u64 = 1_000_000;

    let r = ledger.deposit(&a, &x, 1_000, &Authority::ExternalSigner(a), &mut wallet_a, &mut payer);
    assert_eq!(r, Ok(1_000));
    assert_eq!(ledger.balance_of(&a), Some(1_000));

    let r = ledger.withdraw(&a, &x, 400, &Authority::ExternalSigner(a), &mut wallet_a);
    assert_eq!(r, Ok(600));
    assert_eq!(ledger.balance_of(&a), Some(600));

    let r = ledger.withdraw(&a, &x, 700, &Authority::ExternalSigner(a), &mut wallet_a);
    assert_eq!(r, Err(EscrowError::InsufficientFunds));
    assert_eq!(ledger.balance_of(&a), Some(600));

    let r = ledger.withdraw(&a, &x, 100, &Authority::ExternalSigner(b), &mut wallet_b);
    assert_eq!(r, Err(EscrowError::Unauthorized));
    assert_eq!(ledger.balance_of(&a), Some(600));
    assert_eq!(wallet_a.amount, 400);
    assert_eq!(wallet_b.amount, 0);
}

#[test]
fn deposit_overflowing_balance_fails_and_changes_nothing() {
    let owner = addr(15);
    let mint = addr(16);
    let mut ledger = Ledger::new();
    let mut wallet = TokenAccount { owner, amount: u64::MAX };
    let mut payer: u64 = 1_000_000;
    let auth = Authority::ExternalSigner(owner);

    assert_eq!(ledger.deposit(&owner, &mint, u64::MAX - 10, &auth, &mut wallet, &mut payer), Ok(u64::MAX - 10));
    let payer_after = payer;
    // refill the wallet so only the balance type itself can object
    wallet.amount = 100;
    let r = ledger.deposit(&owner, &mint, 11, &auth, &mut wallet, &mut payer);
    assert_eq!(r, Err(EscrowError::ArithmeticOverflow));
    assert_eq!(ledger.balance_of(&owner), Some(u64::MAX - 10));
    assert_eq!(wallet.amount, 100);
    assert_eq!(payer, payer_after);
}

#[test]
fn deposit_with_mismatched_signer_fails_unauthorized() {
    let owner = addr(17);
    let other = addr(18);
    let mint = addr(19);
    let mut ledger = Ledger::new();
    let mut wallet = TokenAccount { owner, amount: 100 };
    let mut payer: u64 = 1_000_000;

    let r = ledger.deposit(&owner, &mint, 100, &Authority::ExternalSigner(other), &mut wallet, &mut payer);
    assert_eq!(r, Err(EscrowError::Unauthorized));
    assert_eq!(ledger.balance_of(&owner), None);
    assert_eq!(wallet.amount, 100);
    assert_eq!(payer, 1_000_000);
}

#[test]
fn deposit_from_foreign_wallet_fails_authority_mismatch() {
    let owner = addr(20);
    let other = addr(21);
    let mint = addr(22);
    let mut ledger = Ledger::new();
    // the wallet belongs to someone else, so the transfer service refuses
    let mut wallet = TokenAccount { owner: other, amount: 100 };
    let mut payer: u64 = 1_000_000;

    let r = ledger.deposit(&owner, &mint, 50, &Authority::ExternalSigner(owner), &mut wallet, &mut payer);
    assert_eq!(r, Err(EscrowError::Transfer(TransferError::AuthorityMismatch)));
    assert_eq!(ledger.balance_of(&owner), None);
    assert_eq!(wallet.amount, 100);
    assert_eq!(payer, 1_000_000);
}

#[test]
fn deposit_from_short_wallet_fails_insufficient_source() {
    let owner = addr(23);
    let mint = addr(24);
    let mut ledger = Ledger::new();
    let mut wallet = TokenAccount { owner, amount: 49 };
    let mut payer: u64 = 1_000_000;

    let r = ledger.deposit(&owner, &mint, 50, &Authority::ExternalSigner(owner), &mut wallet, &mut payer);
    assert_eq!(r, Err(EscrowError::Transfer(TransferError::InsufficientSourceBalance)));
    assert_eq!(ledger.balance_of(&owner), None);
    assert_eq!(wallet.amount, 49);
}

#[test]
fn deposit_with_poor_payer_fails_allocation() {
    let owner = addr(25);
    let mint = addr(26);
    let mut ledger = Ledger::new();
    let mut wallet = TokenAccount { owner, amount: 100 };
    // entry + vault cost 48 + 165 = 213
    let mut payer: u64 = 212;

    let r = ledger.deposit(&owner, &mint, 50, &Authority::ExternalSigner(owner), &mut wallet, &mut payer);
    assert_eq!(r, Err(EscrowError::AllocationError));
    assert_eq!(ledger.balance_of(&owner), None);
    assert_eq!(payer, 212);
}

#[test]
fn withdraw_of_mint_never_deposited_fails_insufficient_source() {
    let owner = addr(27);
    let x = addr(28);
    let y = addr(29);
    let mut ledger = Ledger::new();
    let mut wallet = TokenAccount { owner, amount: 100 };
    let mut payer: u64 = 1_000_000;
    let auth = Authority::ExternalSigner(owner);

    ledger.deposit(&owner, &x, 100, &auth, &mut wallet, &mut payer).unwrap();
    // the balance covers the amount, but the (owner, y) vault holds nothing
    let r = ledger.withdraw(&owner, &y, 50, &auth, &mut wallet);
    assert_eq!(r, Err(EscrowError::Transfer(TransferError::InsufficientSourceBalance)));
    assert_eq!(ledger.balance_of(&owner), Some(100));
    assert_eq!(ledger.vault_amount_of(&owner, &x), Some(100));
    assert_eq!(ledger.vault_amount_of(&owner, &y), None);
}

#[test]
fn withdraw_overflowing_destination_fails() {
    let owner = addr(30);
    let mint = addr(31);
    let mut ledger = Ledger::new();
    let mut wallet = TokenAccount { owner, amount: 100 };
    let mut payer: u64 = 1_000_000;
    let auth = Authority::ExternalSigner(owner);

    ledger.deposit(&owner, &mint, 100, &auth, &mut wallet, &mut payer).unwrap();
    wallet.amount = u64::MAX - 10;
    let r = ledger.withdraw(&owner, &mint, 11, &auth, &mut wallet);
    assert_eq!(r, Err(EscrowError::ArithmeticOverflow));
    assert_eq!(ledger.balance_of(&owner), Some(100));
    assert_eq!(wallet.amount, u64::MAX - 10);
}

#[test]
fn balances_of_owners_are_independent() {
    let a = addr(32);
    let b = addr(33);
    let mint = addr(34);
    let mut ledger = Ledger::new();
    let mut wallet_a = TokenAccount { owner: a, amount: 100 };
    let mut wallet_b = TokenAccount { owner: b, amount: 100 };
    let mut payer: u64 = 1_000_000;

    ledger.deposit(&a, &mint, 60, &Authority::ExternalSigner(a), &mut wallet_a, &mut payer).unwrap();
    ledger.deposit(&b, &mint, 40, &Authority::ExternalSigner(b), &mut wallet_b, &mut payer).unwrap();
    ledger.withdraw(&a, &mint, 10, &Authority::ExternalSigner(a), &mut wallet_a).unwrap();
    assert_eq!(ledger.balance_of(&a), Some(50));
    assert_eq!(ledger.balance_of(&b), Some(40));
}
