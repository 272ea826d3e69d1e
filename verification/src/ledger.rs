use vstd::prelude::*;

use crate::directory::{derive_entry_address, derive_vault_address, pda_of};
use crate::errors::{EscrowError, TransferError};
use crate::state::{address_eq, Address, Escrow};
use crate::token::{Authority, TokenAccount};
use crate::utils::{entry_seeds, vault_seeds};
use vstd::std_specs::vec::vec_index_mut;

verus! {

/// Storage cost of a ledger entry: framing header, owner, balance.
pub const ENTRY_SPACE: u64 = 8 + 32 + 8;

/// Storage cost of a token vault.
pub const VAULT_SPACE: u64 = 165;

/// One vault and the bookkeeping that ties it to its derivation: the mint it
/// holds, the address derived from (owner, mint), and the token account
/// standing at that address.
pub struct VaultSlot {
    pub mint: Address,
    pub address: Address,
    pub token: TokenAccount,
}

/// Everything stored for one owner: the entry at its derived address and the
/// owner's vaults, one per mint.
pub struct OwnerAccount {
    pub owner: Address,
    pub entry_address: Address,
    pub escrow: Escrow,
    pub vaults: Vec<VaultSlot>,
}

/// The escrow system's state: every ledger entry and every vault, resolved
/// and created through the directory's derivation scheme.
pub struct Ledger {
    accounts: Vec<OwnerAccount>,
}

/// What `get_or_create_entry` reports: whether the entry had to be created
/// for this call, carrying the entry either way.
#[derive(Clone, Copy, Debug)]
pub enum Resolution {
    Created(Escrow),
    Existing(Escrow),
}

pub(crate) open spec fn sum_vaults(vs: Seq<VaultSlot>) -> int
    decreases vs.len(),
{
    if vs.len() == 0 {
        0
    } else {
        vs[0].token.amount + sum_vaults(vs.drop_first())
    }
}

pub(crate) open spec fn has_account_in(s: Seq<OwnerAccount>, owner: Seq<u8>) -> bool {
    exists|i: int| 0 <= i < s.len() && (#[trigger] s[i]).owner@ == owner
}

pub(crate) open spec fn account_index_in(s: Seq<OwnerAccount>, owner: Seq<u8>) -> int {
    choose|i: int| 0 <= i < s.len() && (#[trigger] s[i]).owner@ == owner
}

pub(crate) open spec fn has_vault_in(vs: Seq<VaultSlot>, mint: Seq<u8>) -> bool {
    exists|j: int| 0 <= j < vs.len() && (#[trigger] vs[j]).mint@ == mint
}

pub(crate) open spec fn vault_index_in(vs: Seq<VaultSlot>, mint: Seq<u8>) -> int {
    choose|j: int| 0 <= j < vs.len() && (#[trigger] vs[j]).mint@ == mint
}

pub(crate) open spec fn owners_distinct(s: Seq<OwnerAccount>) -> bool {
    forall|i: int, j: int| 0 <= i < j < s.len() ==> (#[trigger] s[i]).owner@ != (#[trigger] s[j]).owner@
}

pub(crate) open spec fn vaults_distinct(vs: Seq<VaultSlot>) -> bool {
    forall|i: int, j: int| 0 <= i < j < vs.len() ==> (#[trigger] vs[i]).mint@ != (#[trigger] vs[j]).mint@
}

/// Well-formedness of one owner's storage: the entry and every vault stand
/// at their derived addresses, the entry is owned by the identity it is
/// derived from, each vault answers only to its own address, and — the core
/// cross-entity invariant — the entry's balance equals the sum of the
/// owner's vault holdings.
pub(crate) open spec fn account_wf(a: OwnerAccount) -> bool {
    &&& pda_of(entry_seeds(a.owner@)) == Some(a.entry_address@)
    &&& a.escrow.authority@ == a.owner@
    &&& a.escrow.amount as int == sum_vaults(a.vaults@)
    &&& vaults_distinct(a.vaults@)
    &&& (forall|j: int|
        0 <= j < a.vaults@.len() ==> pda_of(vault_seeds(a.owner@, (#[trigger] a.vaults@[j]).mint@))
            == Some(a.vaults@[j].address@))
    &&& (forall|j: int|
        0 <= j < a.vaults@.len() ==> (#[trigger] a.vaults@[j]).token.owner@
            == a.vaults@[j].address@)
}

impl Ledger {
    /// The ledger's invariant: one account per owner, each well-formed.
    #[verifier::type_invariant]
    pub(crate) closed spec fn wf(self) -> bool {
        &&& owners_distinct(self.accounts@)
        &&& (forall|i: int|
            0 <= i < self.accounts@.len() ==> account_wf(#[trigger] self.accounts@[i]))
    }

    /// Whether an entry exists for this owner.
    pub closed spec fn spec_has_entry(self, owner: Seq<u8>) -> bool {
        has_account_in(self.accounts@, owner)
    }

    /// The entry's balance; zero when no entry exists.
    pub closed spec fn spec_balance(self, owner: Seq<u8>) -> u64 {
        if has_account_in(self.accounts@, owner) {
            self.accounts@[account_index_in(self.accounts@, owner)].escrow.amount
        } else {
            0
        }
    }

    /// Whether a vault exists for this (owner, mint) pair.
    pub closed spec fn spec_has_vault(self, owner: Seq<u8>, mint: Seq<u8>) -> bool {
        &&& has_account_in(self.accounts@, owner)
        &&& has_vault_in(
            self.accounts@[account_index_in(self.accounts@, owner)].vaults@,
            mint,
        )
    }

    /// The vault's holdings; zero when no vault exists.
    pub closed spec fn spec_vault_amount(self, owner: Seq<u8>, mint: Seq<u8>) -> u64 {
        if self.spec_has_vault(owner, mint) {
            let vs = self.accounts@[account_index_in(self.accounts@, owner)].vaults@;
            vs[vault_index_in(vs, mint)].token.amount
        } else {
            0
        }
    }

    /// An empty ledger: no entries, no vaults.
    pub fn new() -> (l: Ledger)
        ensures
            forall|o: Seq<u8>| !l.spec_has_entry(o),
            forall|o: Seq<u8>, m: Seq<u8>| !l.spec_has_vault(o, m),
    {
        Ledger { accounts: Vec::new() }
    }

    /// The balance escrowed by `owner`, if an entry exists.
    pub fn balance_of(&self, owner: &Address) -> (r: Option<u64>)
        ensures
            r == if self.spec_has_entry(owner@) {
                Some(self.spec_balance(owner@))
            } else {
                None::<u64>
            },
    {
        proof {
            use_type_invariant(&*self);
        }
        match find_account(&self.accounts, owner) {
            Some(i) => {
                proof {
                    lemma_account_index(self.accounts@, owner@, i as int);
                }
                Some(self.accounts[i].escrow.amount)
            },
            None => None,
        }
    }

    /// The units held by the vault of (owner, mint), if that vault exists.
    /// A vault never holds more than its entry accounts for: the entry's
    /// balance is the sum of the owner's vault holdings.
    pub fn vault_amount_of(&self, owner: &Address, mint: &Address) -> (r: Option<u64>)
        ensures
            r == if self.spec_has_vault(owner@, mint@) {
                Some(self.spec_vault_amount(owner@, mint@))
            } else {
                None::<u64>
            },
            self.spec_has_vault(owner@, mint@) ==> self.spec_vault_amount(owner@, mint@)
                <= self.spec_balance(owner@),
    {
        proof {
            use_type_invariant(&*self);
        }
        match find_account(&self.accounts, owner) {
            Some(i) => {
                proof {
                    lemma_account_index(self.accounts@, owner@, i as int);
                }
                match find_vault(&self.accounts[i].vaults, mint) {
                    Some(j) => {
                        proof {
                            lemma_vault_index(self.accounts@[i as int].vaults@, mint@, j as int);
                            lemma_sum_elem(self.accounts@[i as int].vaults@, j as int);
                        }
                        Some(self.accounts[i].vaults[j].token.amount)
                    },
                    None => None,
                }
            },
            None => None,
        }
    }
}

/// What the directory charges to resolve or create the entry and vault a
/// deposit needs.
pub open spec fn creation_cost(l: Ledger, owner: Seq<u8>, mint: Seq<u8>) -> int {
    (if l.spec_has_entry(owner) {
        0int
    } else {
        ENTRY_SPACE as int
    }) + (if l.spec_has_vault(owner, mint) {
        0int
    } else {
        VAULT_SPACE as int
    })
}

/// The exact outcome a deposit must have, given the ledger, the request and
/// the depositor's token account and payer balance. Checks are ordered as
/// the operation performs them: authentication, then directory resolution
/// and allocation, then the token movement, then the balance update.
pub open spec fn deposit_outcome(
    l: Ledger,
    owner: Seq<u8>,
    mint: Seq<u8>,
    amount: u64,
    authority: Authority,
    user: TokenAccount,
    payer: u64,
) -> Result<u64, EscrowError> {
    if !(authority matches Authority::ExternalSigner(s) && s@ == owner) {
        Err(EscrowError::Unauthorized)
    } else if pda_of(entry_seeds(owner)) is None || pda_of(vault_seeds(owner, mint)) is None {
        Err(EscrowError::AllocationError)
    } else if payer < creation_cost(l, owner, mint) {
        Err(EscrowError::AllocationError)
    } else if user.owner@ != owner {
        Err(EscrowError::Transfer(TransferError::AuthorityMismatch))
    } else if user.amount < amount {
        Err(EscrowError::Transfer(TransferError::InsufficientSourceBalance))
    } else if l.spec_balance(owner) + amount > u64::MAX {
        Err(EscrowError::ArithmeticOverflow)
    } else {
        Ok((l.spec_balance(owner) + amount) as u64)
    }
}

impl Ledger {
    /// Deposit `amount` units of `mint` into the owner's escrow: resolve or
    /// create the entry and vault through the directory (charging the payer
    /// for what is created), move the tokens from the depositor's account
    /// into the vault, and grow the balance by exactly `amount` — all atomic
    /// as a unit, or fail with nothing changed.
    pub fn deposit(
        &mut self,
        owner: &Address,
        mint: &Address,
        amount: u64,
        authority: &Authority,
        user_token_account: &mut TokenAccount,
        payer_balance: &mut u64,
    ) -> (r: Result<u64, EscrowError>)
        requires
            amount > 0,
        ensures
            r == deposit_outcome(
                *old(self),
                owner@,
                mint@,
                amount,
                *authority,
                *old(user_token_account),
                *old(payer_balance),
            ),
            r is Err ==> *final(self) == *old(self) && *final(user_token_account) == *old(
                user_token_account,
            ) && *final(payer_balance) == *old(payer_balance),
            r is Ok ==> final(self).spec_has_entry(owner@) && final(self).spec_balance(owner@)
                == old(self).spec_balance(owner@) + amount && final(self).spec_has_vault(
                owner@,
                mint@,
            ) && final(self).spec_vault_amount(owner@, mint@) == old(self).spec_vault_amount(
                owner@,
                mint@,
            ) + amount && final(user_token_account).amount == old(user_token_account).amount
                - amount && final(user_token_account).owner == old(user_token_account).owner
                && *final(payer_balance) == *old(payer_balance) - creation_cost(
                *old(self),
                owner@,
                mint@,
            ),
            r is Ok ==> (forall|o: Seq<u8>|
                o != owner@ ==> final(self).spec_has_entry(o) == old(self).spec_has_entry(o)
                    && final(self).spec_balance(o) == old(self).spec_balance(o)),
            r is Ok ==> (forall|o: Seq<u8>, m: Seq<u8>|
                o != owner@ || m != mint@ ==> final(self).spec_has_vault(o, m) == old(
                    self,
                ).spec_has_vault(o, m) && final(self).spec_vault_amount(o, m) == old(
                    self,
                ).spec_vault_amount(o, m)),
    {
        proof {
            use_type_invariant(&*self);
        }
        // Authenticate first: a mismatched caller is rejected before any
        // state or value moves.
        let signer_ok = match authority {
            Authority::ExternalSigner(s) => address_eq(s, owner),
            _ => false,
        };
        if !signer_ok {
            return Err(EscrowError::Unauthorized);
        }
        // Resolve the entry and vault addresses through the directory.
        let entry_addr = match derive_entry_address(owner) {
            Some(a) => a,
            None => {
                return Err(EscrowError::AllocationError);
            },
        };
        let vault_addr = match derive_vault_address(owner, mint) {
            Some(a) => a,
            None => {
                return Err(EscrowError::AllocationError);
            },
        };
        let idx = find_account(&self.accounts, owner);
        let vj: Option<usize> = match idx {
            Some(i) => {
                proof {
                    lemma_account_index(self.accounts@, owner@, i as int);
                }
                find_vault(&self.accounts[i].vaults, mint)
            },
            None => None,
        };
        // Charge the payer for whatever must be created, or refuse.
        let cost: u64 = (if idx.is_none() {
            ENTRY_SPACE
        } else {
            0
        }) + (if vj.is_none() {
            VAULT_SPACE
        } else {
            0
        });
        if *payer_balance < cost {
            return Err(EscrowError::AllocationError);
        }
        // Resolve or zero-initialize the accounts the processor works on.
        let (escrow0, created): (Escrow, bool) = match idx {
            Some(i) => (self.accounts[i].escrow, false),
            None => (Escrow { authority: *owner, amount: 0 }, true),
        };
        let token0: TokenAccount = match (idx, vj) {
            (Some(i), Some(j)) => {
                proof {
                    lemma_vault_index(self.accounts@[idx.unwrap() as int].vaults@, mint@, j as int);
                    lemma_sum_elem(self.accounts@[idx.unwrap() as int].vaults@, j as int);
                }
                self.accounts[i].vaults[j].token
            },
            _ => TokenAccount { owner: vault_addr, amount: 0 },
        };
        let mut ctx = crate::processor::deposit::Deposit {
            authority: *owner,
            mint: *mint,
            escrow: escrow0,
            escrow_token_account: token0,
            entry_created: created,
        };
        let moved = crate::processor::deposit::process(&mut ctx, user_token_account, amount);
        let nb = match moved {
            Ok(nb) => nb,
            Err(e) => {
                return Err(e);
            },
        };
        // Commit: everything the processor validated now holds, so the new
        // state is written back as one unit.
        *payer_balance = *payer_balance - cost;
        let mut accounts: Vec<OwnerAccount> = Vec::new();
        std::mem::swap(&mut accounts, &mut self.accounts);
        let ghost s0 = accounts@;
        let new_slot = VaultSlot { mint: *mint, address: vault_addr, token: ctx.escrow_token_account };
        match idx {
            Some(i) => {
                let a = vec_index_mut(&mut accounts, i);
                a.escrow = ctx.escrow;
                match vj {
                    Some(j) => {
                        let v = vec_index_mut(&mut a.vaults, j);
                        v.token = ctx.escrow_token_account;
                    },
                    None => {
                        a.vaults.push(new_slot);
                    },
                }
                proof {
                    let i = i as int;
                    let upd = accounts@[i];
                    assert(accounts@ == s0.update(i, upd));
                    assert(upd.owner == s0[i].owner && upd.entry_address == s0[i].entry_address);
                    // The updated account is well-formed: same derivations,
                    // and the balance still sums the vault holdings.
                    match vj {
                        Some(j) => {
                            let j = j as int;
                            let vupd = upd.vaults@[j];
                            assert(upd.vaults@ == s0[i].vaults@.update(j, vupd));
                            assert(vupd.mint == s0[i].vaults@[j].mint);
                            assert(vupd.address == s0[i].vaults@[j].address);
                            lemma_sum_update(s0[i].vaults@, j, vupd);
                            lemma_vaults_update(s0[i].vaults@, j, vupd);
                            lemma_vault_index(upd.vaults@, mint@, j);
                        },
                        None => {
                            assert(upd.vaults@ == s0[i].vaults@.push(new_slot));
                            lemma_sum_push(s0[i].vaults@, new_slot);
                            lemma_vaults_push(s0[i].vaults@, new_slot);
                        },
                    }
                    assert(account_wf(upd));
                    lemma_accounts_update(s0, i, upd);
                    lemma_account_index(accounts@, owner@, i);
                    assert(forall|k: int| 0 <= k < s0.len() && k != i ==> accounts@[k] == s0[k]);
                }
            },
            None => {
                let mut vaults: Vec<VaultSlot> = Vec::new();
                vaults.push(new_slot);
                let fresh = OwnerAccount {
                    owner: *owner,
                    entry_address: entry_addr,
                    escrow: ctx.escrow,
                    vaults,
                };
                let ghost fresh_spec = fresh;
                accounts.push(fresh);
                proof {
                    assert(accounts@ == s0.push(fresh_spec));
                    assert(fresh_spec.vaults@ =~= Seq::<VaultSlot>::empty().push(new_slot));
                    lemma_sum_push(Seq::<VaultSlot>::empty(), new_slot);
                    assert(sum_vaults(fresh_spec.vaults@) == new_slot.token.amount);
                    assert(vaults_distinct(fresh_spec.vaults@));
                    lemma_vault_index(fresh_spec.vaults@, mint@, 0);
                    assert(account_wf(fresh_spec));
                    lemma_accounts_push(s0, fresh_spec);
                    assert(forall|k: int| 0 <= k < s0.len() ==> accounts@[k] == s0[k]);
                }
            },
        }
        std::mem::swap(&mut accounts, &mut self.accounts);
        Ok(nb)
    }
}

/// The exact outcome a withdrawal must have, given the ledger and the
/// request. Sufficiency is checked before authorization, so a short balance
/// is reported as `InsufficientFunds` even to a caller who is not the owner.
pub open spec fn withdraw_outcome(
    l: Ledger,
    owner: Seq<u8>,
    mint: Seq<u8>,
    amount: u64,
    authority: Authority,
    user: TokenAccount,
) -> Result<u64, EscrowError> {
    if !l.spec_has_entry(owner) || l.spec_balance(owner) < amount {
        Err(EscrowError::InsufficientFunds)
    } else if !(authority matches Authority::ExternalSigner(s) && s@ == owner) {
        Err(EscrowError::Unauthorized)
    } else if !l.spec_has_vault(owner, mint) || l.spec_vault_amount(owner, mint) < amount {
        Err(EscrowError::Transfer(TransferError::InsufficientSourceBalance))
    } else if user.amount + amount > u64::MAX {
        Err(EscrowError::ArithmeticOverflow)
    } else {
        Ok((l.spec_balance(owner) - amount) as u64)
    }
}

impl Ledger {
    /// Withdraw `amount` units of `mint` from the owner's escrow: check
    /// sufficiency, then that the caller is the recorded authority, then
    /// move the tokens out of the vault — authorized by the vault's own
    /// derivation proof — and shrink the balance by exactly `amount`; or
    /// fail with nothing changed.
    pub fn withdraw(
        &mut self,
        owner: &Address,
        mint: &Address,
        amount: u64,
        authority: &Authority,
        user_token_account: &mut TokenAccount,
    ) -> (r: Result<u64, EscrowError>)
        ensures
            r == withdraw_outcome(
                *old(self),
                owner@,
                mint@,
                amount,
                *authority,
                *old(user_token_account),
            ),
            r is Err ==> *final(self) == *old(self) && *final(user_token_account) == *old(
                user_token_account,
            ),
            r is Ok ==> final(self).spec_has_entry(owner@) && final(self).spec_balance(owner@)
                == old(self).spec_balance(owner@) - amount && final(self).spec_has_vault(
                owner@,
                mint@,
            ) && final(self).spec_vault_amount(owner@, mint@) == old(self).spec_vault_amount(
                owner@,
                mint@,
            ) - amount && final(user_token_account).amount == old(user_token_account).amount
                + amount && final(user_token_account).owner == old(user_token_account).owner,
            r is Ok ==> (forall|o: Seq<u8>|
                o != owner@ ==> final(self).spec_has_entry(o) == old(self).spec_has_entry(o)
                    && final(self).spec_balance(o) == old(self).spec_balance(o)),
            r is Ok ==> (forall|o: Seq<u8>, m: Seq<u8>|
                o != owner@ || m != mint@ ==> final(self).spec_has_vault(o, m) == old(
                    self,
                ).spec_has_vault(o, m) && final(self).spec_vault_amount(o, m) == old(
                    self,
                ).spec_vault_amount(o, m)),
    {
        proof {
            use_type_invariant(&*self);
        }
        // Sufficiency first: no entry means nothing is escrowed.
        let i = match find_account(&self.accounts, owner) {
            Some(i) => i,
            None => {
                return Err(EscrowError::InsufficientFunds);
            },
        };
        proof {
            lemma_account_index(self.accounts@, owner@, i as int);
        }
        if self.accounts[i].escrow.amount < amount {
            return Err(EscrowError::InsufficientFunds);
        }
        // Authorization: only the recorded authority may draw the entry down.
        let signer: Address = match authority {
            Authority::ExternalSigner(s) => *s,
            _ => {
                return Err(EscrowError::Unauthorized);
            },
        };
        if !address_eq(&signer, owner) {
            return Err(EscrowError::Unauthorized);
        }
        // The tokens leave the (owner, mint) vault; without one there is no
        // source to move value from.
        let j = match find_vault(&self.accounts[i].vaults, mint) {
            Some(j) => j,
            None => {
                return Err(EscrowError::Transfer(TransferError::InsufficientSourceBalance));
            },
        };
        proof {
            lemma_vault_index(self.accounts@[i as int].vaults@, mint@, j as int);
        }
        let mut ctx = crate::processor::withdraw::Withdraw {
            authority: signer,
            mint: *mint,
            escrow: self.accounts[i].escrow,
            escrow_token_account: self.accounts[i].vaults[j].token,
        };
        let moved = crate::processor::withdraw::process(&mut ctx, user_token_account, amount);
        let nb = match moved {
            Ok(nb) => nb,
            Err(e) => {
                return Err(e);
            },
        };
        // Commit the drawn-down entry and vault as one unit.
        let mut accounts: Vec<OwnerAccount> = Vec::new();
        std::mem::swap(&mut accounts, &mut self.accounts);
        let ghost s0 = accounts@;
        let a = vec_index_mut(&mut accounts, i);
        a.escrow = ctx.escrow;
        let v = vec_index_mut(&mut a.vaults, j);
        v.token = ctx.escrow_token_account;
        proof {
            let i = i as int;
            let j = j as int;
            let upd = accounts@[i];
            let vupd = upd.vaults@[j];
            assert(accounts@ == s0.update(i, upd));
            assert(upd.owner == s0[i].owner && upd.entry_address == s0[i].entry_address);
            assert(upd.vaults@ == s0[i].vaults@.update(j, vupd));
            assert(vupd.mint == s0[i].vaults@[j].mint);
            assert(vupd.address == s0[i].vaults@[j].address);
            lemma_sum_update(s0[i].vaults@, j, vupd);
            lemma_vaults_update(s0[i].vaults@, j, vupd);
            lemma_vault_index(upd.vaults@, mint@, j);
            assert(account_wf(upd));
            lemma_accounts_update(s0, i, upd);
            lemma_account_index(accounts@, owner@, i);
            assert(forall|k: int| 0 <= k < s0.len() && k != i ==> accounts@[k] == s0[k]);
        }
        std::mem::swap(&mut accounts, &mut self.accounts);
        Ok(nb)
    }
}

impl Ledger {
    /// Resolve the owner's ledger entry, creating it zero-initialized on
    /// first touch: idempotent, so calling it on every deposit never resets
    /// an existing balance. The caller-supplied address must match the
    /// recomputed derivation; creation charges the payer the entry's
    /// storage cost.
    pub fn get_or_create_entry(
        &mut self,
        owner: &Address,
        expected_address: &Address,
        payer_balance: &mut u64,
    ) -> (r: Result<Resolution, EscrowError>)
        ensures
            pda_of(entry_seeds(owner@)) is None ==> r == Err::<Resolution, EscrowError>(
                EscrowError::AllocationError,
            ),
            (pda_of(entry_seeds(owner@)) matches Some(a) && a != expected_address@) ==> r
                == Err::<Resolution, EscrowError>(EscrowError::AddressMismatch),
            pda_of(entry_seeds(owner@)) == Some(expected_address@) ==> (if old(
                self,
            ).spec_has_entry(owner@) {
                (r matches Ok(Resolution::Existing(e)) && e.amount == old(self).spec_balance(
                    owner@,
                ) && e.authority@ == owner@)
            } else if *old(payer_balance) < ENTRY_SPACE {
                r == Err::<Resolution, EscrowError>(EscrowError::AllocationError)
            } else {
                (r matches Ok(Resolution::Created(e)) && e.amount == 0 && e.authority@ == owner@)
            }),
            (r is Err || r matches Ok(Resolution::Existing(_))) ==> *final(self) == *old(self)
                && *final(payer_balance) == *old(payer_balance),
            (r matches Ok(Resolution::Created(_))) ==> final(self).spec_has_entry(owner@)
                && final(self).spec_balance(owner@) == 0
                && *final(payer_balance) == *old(payer_balance) - ENTRY_SPACE
                && (forall|o: Seq<u8>|
                    o != owner@ ==> final(self).spec_has_entry(o) == old(self).spec_has_entry(o)
                        && final(self).spec_balance(o) == old(self).spec_balance(o))
                && (forall|o: Seq<u8>, m: Seq<u8>|
                    final(self).spec_has_vault(o, m) == old(self).spec_has_vault(o, m)
                        && final(self).spec_vault_amount(o, m) == old(self).spec_vault_amount(o, m)),
    {
        proof {
            use_type_invariant(&*self);
        }
        let derived = match derive_entry_address(owner) {
            Some(a) => a,
            None => {
                return Err(EscrowError::AllocationError);
            },
        };
        if !address_eq(&derived, expected_address) {
            return Err(EscrowError::AddressMismatch);
        }
        match find_account(&self.accounts, owner) {
            Some(i) => {
                proof {
                    lemma_account_index(self.accounts@, owner@, i as int);
                }
                Ok(Resolution::Existing(self.accounts[i].escrow))
            },
            None => {
                if *payer_balance < ENTRY_SPACE {
                    return Err(EscrowError::AllocationError);
                }
                *payer_balance = *payer_balance - ENTRY_SPACE;
                let entry = Escrow { authority: *owner, amount: 0 };
                let fresh = OwnerAccount {
                    owner: *owner,
                    entry_address: derived,
                    escrow: entry,
                    vaults: Vec::new(),
                };
                let ghost fresh_spec = fresh;
                let mut accounts: Vec<OwnerAccount> = Vec::new();
                std::mem::swap(&mut accounts, &mut self.accounts);
                let ghost s0 = accounts@;
                accounts.push(fresh);
                proof {
                    assert(accounts@ == s0.push(fresh_spec));
                    assert(fresh_spec.vaults@ =~= Seq::<VaultSlot>::empty());
                    assert(sum_vaults(fresh_spec.vaults@) == 0);
                    assert(account_wf(fresh_spec));
                    lemma_accounts_push(s0, fresh_spec);
                    assert(forall|k: int| 0 <= k < s0.len() ==> accounts@[k] == s0[k]);
                    assert forall|o: Seq<u8>, m: Seq<u8>|
                        has_account_in(accounts@, o) && has_vault_in(
                            accounts@[account_index_in(accounts@, o)].vaults@,
                            m,
                        ) implies has_account_in(s0, o) && has_vault_in(
                        s0[account_index_in(s0, o)].vaults@,
                        m,
                    ) by {
                        if o == fresh_spec.owner@ {
                            assert(account_index_in(accounts@, o) == s0.len());
                            assert(!has_vault_in(fresh_spec.vaults@, m));
                        }
                    }
                }
                std::mem::swap(&mut accounts, &mut self.accounts);
                Ok(Resolution::Created(entry))
            },
        }
    }
}

/// Law: creation is idempotent — a second deposit for the same owner adds
/// to the balance instead of resetting it. Starting from a ledger with no
/// entry for the owner, a deposit of `a1` (which relates the balances as
/// `deposit`'s contract states) followed by a deposit of `a2` leaves the
/// balance at `a1 + a2`, never at `a2` alone.
pub proof fn lemma_second_deposit_accumulates(
    l0: Ledger,
    l1: Ledger,
    l2: Ledger,
    owner: Seq<u8>,
    a1: u64,
    a2: u64,
)
    requires
        !l0.spec_has_entry(owner),
        l1.spec_balance(owner) == l0.spec_balance(owner) + a1,
        l2.spec_balance(owner) == l1.spec_balance(owner) + a2,
    ensures
        l2.spec_balance(owner) == a1 + a2,
{
    assert(l0.spec_balance(owner) == 0);
}

/// The index of the owner's account, scanning from the front.
fn find_account(accounts: &Vec<OwnerAccount>, owner: &Address) -> (r: Option<usize>)
    ensures
        (match r {
            Some(i) => i < accounts@.len() && accounts@[i as int].owner@ == owner@,
            None => !has_account_in(accounts@, owner@),
        }),
{
    let mut i: usize = 0;
    while i < accounts.len()
        invariant
            i <= accounts@.len(),
            forall|k: int| 0 <= k < i ==> (#[trigger] accounts@[k]).owner@ != owner@,
        decreases accounts@.len() - i,
    {
        if address_eq(&accounts[i].owner, owner) {
            return Some(i);
        }
        i += 1;
    }
    None
}

/// The index of the mint's vault, scanning from the front.
fn find_vault(vaults: &Vec<VaultSlot>, mint: &Address) -> (r: Option<usize>)
    ensures
        (match r {
            Some(j) => j < vaults@.len() && vaults@[j as int].mint@ == mint@,
            None => !has_vault_in(vaults@, mint@),
        }),
{
    let mut j: usize = 0;
    while j < vaults.len()
        invariant
            j <= vaults@.len(),
            forall|k: int| 0 <= k < j ==> (#[trigger] vaults@[k]).mint@ != mint@,
        decreases vaults@.len() - j,
    {
        if address_eq(&vaults[j].mint, mint) {
            return Some(j);
        }
        j += 1;
    }
    None
}

/// With owners pairwise distinct, an index whose owner matches is the one
/// the lookup functions denote.
pub(crate) proof fn lemma_account_index(s: Seq<OwnerAccount>, owner: Seq<u8>, i: int)
    requires
        owners_distinct(s),
        0 <= i < s.len(),
        s[i].owner@ == owner,
    ensures
        has_account_in(s, owner),
        account_index_in(s, owner) == i,
{
    assert(has_account_in(s, owner));
    let k = account_index_in(s, owner);
    if k < i {
        assert(s[k].owner@ != s[i].owner@);
    } else if k > i {
        assert(s[i].owner@ != s[k].owner@);
    }
}

/// With mints pairwise distinct, an index whose mint matches is the one the
/// lookup functions denote.
pub(crate) proof fn lemma_vault_index(vs: Seq<VaultSlot>, mint: Seq<u8>, j: int)
    requires
        vaults_distinct(vs),
        0 <= j < vs.len(),
        vs[j].mint@ == mint,
    ensures
        has_vault_in(vs, mint),
        vault_index_in(vs, mint) == j,
{
    assert(has_vault_in(vs, mint));
    let k = vault_index_in(vs, mint);
    if k < j {
        assert(vs[k].mint@ != vs[j].mint@);
    } else if k > j {
        assert(vs[j].mint@ != vs[k].mint@);
    }
}

/// Vault holdings are never negative in sum.
pub(crate) proof fn lemma_sum_nonneg(vs: Seq<VaultSlot>)
    ensures
        sum_vaults(vs) >= 0,
    decreases vs.len(),
{
    if vs.len() > 0 {
        lemma_sum_nonneg(vs.drop_first());
    }
}

/// Each single vault holds at most the sum of all of them.
pub(crate) proof fn lemma_sum_elem(vs: Seq<VaultSlot>, j: int)
    requires
        0 <= j < vs.len(),
    ensures
        vs[j].token.amount <= sum_vaults(vs),
    decreases vs.len(),
{
    if j == 0 {
        lemma_sum_nonneg(vs.drop_first());
    } else {
        lemma_sum_elem(vs.drop_first(), j - 1);
        lemma_sum_nonneg(vs.subrange(0, 1));
    }
}

/// Replacing one vault changes the sum by the difference of holdings.
pub(crate) proof fn lemma_sum_update(vs: Seq<VaultSlot>, j: int, v: VaultSlot)
    requires
        0 <= j < vs.len(),
    ensures
        sum_vaults(vs.update(j, v)) == sum_vaults(vs) - vs[j].token.amount + v.token.amount,
    decreases vs.len(),
{
    if j == 0 {
        assert(vs.update(0, v).drop_first() =~= vs.drop_first());
    } else {
        assert(vs.update(j, v).drop_first() =~= vs.drop_first().update(j - 1, v));
        lemma_sum_update(vs.drop_first(), j - 1, v);
    }
}

/// Appending a vault grows the sum by its holdings.
pub(crate) proof fn lemma_sum_push(vs: Seq<VaultSlot>, v: VaultSlot)
    ensures
        sum_vaults(vs.push(v)) == sum_vaults(vs) + v.token.amount,
    decreases vs.len(),
{
    reveal_with_fuel(sum_vaults, 3);
    if vs.len() == 0 {
        assert(vs.push(v)[0] == v);
        assert(vs.push(v).drop_first() =~= Seq::<VaultSlot>::empty());
    } else {
        assert(vs.push(v)[0] == vs[0]);
        assert(vs.push(v).drop_first() =~= vs.drop_first().push(v));
        lemma_sum_push(vs.drop_first(), v);
    }
}

/// Replacing one account without changing its owner preserves owner
/// distinctness and every lookup.
pub(crate) proof fn lemma_accounts_update(s: Seq<OwnerAccount>, i: int, a: OwnerAccount)
    requires
        owners_distinct(s),
        0 <= i < s.len(),
        a.owner@ == s[i].owner@,
    ensures
        owners_distinct(s.update(i, a)),
        forall|o: Seq<u8>| has_account_in(s.update(i, a), o) == has_account_in(s, o),
        forall|o: Seq<u8>|
            has_account_in(s, o) ==> account_index_in(s.update(i, a), o) == account_index_in(s, o),
{
    let s2 = s.update(i, a);
    assert(forall|k: int| 0 <= k < s.len() ==> (#[trigger] s2[k]).owner@ == s[k].owner@);
    assert forall|o: Seq<u8>| has_account_in(s2, o) == has_account_in(s, o) by {
        if has_account_in(s, o) {
            let k = account_index_in(s, o);
            assert(s2[k].owner@ == o);
            assert(has_account_in(s2, o));
        }
        if has_account_in(s2, o) {
            let k = account_index_in(s2, o);
            assert(s[k].owner@ == o);
            assert(has_account_in(s, o));
        }
    }
    assert forall|o: Seq<u8>| has_account_in(s, o) implies account_index_in(s2, o)
        == account_index_in(s, o) by {
        let k = account_index_in(s, o);
        assert(0 <= k < s.len() && s[k].owner@ == o);
        assert(s2[k].owner@ == o);
        lemma_account_index(s2, o, k);
    }
}

/// Appending an account for a new owner preserves distinctness and every
/// existing lookup, and makes the new owner resolvable at the last index.
pub(crate) proof fn lemma_accounts_push(s: Seq<OwnerAccount>, a: OwnerAccount)
    requires
        owners_distinct(s),
        !has_account_in(s, a.owner@),
    ensures
        owners_distinct(s.push(a)),
        has_account_in(s.push(a), a.owner@),
        account_index_in(s.push(a), a.owner@) == s.len(),
        forall|o: Seq<u8>|
            o != a.owner@ ==> has_account_in(s.push(a), o) == has_account_in(s, o),
        forall|o: Seq<u8>|
            has_account_in(s, o) ==> account_index_in(s.push(a), o) == account_index_in(s, o),
{
    let s2 = s.push(a);
    assert(forall|k: int| 0 <= k < s.len() ==> (#[trigger] s2[k]).owner@ == s[k].owner@);
    assert(s2[s.len() as int] == a);
    assert forall|i: int, j: int| 0 <= i < j < s2.len() implies (#[trigger] s2[i]).owner@ != (
    #[trigger] s2[j]).owner@ by {
        if j < s.len() {
            assert(s[i].owner@ != s[j].owner@);
        } else {
            assert(s2[j].owner@ == a.owner@);
            if s2[i].owner@ == a.owner@ {
                assert(s[i].owner@ == a.owner@);
                assert(has_account_in(s, a.owner@));
            }
        }
    }
    lemma_account_index(s2, a.owner@, s.len() as int);
    assert forall|o: Seq<u8>| o != a.owner@ implies has_account_in(s2, o) == has_account_in(
        s,
        o,
    ) by {
        if has_account_in(s, o) {
            let k = account_index_in(s, o);
            assert(s2[k].owner@ == o);
            assert(has_account_in(s2, o));
        }
        if has_account_in(s2, o) {
            let k = account_index_in(s2, o);
            assert(0 <= k < s2.len() && s2[k].owner@ == o);
            assert(k < s.len());
            assert(has_account_in(s, o));
        }
    }
    assert forall|o: Seq<u8>| has_account_in(s, o) implies account_index_in(s2, o)
        == account_index_in(s, o) by {
        let k = account_index_in(s, o);
        assert(0 <= k < s.len() && s[k].owner@ == o);
        assert(s2[k].owner@ == o);
        lemma_account_index(s2, o, k);
    }
}

/// Replacing one vault without changing its mint preserves mint
/// distinctness and every lookup.
pub(crate) proof fn lemma_vaults_update(vs: Seq<VaultSlot>, j: int, v: VaultSlot)
    requires
        vaults_distinct(vs),
        0 <= j < vs.len(),
        v.mint@ == vs[j].mint@,
    ensures
        vaults_distinct(vs.update(j, v)),
        forall|m: Seq<u8>| has_vault_in(vs.update(j, v), m) == has_vault_in(vs, m),
        forall|m: Seq<u8>|
            has_vault_in(vs, m) ==> vault_index_in(vs.update(j, v), m) == vault_index_in(vs, m),
{
    let vs2 = vs.update(j, v);
    assert(forall|k: int| 0 <= k < vs.len() ==> (#[trigger] vs2[k]).mint@ == vs[k].mint@);
    assert forall|m: Seq<u8>| has_vault_in(vs2, m) == has_vault_in(vs, m) by {
        if has_vault_in(vs, m) {
            let k = vault_index_in(vs, m);
            assert(vs2[k].mint@ == m);
            assert(has_vault_in(vs2, m));
        }
        if has_vault_in(vs2, m) {
            let k = vault_index_in(vs2, m);
            assert(vs[k].mint@ == m);
            assert(has_vault_in(vs, m));
        }
    }
    assert forall|m: Seq<u8>| has_vault_in(vs, m) implies vault_index_in(vs2, m)
        == vault_index_in(vs, m) by {
        let k = vault_index_in(vs, m);
        assert(0 <= k < vs.len() && vs[k].mint@ == m);
        assert(vs2[k].mint@ == m);
        lemma_vault_index(vs2, m, k);
    }
}

/// Appending a vault for a new mint preserves distinctness and every
/// existing lookup, and makes the new mint resolvable at the last index.
pub(crate) proof fn lemma_vaults_push(vs: Seq<VaultSlot>, v: VaultSlot)
    requires
        vaults_distinct(vs),
        !has_vault_in(vs, v.mint@),
    ensures
        vaults_distinct(vs.push(v)),
        has_vault_in(vs.push(v), v.mint@),
        vault_index_in(vs.push(v), v.mint@) == vs.len(),
        forall|m: Seq<u8>| m != v.mint@ ==> has_vault_in(vs.push(v), m) == has_vault_in(vs, m),
        forall|m: Seq<u8>|
            has_vault_in(vs, m) ==> vault_index_in(vs.push(v), m) == vault_index_in(vs, m),
{
    let vs2 = vs.push(v);
    assert(forall|k: int| 0 <= k < vs.len() ==> (#[trigger] vs2[k]).mint@ == vs[k].mint@);
    assert(vs2[vs.len() as int] == v);
    assert forall|i: int, j: int| 0 <= i < j < vs2.len() implies (#[trigger] vs2[i]).mint@ != (
    #[trigger] vs2[j]).mint@ by {
        if j < vs.len() {
            assert(vs[i].mint@ != vs[j].mint@);
        } else {
            assert(vs2[j].mint@ == v.mint@);
            if vs2[i].mint@ == v.mint@ {
                assert(vs[i].mint@ == v.mint@);
                assert(has_vault_in(vs, v.mint@));
            }
        }
    }
    lemma_vault_index(vs2, v.mint@, vs.len() as int);
    assert forall|m: Seq<u8>| m != v.mint@ implies has_vault_in(vs2, m) == has_vault_in(
        vs,
        m,
    ) by {
        if has_vault_in(vs, m) {
            let k = vault_index_in(vs, m);
            assert(vs2[k].mint@ == m);
            assert(has_vault_in(vs2, m));
        }
        if has_vault_in(vs2, m) {
            let k = vault_index_in(vs2, m);
            assert(0 <= k < vs2.len() && vs2[k].mint@ == m);
            assert(k < vs.len());
            assert(has_vault_in(vs, m));
        }
    }
    assert forall|m: Seq<u8>| has_vault_in(vs, m) implies vault_index_in(vs2, m)
        == vault_index_in(vs, m) by {
        let k = vault_index_in(vs, m);
        assert(0 <= k < vs.len() && vs[k].mint@ == m);
        assert(vs2[k].mint@ == m);
        lemma_vault_index(vs2, m, k);
    }
}

} // verus!
