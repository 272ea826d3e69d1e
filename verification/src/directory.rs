use vstd::prelude::*;

use crate::state::Address;
use crate::utils::{entry_seeds, get_escrow_seeds, get_escrow_token_seeds, vault_seeds};

verus! {

/// The address, if any, that the directory's collision-resistant derivation
/// scheme assigns to a list of seed components. The derivation is a pure
/// function of the seed bytes, so the same components always resolve to the
/// same address.
pub uninterp spec fn pda_of(seeds: Seq<Seq<u8>>) -> Option<Seq<u8>>;

/// Relies on anchor_lang's `Pubkey::try_find_program_address`: off-chain it
/// hashes the seed components together with a program id (one fixed id, the
/// default address, is used for the whole directory) and a bump byte into a
/// 32-byte address, returning `None` only in the statistically improbable
/// event that no bump yields a usable address. The result depends on the
/// seed bytes alone, which `pda_of` names.
#[verifier::external_body]
pub(crate) fn find_pda(seeds: &Vec<Vec<u8>>) -> (r: Option<Address>)
    ensures
        (match r {
            Some(a) => pda_of(seeds.deep_view()) == Some(a@),
            None => pda_of(seeds.deep_view()) is None,
        }),
{
    let refs: Vec<&[u8]> = seeds.iter().map(|s| s.as_slice()).collect();
    anchor_lang::prelude::Pubkey::try_find_program_address(
        &refs,
        &anchor_lang::prelude::Pubkey::default(),
    ).map(|(address, _bump)| address.to_bytes())
}

/// The storage address of an owner's ledger entry: a pure function of the
/// owner identity under the escrow tag.
pub fn derive_entry_address(owner: &Address) -> (r: Option<Address>)
    ensures
        (match r {
            Some(a) => pda_of(entry_seeds(owner@)) == Some(a@),
            None => pda_of(entry_seeds(owner@)) is None,
        }),
{
    let seeds = get_escrow_seeds(owner);
    find_pda(&seeds)
}

/// The storage address of the vault holding one (owner, mint) pair's tokens:
/// a pure function of the two identities under the escrow tag.
pub fn derive_vault_address(owner: &Address, mint: &Address) -> (r: Option<Address>)
    ensures
        (match r {
            Some(a) => pda_of(vault_seeds(owner@, mint@)) == Some(a@),
            None => pda_of(vault_seeds(owner@, mint@)) is None,
        }),
{
    let seeds = get_escrow_token_seeds(owner, mint);
    find_pda(&seeds)
}

/// Law: address derivation is deterministic. The derived entry address is a
/// pure function of the owner identity, and the derived vault address a pure
/// function of the (owner, mint) pair, so deriving twice from equal inputs
/// always yields identical output.
pub proof fn lemma_derivation_deterministic(o1: Seq<u8>, o2: Seq<u8>, m1: Seq<u8>, m2: Seq<u8>)
    requires
        o1 == o2,
        m1 == m2,
    ensures
        pda_of(entry_seeds(o1)) == pda_of(entry_seeds(o2)),
        pda_of(vault_seeds(o1, m1)) == pda_of(vault_seeds(o2, m2)),
{
}

} // verus!
