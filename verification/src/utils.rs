use vstd::prelude::*;

use crate::state::Address;

verus! {

/// The domain-separation tag under which every escrow storage slot is
/// derived: the bytes of "escrow".
pub open spec fn escrow_seed() -> Seq<u8> {
    seq![101u8, 115u8, 99u8, 114u8, 111u8, 119u8]
}

/// Seed components from which an owner's ledger entry address is derived.
pub open spec fn entry_seeds(owner: Seq<u8>) -> Seq<Seq<u8>> {
    seq![escrow_seed(), owner]
}

/// Seed components from which the vault address for one (owner, mint) pair
/// is derived; the mint and the longer seed list keep vault addresses apart
/// from entry addresses even for the same owner.
pub open spec fn vault_seeds(owner: Seq<u8>, mint: Seq<u8>) -> Seq<Seq<u8>> {
    seq![escrow_seed(), owner, mint]
}

/// The domain-separation tag as bytes.
pub fn escrow_seed_bytes() -> (r: Vec<u8>)
    ensures
        r@ == escrow_seed(),
{
    let mut v: Vec<u8> = Vec::new();
    v.push(101);
    v.push(115);
    v.push(99);
    v.push(114);
    v.push(111);
    v.push(119);
    proof {
        assert(v@ =~= escrow_seed());
    }
    v
}

/// An address copied out as a byte vector, for use as a seed component.
pub fn address_bytes(a: &Address) -> (r: Vec<u8>)
    ensures
        r@ == a@,
{
    let mut v: Vec<u8> = Vec::new();
    let mut i: usize = 0;
    while i < 32
        invariant
            i <= 32,
            v@.len() == i,
            forall|k: int| 0 <= k < i ==> v@[k] == a@[k],
        decreases 32 - i,
    {
        v.push(a[i]);
        i += 1;
    }
    proof {
        assert(v@ =~= a@);
    }
    v
}

/// The seed components of an owner's ledger entry.
pub fn get_escrow_seeds(authority: &Address) -> (r: Vec<Vec<u8>>)
    ensures
        r.deep_view() == entry_seeds(authority@),
{
    let mut r: Vec<Vec<u8>> = Vec::new();
    r.push(escrow_seed_bytes());
    r.push(address_bytes(authority));
    proof {
        assert(r.deep_view() =~~= entry_seeds(authority@));
    }
    r
}

/// The seed components of the vault for one (owner, mint) pair.
pub fn get_escrow_token_seeds(authority: &Address, mint: &Address) -> (r: Vec<Vec<u8>>)
    ensures
        r.deep_view() == vault_seeds(authority@, mint@),
{
    let mut r: Vec<Vec<u8>> = Vec::new();
    r.push(escrow_seed_bytes());
    r.push(address_bytes(authority));
    r.push(address_bytes(mint));
    proof {
        assert(r.deep_view() =~~= vault_seeds(authority@, mint@));
    }
    r
}

} // verus!
