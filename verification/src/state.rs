use vstd::prelude::*;

verus! {

/// A 32-byte identity, as used for owners, token mints and derived storage
/// addresses alike.
pub type Address = [u8; 32];

/// The accounting record of one owner's escrowed units: who may withdraw
/// them, and how many units the paired vault is expected to hold in total.
#[derive(Clone, Copy, Debug)]
pub struct Escrow {
    /// The sole identity allowed to withdraw from this entry.
    pub authority: Address,
    /// Total units escrowed under this entry, across all of the owner's vaults.
    pub amount: u64,
}

/// Byte-wise equality of two addresses.
pub fn address_eq(a: &Address, b: &Address) -> (r: bool)
    ensures
        r <==> a@ == b@,
{
    let mut i: usize = 0;
    while i < 32
        invariant
            i <= 32,
            forall|k: int| 0 <= k < i ==> a@[k] == b@[k],
        decreases 32 - i,
    {
        if a[i] != b[i] {
            return false;
        }
        i += 1;
    }
    proof {
        assert(a@ =~= b@);
    }
    true
}

} // verus!
