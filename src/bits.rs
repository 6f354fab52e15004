//! The packed cell storage: `fixedbitset::FixedBitSet` seen as a sequence of bits.

use fixedbitset::FixedBitSet;
use vstd::prelude::*;

verus! {

#[verifier::external_type_specification]
#[verifier::external_body]
pub struct ExFixedBitSet(FixedBitSet);

/// The bits that a `FixedBitSet` holds, one per position in `0..len()`.
pub uninterp spec fn bits_of(s: FixedBitSet) -> Seq<bool>;

/// Relies on `FixedBitSet::with_capacity`: `n` bits, all clear.
#[verifier::external_body]
pub(crate) fn bits_cleared(n: usize) -> (r: FixedBitSet)
    ensures
        bits_of(r) == Seq::new(n as nat, |i: int| false),
{
    FixedBitSet::with_capacity(n)
}

/// Relies on `FixedBitSet`'s `Index<usize>`: the bit at `i`.
#[verifier::external_body]
pub(crate) fn bit_at(s: &FixedBitSet, i: usize) -> (r: bool)
    requires
        i < bits_of(*s).len(),
    ensures
        r == bits_of(*s)[i as int],
{
    s[i]
}

/// Relies on `FixedBitSet::set`: writes one bit, and panics past the end.
#[verifier::external_body]
pub(crate) fn set_bit(s: &mut FixedBitSet, i: usize, enabled: bool)
    requires
        i < bits_of(*old(s)).len(),
    ensures
        bits_of(*final(s)) == bits_of(*old(s)).update(i as int, enabled),
{
    s.set(i, enabled)
}

/// Relies on `FixedBitSet`'s `Clone`: the copy holds the same bits.
#[verifier::external_body]
pub(crate) fn bits_copy(s: &FixedBitSet) -> (r: FixedBitSet)
    ensures
        bits_of(r) == bits_of(*s),
{
    s.clone()
}

/// Relies on `FixedBitSet::as_slice`: the `u32` blocks, bit `i` being bit `i % 32`
/// of block `i / 32`.
#[verifier::external_body]
pub(crate) fn bits_blocks(s: &FixedBitSet) -> (r: &[u32])
    ensures
        r@.len() == (bits_of(*s).len() + 31) / 32,
        forall|i: int|
            0 <= i < bits_of(*s).len() ==> (bits_of(*s)[i] <==> (r@[i / 32] >> ((i % 32) as u32))
                & 1 == 1),
{
    s.as_slice()
}

} // verus!
