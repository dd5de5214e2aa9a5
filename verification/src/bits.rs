//! Bit helpers used by the bitboard code.
use vstd::prelude::*;
use vstd::std_specs::bits::u64_trailing_zeros;

verus! {

/// Whether bit `i` of `v` is set.
pub open spec fn bit64(v: u64, i: int) -> bool {
    0 <= i < 64 && (v >> (i as u64)) & 1u64 == 1u64
}

/// Index of the lowest set bit of a non-zero word.
pub open spec fn lowest_bit64(v: u64) -> int {
    u64_trailing_zeros(v) as int
}

pub proof fn lemma_blsr64(v: u64)
    requires
        v != 0,
    ensures
        forall|i: u64| i < 64 ==> (((v & ((v - 1) as u64)) >> i) & 1u64 == 1u64 <==>
            (i != u64_trailing_zeros(v) && (v >> i) & 1u64 == 1u64)),
{
    vstd::std_specs::bits::axiom_u64_trailing_zeros(v);
    let t = u64_trailing_zeros(v) as u64;
    assert(t < 64);
    assert forall|i: u64| i < 64 implies (((v & ((v - 1) as u64)) >> i) & 1u64 == 1u64 <==>
            (i != t && (v >> i) & 1u64 == 1u64)) by {
        assert(forall|j: u64| j < t ==> #[trigger] (v >> j) & 1u64 == 0u64);
        assert((v >> t) & 1u64 == 1u64);
        assert(v != 0 && t < 64 && (v >> t) & 1u64 == 1u64 && v << ((64 - t) as u64) == 0 ==>
            (((v & ((v - 1) as u64)) >> i) & 1u64 == 1u64 <==> (i != t && (v >> i) & 1u64 == 1u64)))
            by (bit_vector)
            requires i < 64;
    }
}

/// Clears the lowest set bit of `v`.
pub fn blsr64(v: u64) -> (r: u64)
    requires
        v != 0,
    ensures
        r == v & (v - 1) as u64,
        forall|i: int| 0 <= i < 64 ==> (bit64(r, i) <==> (i != lowest_bit64(v) && bit64(v, i))),
{
    proof {
        lemma_blsr64(v);
        assert forall|i: int| 0 <= i < 64 implies (bit64(v & ((v - 1) as u64), i) <==> (i != lowest_bit64(v) && bit64(v, i))) by {
            let k = i as u64;
            assert(((v & ((v - 1) as u64)) >> k) & 1u64 == 1u64 <==> (k != u64_trailing_zeros(v) && (v >> k) & 1u64 == 1u64));
        }
    }
    v & (v - 1)
}

/// Returns the index of the lowest set bit of `*bits` and clears that bit.
pub fn pop_lsb(bits: &mut u64) -> (index: u64)
    requires
        *old(bits) != 0,
    ensures
        index == lowest_bit64(*old(bits)),
        index < 64,
        bit64(*old(bits), index as int),
        forall|j: int| 0 <= j < index ==> !bit64(*old(bits), j),
        *final(bits) == *old(bits) & (*old(bits) - 1) as u64,
        forall|i: int| 0 <= i < 64 ==> (bit64(*final(bits), i) <==> (i != index && bit64(*old(bits), i))),
{
    let index = lsb64(*bits);
    *bits = blsr64(*bits);
    index
}

/// Returns the index of the lowest set bit of `bits` (64 when `bits` is zero).
pub fn lsb64(bits: u64) -> (r: u64)
    ensures
        r == u64_trailing_zeros(bits),
        bits == 0 <==> r == 64,
        r < 64 ==> bit64(bits, r as int),
        forall|j: int| 0 <= j < r && j < 64 ==> !bit64(bits, j),
{
    proof {
        vstd::std_specs::bits::axiom_u64_trailing_zeros(bits);
    }
    let r = bits.trailing_zeros();
    proof {
        assert forall|j: int| 0 <= j < r && j < 64 implies !bit64(bits, j) by {
            let k = j as u64;
            assert((bits >> k) & 1u64 == 0u64);
        }
    }
    r as u64
}

} // verus!
