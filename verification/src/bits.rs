//! Bit vectors (from the `bitvec` crate) as sequences of booleans, and the little-endian reading
//! and writing of integers in them.

use vstd::prelude::*;
use bitvec::field::BitField;
use bitvec::vec::BitVec;

verus! {

/// A bit vector of the `bitvec` crate (with its default `usize` storage and `Lsb0` order),
/// seen by the proofs only through `bits_of`.
#[verifier::external_body]
pub struct BitBuffer {
    bits: BitVec,
}

/// The bits held by a bit buffer, in index order.
pub uninterp spec fn bits_of(v: BitBuffer) -> Seq<bool>;

/// `2` to the power `n`.
pub open spec fn pow2(n: nat) -> nat
    decreases n,
{
    if n == 0 {
        1
    } else {
        2 * pow2((n - 1) as nat)
    }
}

/// The unsigned integer of which `bits` is the little-endian binary writing (the bit of index
/// `k` weighs `2^k`).
pub open spec fn bits_value(bits: Seq<bool>) -> nat
    decreases bits.len(),
{
    if bits.len() == 0 {
        0
    } else {
        (if bits[0] {
            1nat
        } else {
            0nat
        }) + 2 * bits_value(bits.drop_first())
    }
}

/// The `n` lowest bits of `value`, little-endian.
pub open spec fn low_bits(value: nat, n: nat) -> Seq<bool>
    decreases n,
{
    if n == 0 {
        Seq::empty()
    } else {
        seq![value % 2 == 1] + low_bits(value / 2, (n - 1) as nat)
    }
}

/// Reading back the `n` lowest bits of a value below `2^n` gives that value.
pub proof fn lemma_bits_value_of_low_bits(value: nat, n: nat)
    requires
        value < pow2(n),
    ensures
        low_bits(value, n).len() == n,
        bits_value(low_bits(value, n)) == value,
    decreases n,
{
    if n > 0 {
        lemma_bits_value_of_low_bits(value / 2, (n - 1) as nat);
        let s = low_bits(value, n);
        assert(s.drop_first() =~= low_bits(value / 2, (n - 1) as nat));
    }
}

/// The value of `n` bits is below `2^n`.
pub proof fn lemma_bits_value_bound(bits: Seq<bool>)
    ensures
        bits_value(bits) < pow2(bits.len()),
    decreases bits.len(),
{
    if bits.len() > 0 {
        lemma_bits_value_bound(bits.drop_first());
    }
}

/// `BitVec::new`: an empty bit vector.
#[verifier::external_body]
pub(crate) fn bitvec_new() -> (r: BitBuffer)
    ensures
        bits_of(r) == Seq::<bool>::empty(),
{
    BitBuffer { bits: BitVec::new() }
}

/// `BitVec::repeat`: `len` copies of `bit`. It panics beyond `usize::MAX >> 3` bits.
#[verifier::external_body]
pub(crate) fn bitvec_repeat(bit: bool, len: usize) -> (r: BitBuffer)
    requires
        len <= usize::MAX / 8,
    ensures
        bits_of(r) == Seq::new(len as nat, |_i: int| bit),
{
    BitBuffer { bits: BitVec::repeat(bit, len) }
}

/// `BitVec::len`: the number of bits.
#[verifier::external_body]
pub(crate) fn bitvec_len(v: &BitBuffer) -> (r: usize)
    ensures
        r == bits_of(*v).len(),
{
    v.bits.len()
}

/// `BitVec::is_empty`: whether there is no bit.
#[verifier::external_body]
pub(crate) fn bitvec_is_empty(v: &BitBuffer) -> (r: bool)
    ensures
        r == (bits_of(*v).len() == 0),
{
    v.bits.is_empty()
}

/// `BitSlice::get` on one index: the bit there, if the index is in bounds.
#[verifier::external_body]
pub(crate) fn bitvec_get(v: &BitBuffer, index: usize) -> (r: Option<bool>)
    ensures
        r == (if index < bits_of(*v).len() {
            Some(bits_of(*v)[index as int])
        } else {
            None
        }),
{
    match v.bits.get(index) {
        Some(bit) => Some(*bit),
        None => None,
    }
}

/// `BitSlice::set`: writes one bit. It panics if the index is out of bounds.
#[verifier::external_body]
pub(crate) fn bitvec_set(v: &mut BitBuffer, index: usize, value: bool)
    requires
        index < bits_of(*old(v)).len(),
    ensures
        bits_of(*final(v)) == bits_of(*old(v)).update(index as int, value),
    no_unwind
{
    v.bits.set(index, value);
}

/// `BitVec::resize`: truncates to `new_len` bits, or appends copies of `value` up to
/// `new_len` bits. It panics beyond `usize::MAX >> 3` bits.
#[verifier::external_body]
pub(crate) fn bitvec_resize(v: &mut BitBuffer, new_len: usize, value: bool)
    requires
        new_len <= usize::MAX / 8,
    ensures
        bits_of(*final(v)) == (if new_len <= bits_of(*old(v)).len() {
            bits_of(*old(v)).take(new_len as int)
        } else {
            bits_of(*old(v)) + Seq::new(
                (new_len - bits_of(*old(v)).len()) as nat,
                |_i: int| value,
            )
        }),
    no_unwind
{
    v.bits.resize(new_len, value);
}

/// `BitField::load_le` on the bits `inf..sup_excluded`, read as a `u32`: the bit of index
/// `inf + k` weighs `2^k`. It panics unless there are 1 to 32 bits to read.
#[verifier::external_body]
pub(crate) fn bitvec_load_le_u32(v: &BitBuffer, inf: usize, sup_excluded: usize) -> (r: u32)
    requires
        inf < sup_excluded <= bits_of(*v).len(),
        sup_excluded - inf <= 32,
    ensures
        r == bits_value(bits_of(*v).subrange(inf as int, sup_excluded as int)),
{
    v.bits[inf..sup_excluded].load_le::<u32>()
}

/// `BitField::store_le` on the bits `inf..sup_excluded`: they receive the lowest bits of
/// `value`, the bit of index `inf + k` getting the bit of weight `2^k`; the other bits are
/// unchanged. It panics unless there are 1 to 32 bits to write.
#[verifier::external_body]
pub(crate) fn bitvec_store_le_u32(v: &mut BitBuffer, inf: usize, sup_excluded: usize, value: u32)
    requires
        inf < sup_excluded <= bits_of(*old(v)).len(),
        sup_excluded - inf <= 32,
    ensures
        bits_of(*final(v)) == bits_of(*old(v)).subrange(0, inf as int) + low_bits(
            value as nat,
            (sup_excluded - inf) as nat,
        ) + bits_of(*old(v)).subrange(sup_excluded as int, bits_of(*old(v)).len() as int),
    no_unwind
{
    v.bits[inf..sup_excluded].store_le::<u32>(value);
}

} // verus!
