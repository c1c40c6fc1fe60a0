//! Fixed-length bit vectors, kept in `bitvec`'s `BitVec`.
//!
//! Verus cannot look inside a `BitVec`. What one holds is named by
//! [`bit_seq`], and each operation used by this crate is a small function
//! whose contract is taken on trust from `bitvec`'s source.

use bitvec::order::Lsb0;
use bitvec::vec::BitVec;
use vstd::prelude::*;

verus! {

/// A bit vector of `bitvec`, whose inside Verus does not read.
#[verifier::external_body]
pub struct Bits {
    inner: BitVec<usize, Lsb0>,
}

/// The bits that a bit vector holds, in index order.
pub uninterp spec fn bit_seq(v: Bits) -> Seq<bool>;

/// The largest length this crate asks of a bit vector.
pub const MAX_BITS: usize = 0x10000;

/// `BitVec::repeat`: a new bit vector of `len` bits, all equal to `bit`.
/// `bitvec` panics on a length that a bit vector cannot address, which is
/// an eighth of the address space; [`MAX_BITS`] stays far below that.
#[verifier::external_body]
pub(crate) fn bits_repeat(bit: bool, len: usize) -> (r: Bits)
    requires
        len <= MAX_BITS,
    ensures
        bit_seq(r) == Seq::new(len as nat, |i: int| bit),
{
    Bits { inner: BitVec::repeat(bit, len) }
}

/// `BitSlice::fill`: every bit becomes `bit`; the length stays.
#[verifier::external_body]
pub(crate) fn bits_fill(v: &mut Bits, bit: bool)
    ensures
        bit_seq(*final(v)) == Seq::new(bit_seq(*old(v)).len(), |i: int| bit),
{
    v.inner.fill(bit)
}

/// `BitSlice::set`: the bit at `index` becomes `bit`; the others stay.
#[verifier::external_body]
pub(crate) fn bits_set(v: &mut Bits, index: usize, bit: bool)
    requires
        index < bit_seq(*old(v)).len(),
    ensures
        bit_seq(*final(v)) == bit_seq(*old(v)).update(index as int, bit),
{
    v.inner.set(index, bit)
}

/// Indexing a `BitSlice` by a `usize`: the bit at `index`.
#[verifier::external_body]
pub(crate) fn bits_get(v: &Bits, index: usize) -> (r: bool)
    requires
        index < bit_seq(*v).len(),
    ensures
        r == bit_seq(*v)[index as int],
{
    v.inner[index]
}

/// The number of `true` entries of a sequence of bits.
pub open spec fn count_true(s: Seq<bool>) -> nat
    decreases s.len(),
{
    if s.len() == 0 {
        0
    } else {
        count_true(s.drop_last()) + if s.last() { 1nat } else { 0nat }
    }
}

/// `BitSlice::count_ones`: how many bits are set.
#[verifier::external_body]
pub(crate) fn bits_count_ones(v: &Bits) -> (r: usize)
    ensures
        r == count_true(bit_seq(*v)),
{
    v.inner.count_ones()
}

/// `&=` between two bit vectors (`BitAndAssign`): each bit of `v` is kept
/// only where `other` has a set bit at the same index; bits of `v` beyond
/// the end of `other` are cleared, and the length of `v` stays.
#[verifier::external_body]
pub(crate) fn bits_and(v: &mut Bits, other: &Bits)
    ensures
        bit_seq(*final(v)) == Seq::new(
            bit_seq(*old(v)).len(),
            |i: int| bit_seq(*old(v))[i] && i < bit_seq(*other).len() && bit_seq(*other)[i],
        ),
{
    v.inner &= &other.inner;
}

/// A sequence has at most as many set bits as it has bits.
pub proof fn lemma_count_true_bound(s: Seq<bool>)
    ensures
        count_true(s) <= s.len(),
    decreases s.len(),
{
    if s.len() > 0 {
        lemma_count_true_bound(s.drop_last());
    }
}

} // verus!
