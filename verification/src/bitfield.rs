//! Bit vectors of the `bit_vec` crate, seen as sequences of booleans, and
//! the byte layout they use: the most significant bit of each byte first.

use bit_vec::BitVec;
use vstd::prelude::*;

verus! {

#[verifier::external_type_specification]
#[verifier::external_body]
#[verifier::reject_recursive_types(B)]
pub struct ExBitVec<B>(BitVec<B>);

/// The bits that a `BitVec` holds, in order.
pub uninterp spec fn bitvec_bits(v: BitVec) -> Seq<bool>;

/// Bit `k` of byte `b`, counting from the least significant bit.
pub open spec fn byte_bit(b: u8, k: nat) -> bool {
    (b as nat / pow2_8(k)) % 2 == 1
}

/// `2 ** k` for the bit positions of a byte.
pub open spec fn pow2_8(k: nat) -> nat {
    if k == 0 {
        1
    } else if k == 1 {
        2
    } else if k == 2 {
        4
    } else if k == 3 {
        8
    } else if k == 4 {
        16
    } else if k == 5 {
        32
    } else if k == 6 {
        64
    } else {
        128
    }
}

/// The bits of `bytes`, eight per byte, most significant bit first.
pub open spec fn bytes_to_bits(bytes: Seq<u8>) -> Seq<bool> {
    Seq::new(8 * bytes.len(), |i: int| byte_bit(bytes[i / 8], (7 - i % 8) as nat))
}

/// The weight of bit `p` of `bits` in the byte it falls in: `w` when the
/// bit exists and is set, else 0.
pub open spec fn bit_weight(bits: Seq<bool>, p: int, w: nat) -> nat {
    if p < bits.len() && bits[p] {
        w
    } else {
        0
    }
}

/// Byte `j` of the packing of `bits`: bits `8j .. 8j + 8`, the first one
/// as the most significant; bits past the end count as 0.
pub open spec fn bits_byte(bits: Seq<bool>, j: int) -> u8 {
    (bit_weight(bits, 8 * j, 128) + bit_weight(bits, 8 * j + 1, 64) + bit_weight(bits, 8 * j + 2, 32)
        + bit_weight(bits, 8 * j + 3, 16) + bit_weight(bits, 8 * j + 4, 8) + bit_weight(
        bits,
        8 * j + 5,
        4,
    ) + bit_weight(bits, 8 * j + 6, 2) + bit_weight(bits, 8 * j + 7, 1)) as u8
}

/// The bytes that hold `bits`, eight bits per byte, the last byte filled up
/// with zero bits.
pub open spec fn bits_to_bytes(bits: Seq<bool>) -> Seq<u8> {
    Seq::new(
        if bits.len() % 8 == 0 {
            bits.len() / 8
        } else {
            bits.len() / 8 + 1
        },
        |j: int| bits_byte(bits, j),
    )
}

/// Calls `BitVec::from_bytes`. Trusted: the result holds the bits of
/// `bytes`, most significant bit of each byte first (as its documentation
/// states); it panics when `8 * bytes.len()` overflows.
#[verifier::external_body]
pub(crate) fn bitvec_from_bytes(bytes: &[u8]) -> (v: BitVec)
    requires
        8 * bytes@.len() <= usize::MAX,
    ensures
        bitvec_bits(v) == bytes_to_bits(bytes@),
{
    BitVec::from_bytes(bytes)
}

/// Calls `BitVec::len`. Trusted: the number of bits held.
#[verifier::external_body]
pub(crate) fn bitvec_len(v: &BitVec) -> (n: usize)
    ensures
        n == bitvec_bits(*v).len(),
{
    v.len()
}

/// Indexes a `BitVec` (its `Index<usize>`, which calls `get`). Trusted:
/// bit `i`; it panics when `i` is out of bounds.
#[verifier::external_body]
pub(crate) fn bitvec_index(v: &BitVec, i: usize) -> (b: bool)
    requires
        i < bitvec_bits(*v).len(),
    ensures
        b == bitvec_bits(*v)[i as int],
{
    v[i]
}

/// Calls `BitVec::set`. Trusted: bit `i` becomes `x` and no other bit
/// changes; it panics when `i` is out of bounds.
#[verifier::external_body]
pub(crate) fn bitvec_set(v: &mut BitVec, i: usize, x: bool)
    requires
        i < bitvec_bits(*old(v)).len(),
    ensures
        bitvec_bits(*final(v)) == bitvec_bits(*old(v)).update(i as int, x),
{
    v.set(i, x)
}

/// Calls `BitVec::push`. Trusted: `elem` is appended; it panics when the
/// length overflows.
#[verifier::external_body]
pub(crate) fn bitvec_push(v: &mut BitVec, elem: bool)
    requires
        bitvec_bits(*old(v)).len() < usize::MAX,
    ensures
        bitvec_bits(*final(v)) == bitvec_bits(*old(v)).push(elem),
{
    v.push(elem)
}

/// Calls `BitVec::to_bytes`. Trusted: the bits packed eight per byte, the
/// first bit as the high-order bit of the first byte, trailing bits filled
/// with `false` (as its documentation states).
#[verifier::external_body]
pub(crate) fn bitvec_to_bytes(v: &BitVec) -> (bytes: Vec<u8>)
    ensures
        bytes@ == bits_to_bytes(bitvec_bits(*v)),
{
    v.to_bytes()
}

/// The weighted bits of a byte add up to the byte.
proof fn lemma_byte_weights(b: u8)
    ensures
        (if (b / 128) % 2 == 1 { 128int } else { 0 }) + (if (b / 64) % 2 == 1 { 64int } else { 0 })
            + (if (b / 32) % 2 == 1 { 32int } else { 0 }) + (if (b / 16) % 2 == 1 { 16int } else { 0 })
            + (if (b / 8) % 2 == 1 { 8int } else { 0 }) + (if (b / 4) % 2 == 1 { 4int } else { 0 }) + (
        if (b / 2) % 2 == 1 { 2int } else { 0 }) + (if b % 2 == 1 { 1int } else { 0 }) == b,
{
    assert((if (b / 128) % 2 == 1 { 128u8 } else { 0 }) + (if (b / 64) % 2 == 1 { 64u8 } else { 0 })
        + (if (b / 32) % 2 == 1 { 32u8 } else { 0 }) + (if (b / 16) % 2 == 1 { 16u8 } else { 0 }) + (
    if (b / 8) % 2 == 1 { 8u8 } else { 0 }) + (if (b / 4) % 2 == 1 { 4u8 } else { 0 }) + (if (b / 2)
        % 2 == 1 { 2u8 } else { 0 }) + (if b % 2 == 1 { 1u8 } else { 0 }) == b) by (bit_vector);
}

/// Byte `j` of the packing of `bits` is byte `j` of `bytes` when the bits
/// `8j .. 8j + 8` are those of `bytes`.
proof fn lemma_bits_byte_of(bits: Seq<bool>, bytes: Seq<u8>, j: int)
    requires
        0 <= j < bytes.len(),
        8 * j + 8 <= bits.len(),
        forall|i: int| 8 * j <= i < 8 * j + 8 ==> bits[i] == bytes_to_bits(bytes)[i],
    ensures
        bits_byte(bits, j) == bytes[j],
{
    let b = bytes[j];
    let bb = bytes_to_bits(bytes);
    assert(bb[8 * j] == byte_bit(b, 7));
    assert(bb[8 * j + 1] == byte_bit(b, 6));
    assert(bb[8 * j + 2] == byte_bit(b, 5));
    assert(bb[8 * j + 3] == byte_bit(b, 4));
    assert(bb[8 * j + 4] == byte_bit(b, 3));
    assert(bb[8 * j + 5] == byte_bit(b, 2));
    assert(bb[8 * j + 6] == byte_bit(b, 1));
    assert(bb[8 * j + 7] == byte_bit(b, 0));
    lemma_byte_weights(b);
}

/// Packing the bits of some bytes gives the bytes back.
pub proof fn lemma_bytes_bits_roundtrip(bytes: Seq<u8>)
    ensures
        bits_to_bytes(bytes_to_bits(bytes)) == bytes,
{
    let bits = bytes_to_bits(bytes);
    assert forall|j: int| 0 <= j < bytes.len() implies #[trigger] bits_to_bytes(bits)[j]
        == bytes[j] by {
        lemma_bits_byte_of(bits, bytes, j);
    }
    assert(bits_to_bytes(bits) =~= bytes);
}

/// Packing the bits of some bytes followed by one set bit gives the bytes
/// followed by `0b1000_0000`.
pub proof fn lemma_bytes_bits_push_true(bytes: Seq<u8>)
    ensures
        bits_to_bytes(bytes_to_bits(bytes).push(true)) == bytes.push(128u8),
{
    let bits = bytes_to_bits(bytes).push(true);
    let n = bytes.len() as int;
    assert forall|j: int| 0 <= j < n implies #[trigger] bits_to_bytes(bits)[j] == bytes[j] by {
        lemma_bits_byte_of(bits, bytes, j);
    }
    assert(bits_to_bytes(bits)[n] == 128u8);
    assert(bits_to_bytes(bits) =~= bytes.push(128u8));
}

/// `bits` with its last set bit cleared; unchanged when no bit is set.
pub open spec fn clear_last_set(bits: Seq<bool>) -> Seq<bool>
    decreases bits.len(),
{
    if bits.len() == 0 {
        bits
    } else if bits.last() {
        bits.drop_last().push(false)
    } else {
        clear_last_set(bits.drop_last()).push(false)
    }
}

/// When bit `i` is set and every later bit is clear, clearing the last set
/// bit clears bit `i`.
pub proof fn lemma_clear_last_set_at(bits: Seq<bool>, i: int)
    requires
        0 <= i < bits.len(),
        bits[i],
        forall|k: int| i < k < bits.len() ==> !bits[k],
    ensures
        clear_last_set(bits) == bits.update(i, false),
    decreases bits.len(),
{
    if i == bits.len() - 1 {
        assert(bits.drop_last().push(false) =~= bits.update(i, false));
    } else {
        lemma_clear_last_set_at(bits.drop_last(), i);
        assert(bits.drop_last().update(i, false).push(false) =~= bits.update(i, false));
    }
}

/// When no bit is set, clearing the last set bit changes nothing.
pub proof fn lemma_clear_last_set_none(bits: Seq<bool>)
    requires
        forall|k: int| 0 <= k < bits.len() ==> !bits[k],
    ensures
        clear_last_set(bits) == bits,
    decreases bits.len(),
{
    if bits.len() > 0 {
        lemma_clear_last_set_none(bits.drop_last());
        assert(bits.drop_last().push(false) =~= bits);
    }
}

/// Clearing the last set bit keeps the length.
pub proof fn lemma_clear_last_set_len(bits: Seq<bool>)
    ensures
        clear_last_set(bits).len() == bits.len(),
    decreases bits.len(),
{
    if bits.len() > 0 {
        lemma_clear_last_set_len(bits.drop_last());
    }
}

/// The bits of two byte strings one after the other are the bits of the
/// first, then those of the second.
pub proof fn lemma_bytes_to_bits_append(a: Seq<u8>, b: Seq<u8>)
    ensures
        bytes_to_bits(a + b) == bytes_to_bits(a) + bytes_to_bits(b),
{
    let l = bytes_to_bits(a + b);
    let r = bytes_to_bits(a) + bytes_to_bits(b);
    assert forall|i: int| 0 <= i < l.len() implies l[i] == r[i] by {
        if i >= 8 * a.len() {
            let k = i - 8 * a.len();
            assert(i / 8 == a.len() + k / 8);
            assert(i % 8 == k % 8);
        }
    }
    assert(l =~= r);
}

} // verus!
