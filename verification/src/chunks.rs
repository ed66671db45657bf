//! The arithmetic of chunks: powers of two, rounding up to whole 32-byte
//! chunks, and the zero padding that packing adds.

use vstd::prelude::*;

verus! {

/// `n` zero bytes.
pub open spec fn zeros(n: nat) -> Seq<u8> {
    Seq::new(n, |i: int| 0u8)
}

/// `n` is a power of two (1, 2, 4, ...).
pub open spec fn is_pow2(n: nat) -> bool
    decreases n,
{
    if n == 0 {
        false
    } else if n == 1 {
        true
    } else if n % 2 == 1 {
        false
    } else {
        is_pow2(n / 2)
    }
}

/// The smallest power of two that is at least `n` (1 for 0).
pub open spec fn next_pow2(n: nat) -> nat
    decreases n,
{
    if n <= 1 {
        1
    } else {
        2 * next_pow2(((n + 1) / 2) as nat)
    }
}

/// The number of 32-byte chunks that `n` bytes occupy.
pub open spec fn ceil32(n: nat) -> nat {
    (n + 31) / 32
}

/// `n` rounded up to a multiple of 32.
pub open spec fn round_up32(n: nat) -> nat {
    if n % 32 == 0 {
        n
    } else {
        (n + 32 - n % 32) as nat
    }
}

/// The length of a packed value of `n` bytes: one chunk for up to 32 bytes,
/// else the number of chunks rounded up to a power of two.
pub open spec fn packed_len(n: nat) -> nat {
    if n <= 32 {
        32
    } else {
        32 * next_pow2(ceil32(n))
    }
}

/// Packing: the bytes followed by zeros up to `packed_len`.
pub open spec fn pack_spec(s: Seq<u8>) -> Seq<u8> {
    s + zeros((packed_len(s.len()) - s.len()) as nat)
}

pub proof fn lemma_next_pow2(n: nat)
    ensures
        is_pow2(next_pow2(n)),
        next_pow2(n) >= n,
        next_pow2(n) >= 1,
    decreases n,
{
    if n > 1 {
        lemma_next_pow2(((n + 1) / 2) as nat);
        let p = next_pow2(((n + 1) / 2) as nat);
        assert((2 * p) / 2 == p);
    }
}

/// A power of two that is at least `n` is at least `next_pow2(n)`.
pub proof fn lemma_next_pow2_min(n: nat, p: nat)
    requires
        is_pow2(p),
        p >= n,
    ensures
        p >= next_pow2(n),
    decreases n,
{
    if n > 1 {
        assert(p != 1);
        assert(p % 2 == 0);
        lemma_next_pow2_min(((n + 1) / 2) as nat, p / 2);
    }
}

/// `next_pow2` of a power of two is the number itself.
pub proof fn lemma_next_pow2_of_pow2(n: nat)
    requires
        is_pow2(n),
    ensures
        next_pow2(n) == n,
{
    lemma_next_pow2(n);
    lemma_next_pow2_min(n, n);
}

/// Of two powers of two, the smaller is at most half the larger.
pub proof fn lemma_pow2_double(p: nat, q: nat)
    requires
        is_pow2(p),
        is_pow2(q),
        p < q,
    ensures
        2 * p <= q,
    decreases q,
{
    if p > 1 {
        assert(q % 2 == 0);
        lemma_pow2_double(p / 2, q / 2);
    }
}

/// Twice a power of two is a power of two.
pub proof fn lemma_pow2_times2(p: nat)
    requires
        is_pow2(p),
    ensures
        is_pow2(2 * p),
{
    assert((2 * p) / 2 == p);
}

/// `32 * c` is a power of two exactly when `c` is.
pub proof fn lemma_pow2_times32(c: nat)
    ensures
        is_pow2(32 * c) == is_pow2(c),
{
    if c > 0 {
        assert((32 * c) / 2 == 16 * c);
        assert((16 * c) / 2 == 8 * c);
        assert((8 * c) / 2 == 4 * c);
        assert((4 * c) / 2 == 2 * c);
        assert((2 * c) / 2 == c);
        assert(is_pow2(32 * c) == is_pow2(16 * c));
        assert(is_pow2(16 * c) == is_pow2(8 * c));
        assert(is_pow2(8 * c) == is_pow2(4 * c));
        assert(is_pow2(4 * c) == is_pow2(2 * c));
        assert(is_pow2(2 * c) == is_pow2(c));
    }
}

/// The length of a packed value: at least the value's own length, one
/// chunk or more, a power-of-two number of whole chunks.
pub proof fn lemma_packed_len(n: nat)
    ensures
        packed_len(n) >= n,
        packed_len(n) >= 32,
        packed_len(n) % 32 == 0,
        is_pow2(packed_len(n) / 32),
{
    if n > 32 {
        lemma_next_pow2(ceil32(n));
        assert(32 * ceil32(n) >= n);
        assert((32 * next_pow2(ceil32(n))) / 32 == next_pow2(ceil32(n)));
    }
}

/// The length of a packed sequence is `packed_len` of its length.
pub proof fn lemma_pack_spec_len(s: Seq<u8>)
    ensures
        pack_spec(s).len() == packed_len(s.len()),
        pack_spec(s).len() % 32 == 0,
        pack_spec(s).len() >= 32,
        is_pow2(pack_spec(s).len() / 32),
{
    lemma_packed_len(s.len());
}

/// Packing a packed sequence changes nothing.
pub proof fn lemma_pack_idempotent(s: Seq<u8>)
    ensures
        pack_spec(pack_spec(s)) == pack_spec(s),
{
    lemma_pack_spec_len(s);
    let n = s.len();
    let m = packed_len(n);
    if n > 32 {
        let c = ceil32(n);
        lemma_next_pow2(c);
        assert(c >= 2);
        lemma_next_pow2_min(c, next_pow2(c));
        assert(next_pow2(c) >= 2);
        assert(m == 32 * next_pow2(c));
        assert(ceil32(m) == next_pow2(c));
        lemma_next_pow2_of_pow2(next_pow2(c));
    }
    assert(packed_len(m) == m);
    assert(pack_spec(pack_spec(s)) =~= pack_spec(s));
}

/// Whether `n` is a power of two.
pub fn is_power_of_two(n: usize) -> (r: bool)
    ensures
        r == is_pow2(n as nat),
{
    if n == 0 {
        return false;
    }
    let mut m: usize = n;
    while m % 2 == 0
        invariant
            m >= 1,
            is_pow2(m as nat) == is_pow2(n as nat),
        decreases m,
    {
        m = m / 2;
    }
    m == 1
}

/// The smallest power of two that is at least `n`.
pub fn next_power_of_two(n: usize) -> (r: usize)
    requires
        next_pow2(n as nat) <= usize::MAX,
    ensures
        r == next_pow2(n as nat),
{
    proof {
        lemma_next_pow2(n as nat);
    }
    let mut p: usize = 1;
    while p < n
        invariant
            is_pow2(p as nat),
            p <= next_pow2(n as nat),
            next_pow2(n as nat) <= usize::MAX,
        decreases next_pow2(n as nat) - p,
    {
        proof {
            lemma_next_pow2(n as nat);
            lemma_pow2_double(p as nat, next_pow2(n as nat));
            lemma_pow2_times2(p as nat);
        }
        p = p * 2;
    }
    proof {
        lemma_next_pow2_min(n as nat, p as nat);
    }
    p
}

/// The packed length of `n` bytes, `None` when it does not fit in a
/// `usize`.
pub fn packed_len_checked(n: usize) -> (r: Option<usize>)
    ensures
        r matches Some(m) ==> m == packed_len(n as nat),
        r is None ==> packed_len(n as nat) > usize::MAX,
{
    if n <= 32 {
        return Some(32);
    }
    let c: usize = if n % 32 == 0 {
        n / 32
    } else {
        n / 32 + 1
    };
    assert(c == ceil32(n as nat));
    proof {
        lemma_next_pow2(c as nat);
    }
    let mut p: usize = 1;
    while p < c
        invariant
            c >= 1,
            is_pow2(p as nat),
            p <= next_pow2(c as nat),
            is_pow2(next_pow2(c as nat)),
            next_pow2(c as nat) >= c,
            c == ceil32(n as nat),
            n > 32,
        decreases next_pow2(c as nat) - p,
    {
        proof {
            lemma_pow2_double(p as nat, next_pow2(c as nat));
            lemma_pow2_times2(p as nat);
        }
        match p.checked_mul(2) {
            Some(q) => {
                p = q;
            },
            None => {
                assert(2 * p <= next_pow2(c as nat));
                assert(packed_len(n as nat) == 32 * next_pow2(c as nat));
                return None;
            },
        }
    }
    proof {
        lemma_next_pow2_min(c as nat, p as nat);
    }
    assert(p == next_pow2(c as nat));
    p.checked_mul(32)
}

} // verus!
