//! Byte-level text handling for JSON-rendered values: removing characters,
//! splitting at a separator, and reading unsigned numbers as `u64::from_str`
//! and `u64::from_str_radix` do.

use vstd::prelude::*;

verus! {

/// `s` without the bytes that occur in `remove`.
pub open spec fn strip_spec(s: Seq<u8>, remove: Seq<u8>) -> Seq<u8>
    decreases s.len(),
{
    if s.len() == 0 {
        Seq::empty()
    } else if remove.contains(s.last()) {
        strip_spec(s.drop_last(), remove)
    } else {
        strip_spec(s.drop_last(), remove).push(s.last())
    }
}

/// The pieces of `s` between the occurrences of `sep` (one piece more
/// than there are separators; an empty `s` gives one empty piece).
pub open spec fn split_spec(s: Seq<u8>, sep: u8) -> Seq<Seq<u8>>
    decreases s.len(),
{
    if s.len() == 0 {
        seq![Seq::empty()]
    } else {
        let rest = split_spec(s.drop_last(), sep);
        if s.last() == sep {
            rest.push(Seq::empty())
        } else {
            rest.update(rest.len() - 1, rest.last().push(s.last()))
        }
    }
}

/// The value of digit byte `b` in base `radix` (10 or 16), if it is one.
pub open spec fn digit_value(b: u8, radix: nat) -> Option<nat> {
    if 48 <= b <= 57 && (b - 48) < radix {
        Some((b - 48) as nat)
    } else if radix == 16 && 97 <= b <= 102 {
        Some((b - 87) as nat)
    } else if radix == 16 && 65 <= b <= 70 {
        Some((b - 55) as nat)
    } else {
        None
    }
}

/// The number that the digits `s` write in base `radix`.
pub open spec fn digits_value(s: Seq<u8>, radix: nat) -> Option<nat>
    decreases s.len(),
{
    if s.len() == 0 {
        Some(0)
    } else {
        match (digits_value(s.drop_last(), radix), digit_value(s.last(), radix)) {
            (Some(v), Some(d)) => Some(v * radix + d),
            _ => None,
        }
    }
}

/// An unsigned number in base `radix`: an optional '+', then one digit or
/// more, the value fitting in a `u64`.
pub open spec fn parse_radix_spec(s: Seq<u8>, radix: nat) -> Option<u64> {
    let body = if s.len() > 0 && s[0] == 43 {
        s.skip(1)
    } else {
        s
    };
    if body.len() == 0 {
        None
    } else {
        match digits_value(body, radix) {
            Some(v) => if v <= u64::MAX {
                Some(v as u64)
            } else {
                None
            },
            None => None,
        }
    }
}

/// `s` without the bytes that occur in `remove`.
pub fn strip_bytes(s: &[u8], remove: &[u8]) -> (r: Vec<u8>)
    ensures
        r@ == strip_spec(s@, remove@),
{
    let mut r: Vec<u8> = Vec::new();
    let mut i: usize = 0;
    while i < s.len()
        invariant
            i <= s@.len(),
            r@ == strip_spec(s@.take(i as int), remove@),
        decreases s@.len() - i,
    {
        let b = s[i];
        let mut found = false;
        let mut k: usize = 0;
        while k < remove.len()
            invariant
                k <= remove@.len(),
                found == remove@.take(k as int).contains(b),
            decreases remove@.len() - k,
        {
            proof {
                assert(remove@.take(k + 1) =~= remove@.take(k as int).push(remove@[k as int]));
                vstd::seq_lib::lemma_seq_contains_after_push(remove@.take(k as int), remove@[k as int], b);
            }
            if remove[k] == b {
                found = true;
            }
            k = k + 1;
        }
        assert(remove@.take(remove@.len() as int) =~= remove@);
        assert(s@.take(i + 1).drop_last() =~= s@.take(i as int));
        if !found {
            r.push(b);
        }
        i = i + 1;
    }
    assert(s@.take(s@.len() as int) =~= s@);
    r
}

/// The pieces of `s` between the occurrences of `sep`.
pub fn split_bytes(s: &[u8], sep: u8) -> (pieces: Vec<Vec<u8>>)
    ensures
        pieces@.len() >= 1,
        pieces@.len() == split_spec(s@, sep).len(),
        forall|k: int| 0 <= k < pieces@.len() ==> (#[trigger] pieces@[k])@ == split_spec(s@, sep)[k],
{
    let mut pieces: Vec<Vec<u8>> = Vec::new();
    let mut current: Vec<u8> = Vec::new();
    let mut i: usize = 0;
    while i < s.len()
        invariant
            i <= s@.len(),
            pieces@.len() + 1 == split_spec(s@.take(i as int), sep).len(),
            forall|k: int| 0 <= k < pieces@.len() ==> (#[trigger] pieces@[k])@ == split_spec(s@.take(i as int), sep)[k],
            current@ == split_spec(s@.take(i as int), sep).last(),
        decreases s@.len() - i,
    {
        proof {
            lemma_split_len(s@.take(i as int), sep);
            assert(s@.take(i + 1).drop_last() =~= s@.take(i as int));
        }
        if s[i] == sep {
            let piece = current;
            pieces.push(piece);
            current = Vec::new();
        } else {
            current.push(s[i]);
        }
        i = i + 1;
    }
    proof {
        lemma_split_len(s@, sep);
        assert(s@.take(s@.len() as int) =~= s@);
    }
    pieces.push(current);
    pieces
}

proof fn lemma_split_len(s: Seq<u8>, sep: u8)
    ensures
        split_spec(s, sep).len() >= 1,
    decreases s.len(),
{
    if s.len() > 0 {
        lemma_split_len(s.drop_last(), sep);
    }
}

/// The value of digit byte `b` in base `radix`.
fn digit(b: u8, radix: u64) -> (d: Option<u64>)
    requires
        radix == 10 || radix == 16,
    ensures
        d matches Some(v) ==> digit_value(b, radix as nat) == Some(v as nat),
        d is None ==> digit_value(b, radix as nat) is None,
{
    if 48 <= b && b <= 57 && ((b - 48) as u64) < radix {
        Some((b - 48) as u64)
    } else if radix == 16 && 97 <= b && b <= 102 {
        Some((b - 87) as u64)
    } else if radix == 16 && 65 <= b && b <= 70 {
        Some((b - 55) as u64)
    } else {
        None
    }
}

/// Once the digits read so far are worth more than `u64::MAX`, the whole
/// number is, or it is no number.
proof fn lemma_digits_grow(s: Seq<u8>, radix: nat, i: int)
    requires
        0 <= i <= s.len(),
        radix >= 1,
        digits_value(s.take(i), radix) matches Some(v) && v > u64::MAX,
    ensures
        digits_value(s, radix) matches Some(w) ==> w > u64::MAX,
    decreases s.len() - i,
{
    if i < s.len() {
        let v = digits_value(s.take(i), radix)->0;
        assert(s.take(i + 1).drop_last() =~= s.take(i));
        if let Some(d) = digit_value(s[i], radix) {
            assert(v * radix >= v) by (nonlinear_arith)
                requires
                    radix >= 1,
                    v >= 0,
            ;
            lemma_digits_grow(s, radix, i + 1);
        } else {
            lemma_digits_none(s, radix, i + 1);
        }
    } else {
        assert(s.take(i) =~= s);
    }
}

/// A byte that is no digit makes the whole no number.
proof fn lemma_digits_none(s: Seq<u8>, radix: nat, i: int)
    requires
        0 <= i <= s.len(),
        digits_value(s.take(i), radix) is None,
    ensures
        digits_value(s, radix) is None,
    decreases s.len() - i,
{
    if i < s.len() {
        assert(s.take(i + 1).drop_last() =~= s.take(i));
        lemma_digits_none(s, radix, i + 1);
    } else {
        assert(s.take(i) =~= s);
    }
}

/// Reads an unsigned number in base `radix` (10 or 16) as
/// `u64::from_str_radix` does: `None` unless `s` is an optional '+' and
/// one digit or more whose value fits in a `u64`.
pub fn parse_radix(s: &[u8], radix: u64) -> (r: Option<u64>)
    requires
        radix == 10 || radix == 16,
    ensures
        r == parse_radix_spec(s@, radix as nat),
{
    let start: usize = if s.len() > 0 && s[0] == 43 {
        1
    } else {
        0
    };
    let ghost body = if s@.len() > 0 && s@[0] == 43 {
        s@.skip(1)
    } else {
        s@
    };
    assert(body =~= s@.skip(start as int));
    if start == s.len() {
        return None;
    }
    let mut v: u64 = 0;
    let mut i: usize = start;
    while i < s.len()
        invariant
            start <= i <= s@.len(),
            start < s@.len(),
            body.len() > 0,
            body == (if s@.len() > 0 && s@[0] == 43 {
                s@.skip(1)
            } else {
                s@
            }),
            radix == 10 || radix == 16,
            body == s@.skip(start as int),
            digits_value(body.take(i - start), radix as nat) == Some(v as nat),
        decreases s@.len() - i,
    {
        let ghost k = i - start;
        proof {
            assert(body.take(k + 1).drop_last() =~= body.take(k));
            assert(body.take(k + 1).last() == s@[i as int]);
        }
        match digit(s[i], radix) {
            None => {
                proof {
                    assert(digits_value(body.take(k + 1), radix as nat) is None);
                    lemma_digits_none(body, radix as nat, k + 1);
                }
                return None;
            },
            Some(d) => {
                match v.checked_mul(radix) {
                    None => {
                        proof {
                            assert(v * radix + d > u64::MAX) by (nonlinear_arith)
                                requires
                                    v * radix > u64::MAX,
                            ;
                            assert(digits_value(body.take(k + 1), radix as nat) == Some(
                                (v * radix + d) as nat,
                            ));
                            lemma_digits_grow(body, radix as nat, k + 1);
                        }
                        return None;
                    },
                    Some(m) => {
                        match m.checked_add(d) {
                            None => {
                                proof {
                                    assert(digits_value(body.take(k + 1), radix as nat) == Some(
                                        (v * radix + d) as nat,
                                    ));
                                    lemma_digits_grow(body, radix as nat, k + 1);
                                }
                                return None;
                            },
                            Some(n) => {
                                v = n;
                            },
                        }
                    },
                }
            },
        }
        i = i + 1;
    }
    assert(body.take(body.len() as int) =~= body);
    Some(v)
}

} // verus!
