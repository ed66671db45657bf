//! Reading a beacon state out of the JSON a beacon node answers with.
//!
//! The node's answer is taken apart field by field, each field rendered as
//! JSON text; this module turns those texts into a [`BeaconState`] the way
//! the light-client server reads them: quotes and brackets are dropped,
//! lists are cut at commas, record entries at colons, numbers are decimal
//! (justification bits hexadecimal).

use crate::merkleize::views;
use crate::types::{BeaconBlockHeader, BeaconState, Checkpoint, Eth1Data, Fork, SyncCommittee, Validator};
use crate::text::{parse_radix, parse_radix_spec, split_bytes, split_spec, strip_bytes, strip_spec};
use vstd::prelude::*;
use vstd::string::StringExecFns;
use vstd::slice::{slice_subrange, slice_to_vec};

verus! {

/// The byte of a double quote.
pub open spec fn quote_set() -> Seq<u8> {
    seq![34u8]
}

/// Double quote and square brackets.
pub open spec fn list_set() -> Seq<u8> {
    seq![34u8, 91u8, 93u8]
}

/// Square brackets, braces and double quote.
pub open spec fn record_set() -> Seq<u8> {
    seq![91u8, 93u8, 123u8, 34u8, 125u8]
}

/// A text with its double quotes removed.
pub open spec fn unquoted(s: Seq<u8>) -> Seq<u8> {
    strip_spec(s, quote_set())
}

/// A decimal number, once the double quotes are removed.
pub open spec fn u64_text(s: Seq<u8>) -> Option<u64> {
    parse_radix_spec(unquoted(s), 10)
}

/// The bytes of "false".
pub open spec fn false_text() -> Seq<u8> {
    seq![102u8, 97u8, 108u8, 115u8, 101u8]
}

/// The bytes of "true".
pub open spec fn true_text() -> Seq<u8> {
    seq![116u8, 114u8, 117u8, 101u8]
}

/// A flag, once the double quotes are removed: "false", "true", or a
/// decimal number that is set when it is not zero.
pub open spec fn bool_text(s: Seq<u8>) -> Option<bool> {
    let t = unquoted(s);
    if t == false_text() {
        Some(false)
    } else if t == true_text() {
        Some(true)
    } else {
        match parse_radix_spec(t, 10) {
            Some(v) => Some(v > 0),
            None => None,
        }
    }
}

/// What follows the first colon of an entry, up to the next colon.
pub open spec fn after_colon(s: Seq<u8>) -> Option<Seq<u8>> {
    let parts = split_spec(s, 58u8);
    if parts.len() >= 2 {
        Some(parts[1])
    } else {
        None
    }
}

/// `s` without its leading "0x" prefixes, however many there are.
pub open spec fn trim_hex_prefix(s: Seq<u8>) -> Seq<u8>
    decreases s.len(),
{
    if s.len() >= 2 && s[0] == 48 && s[1] == 120 {
        trim_hex_prefix(s.skip(2))
    } else {
        s
    }
}

/// Whether two byte strings are equal.
fn bytes_equal(a: &[u8], b: &[u8]) -> (eq: bool)
    ensures
        eq == (a@ == b@),
{
    if a.len() != b.len() {
        return false;
    }
    let mut i: usize = 0;
    while i < a.len()
        invariant
            a@.len() == b@.len(),
            i <= a@.len(),
            forall|k: int| 0 <= k < i ==> a@[k] == b@[k],
        decreases a@.len() - i,
    {
        if a[i] != b[i] {
            return false;
        }
        i = i + 1;
    }
    assert(a@ =~= b@);
    true
}

/// `s` without its double quotes.
pub fn string_to_vec_u8(s: &[u8]) -> (t: Vec<u8>)
    ensures
        t@ == unquoted(s@),
{
    let q: Vec<u8> = vec![34u8];
    assert(q@ =~= quote_set());
    strip_bytes(s, q.as_slice())
}

/// Reads a decimal number, once the double quotes are removed.
pub fn string_to_u64(s: &[u8]) -> (v: Option<u64>)
    ensures
        v == u64_text(s@),
{
    let t = string_to_vec_u8(s);
    parse_radix(t.as_slice(), 10)
}

/// Reads a flag, once the double quotes are removed.
pub fn string_to_bool(s: &[u8]) -> (b: Option<bool>)
    ensures
        b == bool_text(s@),
{
    let t = string_to_vec_u8(s);
    let f: Vec<u8> = vec![102u8, 97u8, 108u8, 115u8, 101u8];
    let tr: Vec<u8> = vec![116u8, 114u8, 117u8, 101u8];
    assert(f@ =~= false_text());
    assert(tr@ =~= true_text());
    if bytes_equal(t.as_slice(), f.as_slice()) {
        Some(false)
    } else if bytes_equal(t.as_slice(), tr.as_slice()) {
        Some(true)
    } else {
        match parse_radix(t.as_slice(), 10) {
            Some(v) => Some(v > 0),
            None => None,
        }
    }
}

/// The part of an entry after its first colon.
pub fn entry_value(s: &[u8]) -> (v: Option<Vec<u8>>)
    ensures
        v matches Some(w) ==> after_colon(s@) == Some(w@),
        v is None ==> after_colon(s@) is None,
{
    let parts = split_bytes(s, 58u8);
    if parts.len() >= 2 {
        Some(parts[1].clone())
    } else {
        None
    }
}

/// Removes every leading "0x".
pub fn trim_hex(s: &[u8]) -> (t: Vec<u8>)
    ensures
        t@ == trim_hex_prefix(s@),
{
    let mut i: usize = 0;
    assert(s@.skip(0) =~= s@);
    while i < s.len() && s.len() - i >= 2 && s[i] == 48 && s[i + 1] == 120
        invariant
            i <= s@.len(),
            trim_hex_prefix(s@.skip(i as int)) == trim_hex_prefix(s@),
        decreases s@.len() - i,
    {
        assert(s@.skip(i as int).skip(2) =~= s@.skip(i + 2));
        i = i + 2;
    }
    let rest = slice_subrange(s, i, s.len());
    assert(rest@ =~= s@.skip(i as int));
    slice_to_vec(rest)
}

/// The comma-separated pieces of a text, once the bytes of `set` are
/// removed from it; none when nothing is left (an empty list).
pub open spec fn pieces_of(s: Seq<u8>, set: Seq<u8>) -> Seq<Seq<u8>> {
    let t = strip_spec(s, set);
    if t.len() == 0 {
        Seq::empty()
    } else {
        split_spec(t, 44u8)
    }
}

/// Whether every piece reads as a number in base `radix`.
pub open spec fn all_parse(pieces: Seq<Seq<u8>>, radix: nat) -> bool {
    forall|k: int| 0 <= k < pieces.len() ==> (#[trigger] parse_radix_spec(pieces[k], radix)) is Some
}

/// The numbers that the pieces read as in base `radix`.
pub open spec fn parsed(pieces: Seq<Seq<u8>>, radix: nat) -> Seq<u64> {
    Seq::new(pieces.len(), |k: int| parse_radix_spec(pieces[k], radix)->0)
}

/// The pieces without their leading "0x" prefixes.
pub open spec fn hex_trimmed(pieces: Seq<Seq<u8>>) -> Seq<Seq<u8>> {
    pieces.map_values(|p: Seq<u8>| trim_hex_prefix(p))
}

/// The pieces without their double quotes.
pub open spec fn unquoted_all(pieces: Seq<Seq<u8>>) -> Seq<Seq<u8>> {
    pieces.map_values(|p: Seq<u8>| unquoted(p))
}

/// The comma-separated pieces of `s` once the bytes of `set` are removed.
pub fn text_pieces(s: &[u8], set: &[u8]) -> (pieces: Vec<Vec<u8>>)
    ensures
        views(pieces@) == pieces_of(s@, set@),
{
    let t = strip_bytes(s, set);
    if t.len() == 0 {
        let none: Vec<Vec<u8>> = Vec::new();
        assert(views(none@) =~= pieces_of(s@, set@));
        return none;
    }
    let pieces = split_bytes(t.as_slice(), 44u8);
    assert(views(pieces@) =~= pieces_of(s@, set@));
    pieces
}

/// Every piece without its double quotes.
pub fn unquote_all(pieces: &Vec<Vec<u8>>) -> (out: Vec<Vec<u8>>)
    ensures
        views(out@) == unquoted_all(views(pieces@)),
{
    let mut out: Vec<Vec<u8>> = Vec::new();
    let mut i: usize = 0;
    while i < pieces.len()
        invariant
            i <= pieces@.len(),
            out@.len() == i,
            forall|k: int| 0 <= k < i ==> (#[trigger] out@[k])@ == unquoted(pieces@[k]@),
        decreases pieces@.len() - i,
    {
        let u = string_to_vec_u8(pieces[i].as_slice());
        out.push(u);
        i = i + 1;
    }
    assert(views(out@) =~= unquoted_all(views(pieces@)));
    out
}

/// Reads every piece as a number in base `radix` (10 or 16), after
/// removing its leading "0x" prefixes when `trim` is set; `None` when one
/// of them is no number.
pub fn parse_all(pieces: &Vec<Vec<u8>>, radix: u64, trim: bool) -> (values: Option<Vec<u64>>)
    requires
        radix == 10 || radix == 16,
    ensures
        ({
            let ps = if trim {
                hex_trimmed(views(pieces@))
            } else {
                views(pieces@)
            };
            &&& values is Some <==> all_parse(ps, radix as nat)
            &&& values matches Some(v) ==> v@ == parsed(ps, radix as nat)
        }),
{
    let ghost ps = if trim {
        hex_trimmed(views(pieces@))
    } else {
        views(pieces@)
    };
    let mut out: Vec<u64> = Vec::new();
    let mut i: usize = 0;
    while i < pieces.len()
        invariant
            i <= pieces@.len(),
            radix == 10 || radix == 16,
            ps.len() == pieces@.len(),
            ps == (if trim {
                hex_trimmed(views(pieces@))
            } else {
                views(pieces@)
            }),
            out@.len() == i,
            forall|k: int| 0 <= k < i ==> (#[trigger] parse_radix_spec(ps[k], radix as nat)) == Some(out@[k]),
        decreases pieces@.len() - i,
    {
        let p = if trim {
            trim_hex(pieces[i].as_slice())
        } else {
            pieces[i].clone()
        };
        assert(p@ == ps[i as int]);
        match parse_radix(p.as_slice(), radix) {
            Some(v) => {
                out.push(v);
            },
            None => {
                assert(parse_radix_spec(ps[i as int], radix as nat) is None);
                return None;
            },
        }
        i = i + 1;
    }
    assert(out@ =~= parsed(ps, radix as nat));
    Some(out)
}

/// Reads a list of decimal numbers: the text without its double quotes
/// and square brackets, cut at commas, each piece a number; `None` when
/// one is not.
pub fn string_to_vec_u64(s: &[u8]) -> (values: Option<Vec<u64>>)
    ensures
        values is Some <==> all_parse(pieces_of(s@, list_set()), 10),
        values matches Some(v) ==> v@ == parsed(pieces_of(s@, list_set()), 10),
{
    let list: Vec<u8> = vec![34u8, 91u8, 93u8];
    assert(list@ =~= list_set());
    let pieces = text_pieces(s, list.as_slice());
    parse_all(&pieces, 10, false)
}

/// The name of an entry: what comes before its first colon.
pub open spec fn entry_name(p: Seq<u8>) -> Seq<u8> {
    split_spec(p, 58u8)[0]
}

/// Whether entry `p` is named `name` and holds, after its colon, a value of
/// the kind asked: bytes (0), a decimal number (1) or a flag (2).
pub open spec fn entry_ok(p: Seq<u8>, name: Seq<u8>, kind: int) -> bool {
    &&& entry_name(p) == name
    &&& after_colon(p) is Some
    &&& kind == 1 ==> u64_text(after_colon(p)->0) is Some
    &&& kind == 2 ==> bool_text(after_colon(p)->0) is Some
}

/// The pieces of an empty list's text.
pub open spec fn is_empty_list(s: Seq<Seq<u8>>) -> bool {
    s.len() == 1 && s[0].len() == 0
}

/// Whether entry `p` is named `name` and holds a value of kind `kind`.
fn entry_check(p: &[u8], name: &Vec<u8>, kind: u8) -> (ok: bool)
    ensures
        ok == entry_ok(p@, name@, kind as int),
{
    let parts = split_bytes(p, 58u8);
    if !bytes_equal(parts[0].as_slice(), name.as_slice()) {
        return false;
    }
    match entry_value(p) {
        None => false,
        Some(w) => {
            if kind == 1 {
                string_to_u64(w.as_slice()).is_some()
            } else if kind == 2 {
                string_to_bool(w.as_slice()).is_some()
            } else {
                true
            }
        },
    }
}

/// The name of place `b` in the three entries of an eth1 data vote, in the
/// order the node's JSON, as serde_json renders it, writes them: its map keeps
/// keys sorted, so `block_hash` comes first and `deposit_root` last. Each
/// entry is taken by its name, never by its place alone: an entry under
/// another name is refused rather than read into the wrong field.
pub open spec fn vote_field_name(b: int) -> Seq<u8> {
    if b == 0 {
        seq![98u8, 108u8, 111u8, 99u8, 107u8, 95u8, 104u8, 97u8, 115u8, 104u8]
    } else if b == 1 {
        seq![100u8, 101u8, 112u8, 111u8, 115u8, 105u8, 116u8, 95u8, 99u8, 111u8, 117u8, 110u8, 116u8]
    } else {
        seq![100u8, 101u8, 112u8, 111u8, 115u8, 105u8, 116u8, 95u8, 114u8, 111u8, 111u8, 116u8]
    }
}

/// The kind of value at place `b` of a vote: the deposit count is a number.
pub open spec fn vote_field_kind(b: int) -> int {
    if b == 1 {
        1
    } else {
        0
    }
}

/// The name of place `b` in the eight entries of a validator, in the sorted
/// key order in which serde_json renders the node's JSON; as for a vote, each
/// entry is taken by its name.
pub open spec fn validator_field_name(b: int) -> Seq<u8> {
    if b == 0 {
        seq![97u8, 99u8, 116u8, 105u8, 118u8, 97u8, 116u8, 105u8, 111u8, 110u8, 95u8, 101u8, 108u8, 105u8, 103u8, 105u8, 98u8, 105u8, 108u8, 105u8, 116u8, 121u8, 95u8, 101u8, 112u8, 111u8, 99u8, 104u8]
    } else if b == 1 {
        seq![97u8, 99u8, 116u8, 105u8, 118u8, 97u8, 116u8, 105u8, 111u8, 110u8, 95u8, 101u8, 112u8, 111u8, 99u8, 104u8]
    } else if b == 2 {
        seq![101u8, 102u8, 102u8, 101u8, 99u8, 116u8, 105u8, 118u8, 101u8, 95u8, 98u8, 97u8, 108u8, 97u8, 110u8, 99u8, 101u8]
    } else if b == 3 {
        seq![101u8, 120u8, 105u8, 116u8, 95u8, 101u8, 112u8, 111u8, 99u8, 104u8]
    } else if b == 4 {
        seq![112u8, 117u8, 98u8, 107u8, 101u8, 121u8]
    } else if b == 5 {
        seq![115u8, 108u8, 97u8, 115u8, 104u8, 101u8, 100u8]
    } else if b == 6 {
        seq![119u8, 105u8, 116u8, 104u8, 100u8, 114u8, 97u8, 119u8, 97u8, 98u8, 108u8, 101u8, 95u8, 101u8, 112u8, 111u8, 99u8, 104u8]
    } else {
        seq![119u8, 105u8, 116u8, 104u8, 100u8, 114u8, 97u8, 119u8, 97u8, 108u8, 95u8, 99u8, 114u8, 101u8, 100u8, 101u8, 110u8, 116u8, 105u8, 97u8, 108u8, 115u8]
    }
}

/// The kind of value at place `b` of a validator: epochs and the balance are numbers, `slashed` a flag.
pub open spec fn validator_field_kind(b: int) -> int {
    if b == 1 || b == 2 || b == 3 || b == 6 {
        1
    } else if b == 5 {
        2
    } else {
        0
    }
}

/// The bytes of `vote_field_name(b)`.
fn vote_name_bytes(b: usize) -> (name: Vec<u8>)
    requires
        b < 3,
    ensures
        name@ == vote_field_name(b as int),
{
    if b == 0 {
        let v: Vec<u8> = vec![98u8, 108u8, 111u8, 99u8, 107u8, 95u8, 104u8, 97u8, 115u8, 104u8];
        assert(v@ =~= vote_field_name(0));
        v
    } else if b == 1 {
        let v: Vec<u8> = vec![100u8, 101u8, 112u8, 111u8, 115u8, 105u8, 116u8, 95u8, 99u8, 111u8, 117u8, 110u8, 116u8];
        assert(v@ =~= vote_field_name(1));
        v
    } else {
        let v: Vec<u8> = vec![100u8, 101u8, 112u8, 111u8, 115u8, 105u8, 116u8, 95u8, 114u8, 111u8, 111u8, 116u8];
        assert(v@ =~= vote_field_name(2));
        v
    }
}

/// The bytes of `validator_field_name(b)`.
fn validator_name_bytes(b: usize) -> (name: Vec<u8>)
    requires
        b < 8,
    ensures
        name@ == validator_field_name(b as int),
{
    if b == 0 {
        let v: Vec<u8> = vec![97u8, 99u8, 116u8, 105u8, 118u8, 97u8, 116u8, 105u8, 111u8, 110u8, 95u8, 101u8, 108u8, 105u8, 103u8, 105u8, 98u8, 105u8, 108u8, 105u8, 116u8, 121u8, 95u8, 101u8, 112u8, 111u8, 99u8, 104u8];
        assert(v@ =~= validator_field_name(0));
        v
    } else if b == 1 {
        let v: Vec<u8> = vec![97u8, 99u8, 116u8, 105u8, 118u8, 97u8, 116u8, 105u8, 111u8, 110u8, 95u8, 101u8, 112u8, 111u8, 99u8, 104u8];
        assert(v@ =~= validator_field_name(1));
        v
    } else if b == 2 {
        let v: Vec<u8> = vec![101u8, 102u8, 102u8, 101u8, 99u8, 116u8, 105u8, 118u8, 101u8, 95u8, 98u8, 97u8, 108u8, 97u8, 110u8, 99u8, 101u8];
        assert(v@ =~= validator_field_name(2));
        v
    } else if b == 3 {
        let v: Vec<u8> = vec![101u8, 120u8, 105u8, 116u8, 95u8, 101u8, 112u8, 111u8, 99u8, 104u8];
        assert(v@ =~= validator_field_name(3));
        v
    } else if b == 4 {
        let v: Vec<u8> = vec![112u8, 117u8, 98u8, 107u8, 101u8, 121u8];
        assert(v@ =~= validator_field_name(4));
        v
    } else if b == 5 {
        let v: Vec<u8> = vec![115u8, 108u8, 97u8, 115u8, 104u8, 101u8, 100u8];
        assert(v@ =~= validator_field_name(5));
        v
    } else if b == 6 {
        let v: Vec<u8> = vec![119u8, 105u8, 116u8, 104u8, 100u8, 114u8, 97u8, 119u8, 97u8, 98u8, 108u8, 101u8, 95u8, 101u8, 112u8, 111u8, 99u8, 104u8];
        assert(v@ =~= validator_field_name(6));
        v
    } else {
        let v: Vec<u8> = vec![119u8, 105u8, 116u8, 104u8, 100u8, 114u8, 97u8, 119u8, 97u8, 108u8, 95u8, 99u8, 114u8, 101u8, 100u8, 101u8, 110u8, 116u8, 105u8, 97u8, 108u8, 115u8];
        assert(v@ =~= validator_field_name(7));
        v
    }
}

/// Whether the entries of the eth1 data votes text can be read: an empty
/// list, or groups of three entries, each named and valued as its place
/// asks.
pub open spec fn votes_ok(s: Seq<Seq<u8>>) -> bool {
    ||| is_empty_list(s)
    ||| {
        &&& s.len() % 3 == 0
        &&& forall|i: int|
            0 <= i < s.len() ==> entry_ok(#[trigger] s[i], vote_field_name(i % 3), vote_field_kind(i % 3))
    }
}

/// How many votes the entries hold: one per group of three.
pub open spec fn votes_len(s: Seq<Seq<u8>>) -> int {
    if is_empty_list(s) {
        0
    } else {
        (s.len() / 3) as int
    }
}

/// Whether `v` is the vote read from the `j`-th group of three entries.
pub open spec fn vote_is(v: Eth1Data, s: Seq<Seq<u8>>, j: int) -> bool {
    &&& v.block_hash@ == unquoted(after_colon(s[3 * j])->0)
    &&& v.deposit_count == u64_text(after_colon(s[3 * j + 1])->0)->0
    &&& v.deposit_root@ == unquoted(after_colon(s[3 * j + 2])->0)
}

/// The three entries of a group of a readable votes text are each well
/// formed for their place.
proof fn lemma_vote_group(vs: Seq<Seq<u8>>, j: int)
    requires
        !is_empty_list(vs),
        votes_ok(vs),
        0 <= j,
        3 * j + 2 < vs.len(),
    ensures
        entry_ok(vs[3 * j], vote_field_name(0), vote_field_kind(0)),
        entry_ok(vs[3 * j + 1], vote_field_name(1), vote_field_kind(1)),
        entry_ok(vs[3 * j + 2], vote_field_name(2), vote_field_kind(2)),
{
    assert(entry_ok(vs[3 * j], vote_field_name((3 * j) % 3), vote_field_kind((3 * j) % 3)));
    assert(entry_ok(vs[3 * j + 1], vote_field_name((3 * j + 1) % 3), vote_field_kind((3 * j + 1) % 3)));
    assert(entry_ok(vs[3 * j + 2], vote_field_name((3 * j + 2) % 3), vote_field_kind((3 * j + 2) % 3)));
}

/// Reads the eth1 data votes from the entries of their text; `None` when
/// the entries cannot be read. Each vote is three entries in sorted key
/// order (`block_hash`, `deposit_count`, `deposit_root`), each field filled
/// from the entry of its own name.
pub fn eth1_data_votes_from(s: &Vec<Vec<u8>>) -> (votes: Option<Vec<Eth1Data>>)
    ensures
        votes is Some <==> votes_ok(views(s@)),
        votes matches Some(v) ==> {
            &&& v@.len() == votes_len(views(s@))
            &&& forall|j: int| 0 <= j < v@.len() ==> vote_is(#[trigger] v@[j], views(s@), j)
        },
{
    let ghost vs = views(s@);
    let n = s.len();
    if n == 1 && s[0].len() == 0 {
        return Some(Vec::new());
    }
    assert(!is_empty_list(vs)) by {
        if n == 1 {
            assert(vs[0] == s@[0]@);
        }
    }
    if n % 3 != 0 {
        return None;
    }
    let mut i: usize = 0;
    while i < n
        invariant
            n == s@.len(),
            vs == views(s@),
            !is_empty_list(vs),
            i <= n,
            forall|k: int| 0 <= k < i ==> entry_ok(#[trigger] vs[k], vote_field_name(k % 3), vote_field_kind(k % 3)),
        decreases n - i,
    {
        let name = vote_name_bytes(i % 3);
        let kind: u8 = if i % 3 == 1 { 1 } else { 0 };
        if !entry_check(s[i].as_slice(), &name, kind) {
            assert(vs[i as int] == s@[i as int]@);
            assert(!entry_ok(vs[i as int], vote_field_name(i as int % 3), vote_field_kind(i as int % 3)));
            return None;
        }
        i = i + 1;
    }
    let count = n / 3;
    let mut votes: Vec<Eth1Data> = Vec::new();
    let mut j: usize = 0;
    while j < count
        invariant
            n == s@.len(),
            vs == views(s@),
            !is_empty_list(vs),
            votes_ok(vs),
            count == n / 3,
            j <= count,
            votes@.len() == j,
            forall|k: int| 0 <= k < j ==> vote_is(#[trigger] votes@[k], vs, k),
        decreases count - j,
    {
        proof {
            lemma_vote_group(vs, j as int);
        }
        let hash = entry_value(s[3 * j].as_slice()).unwrap();
        let count_text = entry_value(s[3 * j + 1].as_slice()).unwrap();
        let root = entry_value(s[3 * j + 2].as_slice()).unwrap();
        let vote = Eth1Data {
            deposit_root: string_to_vec_u8(root.as_slice()),
            deposit_count: string_to_u64(count_text.as_slice()).unwrap(),
            block_hash: string_to_vec_u8(hash.as_slice()),
        };
        votes.push(vote);
        j = j + 1;
    }
    Some(votes)
}

/// Whether the entries of the validators text can be read: an empty list,
/// or groups of eight entries, each named and valued as its place asks.
pub open spec fn validators_ok(s: Seq<Seq<u8>>) -> bool {
    ||| is_empty_list(s)
    ||| {
        &&& s.len() % 8 == 0
        &&& forall|i: int|
            0 <= i < s.len() ==> entry_ok(
                #[trigger] s[i],
                validator_field_name(i % 8),
                validator_field_kind(i % 8),
            )
    }
}

/// How many validators the entries hold: one per group of eight.
pub open spec fn validators_len(s: Seq<Seq<u8>>) -> int {
    if is_empty_list(s) {
        0
    } else {
        (s.len() / 8) as int
    }
}

/// Whether `v` is the validator read from the `j`-th group of eight
/// entries.
pub open spec fn validator_is(v: Validator, s: Seq<Seq<u8>>, j: int) -> bool {
    &&& v.activation_eligibility_epoch@ == unquoted(after_colon(s[8 * j])->0)
    &&& v.activation_epoch == u64_text(after_colon(s[8 * j + 1])->0)->0
    &&& v.effective_balance == u64_text(after_colon(s[8 * j + 2])->0)->0
    &&& v.exit_epoch == u64_text(after_colon(s[8 * j + 3])->0)->0
    &&& v.pubkey@ == unquoted(after_colon(s[8 * j + 4])->0)
    &&& v.slashed == bool_text(after_colon(s[8 * j + 5])->0)->0
    &&& v.withdrawable_epoch == u64_text(after_colon(s[8 * j + 6])->0)->0
    &&& v.withdrawal_credentials@ == unquoted(after_colon(s[8 * j + 7])->0)
}

/// The eight entries of a group of a readable validators text are each
/// well formed for their place.
proof fn lemma_validator_group(vs: Seq<Seq<u8>>, j: int)
    requires
        !is_empty_list(vs),
        validators_ok(vs),
        0 <= j,
        8 * j + 7 < vs.len(),
    ensures
        entry_ok(vs[8 * j], validator_field_name(0), validator_field_kind(0)),
        entry_ok(vs[8 * j + 1], validator_field_name(1), validator_field_kind(1)),
        entry_ok(vs[8 * j + 2], validator_field_name(2), validator_field_kind(2)),
        entry_ok(vs[8 * j + 3], validator_field_name(3), validator_field_kind(3)),
        entry_ok(vs[8 * j + 4], validator_field_name(4), validator_field_kind(4)),
        entry_ok(vs[8 * j + 5], validator_field_name(5), validator_field_kind(5)),
        entry_ok(vs[8 * j + 6], validator_field_name(6), validator_field_kind(6)),
        entry_ok(vs[8 * j + 7], validator_field_name(7), validator_field_kind(7)),
{
    assert(entry_ok(vs[8 * j], validator_field_name((8 * j) % 8), validator_field_kind((8 * j) % 8)));
    assert(entry_ok(vs[8 * j + 1], validator_field_name((8 * j + 1) % 8), validator_field_kind((8 * j + 1) % 8)));
    assert(entry_ok(vs[8 * j + 2], validator_field_name((8 * j + 2) % 8), validator_field_kind((8 * j + 2) % 8)));
    assert(entry_ok(vs[8 * j + 3], validator_field_name((8 * j + 3) % 8), validator_field_kind((8 * j + 3) % 8)));
    assert(entry_ok(vs[8 * j + 4], validator_field_name((8 * j + 4) % 8), validator_field_kind((8 * j + 4) % 8)));
    assert(entry_ok(vs[8 * j + 5], validator_field_name((8 * j + 5) % 8), validator_field_kind((8 * j + 5) % 8)));
    assert(entry_ok(vs[8 * j + 6], validator_field_name((8 * j + 6) % 8), validator_field_kind((8 * j + 6) % 8)));
    assert(entry_ok(vs[8 * j + 7], validator_field_name((8 * j + 7) % 8), validator_field_kind((8 * j + 7) % 8)));
}

/// Reads the validator of the `j`-th group of eight entries.
fn validator_at(s: &Vec<Vec<u8>>, j: usize) -> (v: Validator)
    requires
        !is_empty_list(views(s@)),
        validators_ok(views(s@)),
        8 * j + 7 < s.len(),
    ensures
        validator_is(v, views(s@), j as int),
{
    let ghost vs = views(s@);
    let base = 8 * j;
    proof {
        lemma_validator_group(vs, j as int);
    }
    let eligibility = entry_value(s[base].as_slice()).unwrap();
    let activation = entry_value(s[base + 1].as_slice()).unwrap();
    let balance = entry_value(s[base + 2].as_slice()).unwrap();
    let exit = entry_value(s[base + 3].as_slice()).unwrap();
    let pubkey = entry_value(s[base + 4].as_slice()).unwrap();
    let slashed = entry_value(s[base + 5].as_slice()).unwrap();
    let withdrawable = entry_value(s[base + 6].as_slice()).unwrap();
    let credentials = entry_value(s[base + 7].as_slice()).unwrap();
    Validator {
        pubkey: string_to_vec_u8(pubkey.as_slice()),
        withdrawal_credentials: string_to_vec_u8(credentials.as_slice()),
        effective_balance: string_to_u64(balance.as_slice()).unwrap(),
        slashed: string_to_bool(slashed.as_slice()).unwrap(),
        activation_eligibility_epoch: string_to_vec_u8(eligibility.as_slice()),
        activation_epoch: string_to_u64(activation.as_slice()).unwrap(),
        exit_epoch: string_to_u64(exit.as_slice()).unwrap(),
        withdrawable_epoch: string_to_u64(withdrawable.as_slice()).unwrap(),
    }
}

/// Reads the validators from the entries of their text; `None` when the
/// entries cannot be read. Each validator is eight entries in sorted key
/// order, each field filled from the entry of its own name.
pub fn validators_from(s: &Vec<Vec<u8>>) -> (validators: Option<Vec<Validator>>)
    ensures
        validators is Some <==> validators_ok(views(s@)),
        validators matches Some(v) ==> {
            &&& v@.len() == validators_len(views(s@))
            &&& forall|j: int| 0 <= j < v@.len() ==> validator_is(#[trigger] v@[j], views(s@), j)
        },
{
    let ghost vs = views(s@);
    let n = s.len();
    if n == 1 && s[0].len() == 0 {
        return Some(Vec::new());
    }
    assert(!is_empty_list(vs)) by {
        if n == 1 {
            assert(vs[0] == s@[0]@);
        }
    }
    if n % 8 != 0 {
        return None;
    }
    let mut i: usize = 0;
    while i < n
        invariant
            n == s@.len(),
            vs == views(s@),
            !is_empty_list(vs),
            i <= n,
            forall|k: int|
                0 <= k < i ==> entry_ok(#[trigger] vs[k], validator_field_name(k % 8), validator_field_kind(k % 8)),
        decreases n - i,
    {
        let name = validator_name_bytes(i % 8);
        let b = i % 8;
        let kind: u8 = if b == 1 || b == 2 || b == 3 || b == 6 {
            1
        } else if b == 5 {
            2
        } else {
            0
        };
        if !entry_check(s[i].as_slice(), &name, kind) {
            assert(vs[i as int] == s@[i as int]@);
            assert(!entry_ok(vs[i as int], validator_field_name(i as int % 8), validator_field_kind(i as int % 8)));
            return None;
        }
        i = i + 1;
    }
    let count = n / 8;
    let mut validators: Vec<Validator> = Vec::new();
    let mut j: usize = 0;
    while j < count
        invariant
            n == s@.len(),
            vs == views(s@),
            !is_empty_list(vs),
            validators_ok(vs),
            count == n / 8,
            j <= count,
            validators@.len() == j,
            forall|k: int| 0 <= k < j ==> validator_is(#[trigger] validators@[k], vs, k),
        decreases count - j,
    {
        let v = validator_at(s, j);
        validators.push(v);
        j = j + 1;
    }
    Some(validators)
}

/// Whether a checkpoint text can be read: two comma-separated entries or
/// more, the first with a number after its colon, the second with a colon.
pub open spec fn checkpoint_ok(text: Seq<u8>) -> bool {
    let ss = pieces_of(text, record_set());
    &&& ss.len() >= 2
    &&& after_colon(ss[0]) is Some
    &&& parse_radix_spec(after_colon(ss[0])->0, 10) is Some
    &&& after_colon(ss[1]) is Some
}

/// Whether `c` is the checkpoint read from its text.
pub open spec fn checkpoint_is(c: Checkpoint, text: Seq<u8>) -> bool {
    let ss = pieces_of(text, record_set());
    &&& c.epoch == parse_radix_spec(after_colon(ss[0])->0, 10)->0
    &&& c.root@ == after_colon(ss[1])->0
}

/// The set of bytes a record's text is cleared of.
fn record_bytes() -> (set: Vec<u8>)
    ensures
        set@ == record_set(),
{
    let set: Vec<u8> = vec![91u8, 93u8, 123u8, 34u8, 125u8];
    assert(set@ =~= record_set());
    set
}

/// Reads a checkpoint from its text; `None` when it cannot be read.
pub fn checkpoint_from(text: &[u8]) -> (c: Option<Checkpoint>)
    ensures
        c is Some <==> checkpoint_ok(text@),
        c matches Some(cp) ==> checkpoint_is(cp, text@),
{
    let set = record_bytes();
    let ss = text_pieces(text, set.as_slice());
    if ss.len() < 2 {
        return None;
    }
    assert(ss@[0]@ == pieces_of(text@, record_set())[0]);
    assert(ss@[1]@ == pieces_of(text@, record_set())[1]);
    let epoch_text = match entry_value(ss[0].as_slice()) {
        Some(w) => w,
        None => {
            return None;
        },
    };
    let epoch = match parse_radix(epoch_text.as_slice(), 10) {
        Some(e) => e,
        None => {
            return None;
        },
    };
    let root = match entry_value(ss[1].as_slice()) {
        Some(w) => w,
        None => {
            return None;
        },
    };
    Some(Checkpoint { epoch, root })
}

/// The JSON text of each field of a beacon state that the reading uses, as
/// the node renders it (strings in double quotes, lists in square
/// brackets, records in braces).
pub struct StateText {
    pub genesis_time: Vec<u8>,
    pub genesis_validators_root: Vec<u8>,
    pub slot: Vec<u8>,
    pub fork_current_version: Vec<u8>,
    pub fork_epoch: Vec<u8>,
    pub fork_previous_version: Vec<u8>,
    pub header_slot: Vec<u8>,
    pub header_proposer_index: Vec<u8>,
    pub header_parent_root: Vec<u8>,
    pub header_state_root: Vec<u8>,
    pub header_body_root: Vec<u8>,
    pub block_roots: Vec<u8>,
    pub state_roots: Vec<u8>,
    pub historical_roots: Vec<u8>,
    pub eth1_deposit_root: Vec<u8>,
    pub eth1_deposit_count: Vec<u8>,
    pub eth1_block_hash: Vec<u8>,
    pub eth1_data_votes: Vec<u8>,
    pub eth1_deposit_index: Vec<u8>,
    pub validators: Vec<u8>,
    pub balances: Vec<u8>,
    pub randao_mixes: Vec<u8>,
    pub slashings: Vec<u8>,
    pub previous_epoch_participation: Vec<u8>,
    pub current_epoch_participation: Vec<u8>,
    pub justification_bits: Vec<u8>,
    pub previous_justified_checkpoint: Vec<u8>,
    pub current_justified_checkpoint: Vec<u8>,
    pub finalized_checkpoint: Vec<u8>,
    pub inactivity_scores: Vec<u8>,
    pub current_sync_committee_pubkeys: Vec<u8>,
    pub current_sync_committee_aggregate_pubkey: Vec<u8>,
    pub next_sync_committee_pubkeys: Vec<u8>,
    pub next_sync_committee_aggregate_pubkey: Vec<u8>,
}

/// Whether the scalar fields of the state text read as numbers.
pub open spec fn scalars_ok(t: StateText) -> bool {
    &&& u64_text(t.genesis_time@) is Some
    &&& u64_text(t.slot@) is Some
    &&& u64_text(t.fork_epoch@) is Some
    &&& u64_text(t.header_slot@) is Some
    &&& u64_text(t.header_proposer_index@) is Some
    &&& u64_text(t.eth1_deposit_count@) is Some
    &&& u64_text(t.eth1_deposit_index@) is Some
}

/// Whether the list and record fields of the state text can be read.
pub open spec fn lists_ok(t: StateText) -> bool {
    &&& votes_ok(pieces_of(t.eth1_data_votes@, record_set()))
    &&& validators_ok(pieces_of(t.validators@, record_set()))
    &&& all_parse(pieces_of(t.balances@, list_set()), 10)
    &&& all_parse(hex_trimmed(pieces_of(t.justification_bits@, record_set())), 16)
    &&& checkpoint_ok(t.previous_justified_checkpoint@)
    &&& checkpoint_ok(t.current_justified_checkpoint@)
    &&& checkpoint_ok(t.finalized_checkpoint@)
    &&& all_parse(pieces_of(t.inactivity_scores@, record_set()), 10)
}

/// Whether a beacon state can be read from the state text.
pub open spec fn state_text_ok(t: StateText) -> bool {
    scalars_ok(t) && lists_ok(t)
}

/// Whether the fork, the latest block header and the eth1 data of `st`
/// are those the state text gives.
pub open spec fn head_is(st: BeaconState, t: StateText) -> bool {
    &&& st.genesis_time == u64_text(t.genesis_time@)->0
    &&& st.genesis_validators_root@ == unquoted(t.genesis_validators_root@)
    &&& st.slot == u64_text(t.slot@)->0
    &&& st.fork.current_version@ == unquoted(t.fork_current_version@)
    &&& st.fork.epoch == u64_text(t.fork_epoch@)->0
    &&& st.fork.previous_version@ == unquoted(t.fork_previous_version@)
    &&& st.latest_block_header.slot == u64_text(t.header_slot@)->0
    &&& st.latest_block_header.proposer_index == u64_text(t.header_proposer_index@)->0
    &&& st.latest_block_header.parent_root@ == unquoted(t.header_parent_root@)
    &&& st.latest_block_header.state_root@ == unquoted(t.header_state_root@)
    &&& st.latest_block_header.body_root@ == unquoted(t.header_body_root@)
    &&& st.block_roots@ == unquoted(t.block_roots@)
    &&& st.state_roots@ == unquoted(t.state_roots@)
    &&& st.historical_roots@ == unquoted(t.historical_roots@)
    &&& st.eth1_data.deposit_root@ == unquoted(t.eth1_deposit_root@)
    &&& st.eth1_data.deposit_count == u64_text(t.eth1_deposit_count@)->0
    &&& st.eth1_data.block_hash@ == unquoted(t.eth1_block_hash@)
    &&& st.eth1_deposit_index == u64_text(t.eth1_deposit_index@)->0
}

/// Whether the lists, checkpoints and sync committees of `st` are those
/// the state text gives.
pub open spec fn body_is(st: BeaconState, t: StateText) -> bool {
    let votes = pieces_of(t.eth1_data_votes@, record_set());
    let vals = pieces_of(t.validators@, record_set());
    let slashings = pieces_of(t.slashings@, record_set());
    let previous = pieces_of(t.previous_epoch_participation@, record_set());
    let current = pieces_of(t.current_epoch_participation@, record_set());
    let bits = pieces_of(t.justification_bits@, record_set());
    &&& st.eth1_data_votes@.len() == votes_len(votes)
    &&& forall|j: int| 0 <= j < st.eth1_data_votes@.len() ==> vote_is(#[trigger] st.eth1_data_votes@[j], votes, j)
    &&& st.validators@.len() == validators_len(vals)
    &&& forall|j: int| 0 <= j < st.validators@.len() ==> validator_is(#[trigger] st.validators@[j], vals, j)
    &&& st.balances@ == parsed(pieces_of(t.balances@, list_set()), 10)
    &&& views(st.randao_mixes@) == unquoted_all(pieces_of(t.randao_mixes@, record_set()))
    &&& views(st.slashings@) == unquoted_all(slashings)
    &&& views(st.previous_epoch_participation@) == unquoted_all(previous)
    &&& views(st.current_epoch_participation@) == unquoted_all(current)
    &&& st.justification_bits@ == parsed(hex_trimmed(bits), 16)
    &&& checkpoint_is(st.previous_justified_checkpoint, t.previous_justified_checkpoint@)
    &&& checkpoint_is(st.current_justified_checkpoint, t.current_justified_checkpoint@)
    &&& checkpoint_is(st.finalized_checkpoint, t.finalized_checkpoint@)
    &&& st.inactivity_scores@ == parsed(pieces_of(t.inactivity_scores@, record_set()), 10)
    &&& views(st.current_sync_committee.pubkeys@) == pieces_of(t.current_sync_committee_pubkeys@, record_set())
    &&& st.current_sync_committee.aggregate_pubkey@ == t.current_sync_committee_aggregate_pubkey@
    &&& views(st.next_sync_committee.pubkeys@) == pieces_of(t.next_sync_committee_pubkeys@, record_set())
    &&& st.next_sync_committee.aggregate_pubkey@ == t.next_sync_committee_aggregate_pubkey@
}

/// Reads a beacon state from the JSON texts of its fields: `Some` exactly
/// when every field can be read, with the state those texts give.
pub fn beacon_state_from_text(t: &StateText) -> (st: Option<BeaconState>)
    ensures
        st is Some <==> state_text_ok(*t),
        st matches Some(s) ==> head_is(s, *t) && body_is(s, *t),
{
    let genesis_time = match string_to_u64(t.genesis_time.as_slice()) {
        Some(v) => v,
        None => {
            return None;
        },
    };
    let slot = match string_to_u64(t.slot.as_slice()) {
        Some(v) => v,
        None => {
            return None;
        },
    };
    let fork_epoch = match string_to_u64(t.fork_epoch.as_slice()) {
        Some(v) => v,
        None => {
            return None;
        },
    };
    let header_slot = match string_to_u64(t.header_slot.as_slice()) {
        Some(v) => v,
        None => {
            return None;
        },
    };
    let proposer_index = match string_to_u64(t.header_proposer_index.as_slice()) {
        Some(v) => v,
        None => {
            return None;
        },
    };
    let deposit_count = match string_to_u64(t.eth1_deposit_count.as_slice()) {
        Some(v) => v,
        None => {
            return None;
        },
    };
    let eth1_deposit_index = match string_to_u64(t.eth1_deposit_index.as_slice()) {
        Some(v) => v,
        None => {
            return None;
        },
    };
    let record = record_bytes();
    let vote_pieces = text_pieces(t.eth1_data_votes.as_slice(), record.as_slice());
    let eth1_data_votes = match eth1_data_votes_from(&vote_pieces) {
        Some(v) => v,
        None => {
            return None;
        },
    };
    let validator_pieces = text_pieces(t.validators.as_slice(), record.as_slice());
    let validators = match validators_from(&validator_pieces) {
        Some(v) => v,
        None => {
            return None;
        },
    };
    let balances = match string_to_vec_u64(t.balances.as_slice()) {
        Some(v) => v,
        None => {
            return None;
        },
    };
    let randao_pieces = text_pieces(t.randao_mixes.as_slice(), record.as_slice());
    let randao_mixes = unquote_all(&randao_pieces);
    let slashing_pieces = text_pieces(t.slashings.as_slice(), record.as_slice());
    let previous_pieces = text_pieces(t.previous_epoch_participation.as_slice(), record.as_slice());
    let current_pieces = text_pieces(t.current_epoch_participation.as_slice(), record.as_slice());
    let bit_pieces = text_pieces(t.justification_bits.as_slice(), record.as_slice());
    let justification_bits = match parse_all(&bit_pieces, 16, true) {
        Some(v) => v,
        None => {
            return None;
        },
    };
    let slashings = unquote_all(&slashing_pieces);
    let previous_epoch_participation = unquote_all(&previous_pieces);
    let current_epoch_participation = unquote_all(&current_pieces);
    let previous_justified_checkpoint = match checkpoint_from(
        t.previous_justified_checkpoint.as_slice(),
    ) {
        Some(c) => c,
        None => {
            return None;
        },
    };
    let current_justified_checkpoint = match checkpoint_from(
        t.current_justified_checkpoint.as_slice(),
    ) {
        Some(c) => c,
        None => {
            return None;
        },
    };
    let finalized_checkpoint = match checkpoint_from(t.finalized_checkpoint.as_slice()) {
        Some(c) => c,
        None => {
            return None;
        },
    };
    let inactivity_pieces = text_pieces(t.inactivity_scores.as_slice(), record.as_slice());
    let inactivity_scores = match parse_all(&inactivity_pieces, 10, false) {
        Some(v) => v,
        None => {
            return None;
        },
    };
    let current_keys = text_pieces(t.current_sync_committee_pubkeys.as_slice(), record.as_slice());
    let next_keys = text_pieces(t.next_sync_committee_pubkeys.as_slice(), record.as_slice());
    let current_aggregate = slice_to_vec(t.current_sync_committee_aggregate_pubkey.as_slice());
    let next_aggregate = slice_to_vec(t.next_sync_committee_aggregate_pubkey.as_slice());
    Some(
        BeaconState {
            genesis_time,
            genesis_validators_root: string_to_vec_u8(t.genesis_validators_root.as_slice()),
            slot,
            fork: Fork {
                current_version: string_to_vec_u8(t.fork_current_version.as_slice()),
                epoch: fork_epoch,
                previous_version: string_to_vec_u8(t.fork_previous_version.as_slice()),
            },
            latest_block_header: BeaconBlockHeader {
                slot: header_slot,
                proposer_index,
                parent_root: string_to_vec_u8(t.header_parent_root.as_slice()),
                state_root: string_to_vec_u8(t.header_state_root.as_slice()),
                body_root: string_to_vec_u8(t.header_body_root.as_slice()),
            },
            block_roots: string_to_vec_u8(t.block_roots.as_slice()),
            state_roots: string_to_vec_u8(t.state_roots.as_slice()),
            historical_roots: string_to_vec_u8(t.historical_roots.as_slice()),
            eth1_data: Eth1Data {
                deposit_root: string_to_vec_u8(t.eth1_deposit_root.as_slice()),
                deposit_count,
                block_hash: string_to_vec_u8(t.eth1_block_hash.as_slice()),
            },
            eth1_data_votes,
            eth1_deposit_index,
            validators,
            balances,
            randao_mixes,
            slashings,
            previous_epoch_participation,
            current_epoch_participation,
            justification_bits,
            previous_justified_checkpoint,
            current_justified_checkpoint,
            finalized_checkpoint,
            inactivity_scores,
            current_sync_committee: SyncCommittee {
                pubkeys: current_keys,
                aggregate_pubkey: current_aggregate,
            },
            next_sync_committee: SyncCommittee { pubkeys: next_keys, aggregate_pubkey: next_aggregate },
        },
    )
}

/// The JSON text of the value that `path` leads to in the JSON document
/// `body`, as `serde_json` renders it (`null` where a key is missing);
/// `None` when `body` is no JSON.
pub uninterp spec fn json_text_at(body: Seq<char>, path: Seq<Seq<char>>) -> Option<Seq<u8>>;

/// Parses `body` with `serde_json::from_str` into a `serde_json::Value`,
/// follows `path` with its `Index` by key, and renders what it reaches with
/// `to_string`. Trusted: the result is the text named
/// `json_text_at(body, path)`; it is `None` exactly when the parse fails.
#[verifier::external_body]
pub(crate) fn json_text(body: &str, path: &Vec<String>) -> (t: Option<Vec<u8>>)
    ensures
        t matches Some(v) ==> json_text_at(body@, path@.map_values(|k: String| k@)) == Some(v@),
        t is None ==> json_text_at(body@, path@.map_values(|k: String| k@)) is None,
{
    let value: serde_json::Value = serde_json::from_str(body).ok()?;
    let mut at = &value;
    for key in path.iter() {
        at = &at[key.as_str()];
    }
    Some(at.to_string().into_bytes())
}

/// The path `a`, `b`.
fn path2(a: &str, b: &str) -> (p: Vec<String>)
    ensures
        p@.map_values(|k: String| k@) == seq![a@, b@],
{
    let mut p: Vec<String> = Vec::new();
    p.push(String::from_str(a));
    p.push(String::from_str(b));
    assert(p@.map_values(|k: String| k@) =~= seq![a@, b@]);
    p
}

/// The path `a`, `b`, `c`.
fn path3(a: &str, b: &str, c: &str) -> (p: Vec<String>)
    ensures
        p@.map_values(|k: String| k@) == seq![a@, b@, c@],
{
    let mut p: Vec<String> = Vec::new();
    p.push(String::from_str(a));
    p.push(String::from_str(b));
    p.push(String::from_str(c));
    assert(p@.map_values(|k: String| k@) =~= seq![a@, b@, c@]);
    p
}

/// The JSON text of each field of the beacon state in a node's answer
/// `body` (under its `data` key): `None` exactly when `body` is no JSON.
#[verifier::rlimit(50)]
pub fn state_text_from_json(body: &str) -> (t: Option<StateText>)
    ensures
        t is Some <==> (json_text_at(body@, seq!["data"@, "genesis_time"@]) is Some &&
            json_text_at(body@, seq!["data"@, "genesis_validators_root"@]) is Some &&
            json_text_at(body@, seq!["data"@, "slot"@]) is Some &&
            json_text_at(body@, seq!["data"@, "fork"@, "current_version"@]) is Some &&
            json_text_at(body@, seq!["data"@, "fork"@, "epoch"@]) is Some &&
            json_text_at(body@, seq!["data"@, "fork"@, "previous_version"@]) is Some &&
            json_text_at(body@, seq!["data"@, "latest_block_header"@, "slot"@]) is Some &&
            json_text_at(body@, seq!["data"@, "latest_block_header"@, "proposer_index"@]) is Some &&
            json_text_at(body@, seq!["data"@, "latest_block_header"@, "parent_root"@]) is Some &&
            json_text_at(body@, seq!["data"@, "latest_block_header"@, "state_root"@]) is Some &&
            json_text_at(body@, seq!["data"@, "latest_block_header"@, "body_root"@]) is Some &&
            json_text_at(body@, seq!["data"@, "block_roots"@]) is Some &&
            json_text_at(body@, seq!["data"@, "state_roots"@]) is Some &&
            json_text_at(body@, seq!["data"@, "historical_roots"@]) is Some &&
            json_text_at(body@, seq!["data"@, "eth1_data"@, "deposit_root"@]) is Some &&
            json_text_at(body@, seq!["data"@, "eth1_data"@, "deposit_count"@]) is Some &&
            json_text_at(body@, seq!["data"@, "eth1_data"@, "block_hash"@]) is Some &&
            json_text_at(body@, seq!["data"@, "eth1_data_votes"@]) is Some &&
            json_text_at(body@, seq!["data"@, "eth1_deposit_index"@]) is Some &&
            json_text_at(body@, seq!["data"@, "validators"@]) is Some &&
            json_text_at(body@, seq!["data"@, "balances"@]) is Some &&
            json_text_at(body@, seq!["data"@, "randao_mixes"@]) is Some &&
            json_text_at(body@, seq!["data"@, "slashings"@]) is Some &&
            json_text_at(body@, seq!["data"@, "previous_epoch_participation"@]) is Some &&
            json_text_at(body@, seq!["data"@, "current_epoch_participation"@]) is Some &&
            json_text_at(body@, seq!["data"@, "justification_bits"@]) is Some &&
            json_text_at(body@, seq!["data"@, "previous_justified_checkpoint"@]) is Some &&
            json_text_at(body@, seq!["data"@, "current_justified_checkpoint"@]) is Some &&
            json_text_at(body@, seq!["data"@, "finalized_checkpoint"@]) is Some &&
            json_text_at(body@, seq!["data"@, "inactivity_scores"@]) is Some &&
            json_text_at(body@, seq!["data"@, "current_sync_committee"@, "pubkeys"@]) is Some &&
            json_text_at(body@, seq!["data"@, "current_sync_committee"@, "aggregate_pubkey"@]) is Some &&
            json_text_at(body@, seq!["data"@, "next_sync_committee"@, "pubkeys"@]) is Some &&
            json_text_at(body@, seq!["data"@, "next_sync_committee"@, "aggregate_pubkey"@]) is Some),
        t matches Some(st) ==> {
            &&& Some(st.genesis_time@) == json_text_at(body@, seq!["data"@, "genesis_time"@])
            &&& Some(st.genesis_validators_root@) == json_text_at(body@, seq!["data"@, "genesis_validators_root"@])
            &&& Some(st.slot@) == json_text_at(body@, seq!["data"@, "slot"@])
            &&& Some(st.fork_current_version@) == json_text_at(body@, seq!["data"@, "fork"@, "current_version"@])
            &&& Some(st.fork_epoch@) == json_text_at(body@, seq!["data"@, "fork"@, "epoch"@])
            &&& Some(st.fork_previous_version@) == json_text_at(body@, seq!["data"@, "fork"@, "previous_version"@])
            &&& Some(st.header_slot@) == json_text_at(body@, seq!["data"@, "latest_block_header"@, "slot"@])
            &&& Some(st.header_proposer_index@) == json_text_at(body@, seq!["data"@, "latest_block_header"@, "proposer_index"@])
            &&& Some(st.header_parent_root@) == json_text_at(body@, seq!["data"@, "latest_block_header"@, "parent_root"@])
            &&& Some(st.header_state_root@) == json_text_at(body@, seq!["data"@, "latest_block_header"@, "state_root"@])
            &&& Some(st.header_body_root@) == json_text_at(body@, seq!["data"@, "latest_block_header"@, "body_root"@])
            &&& Some(st.block_roots@) == json_text_at(body@, seq!["data"@, "block_roots"@])
            &&& Some(st.state_roots@) == json_text_at(body@, seq!["data"@, "state_roots"@])
            &&& Some(st.historical_roots@) == json_text_at(body@, seq!["data"@, "historical_roots"@])
            &&& Some(st.eth1_deposit_root@) == json_text_at(body@, seq!["data"@, "eth1_data"@, "deposit_root"@])
            &&& Some(st.eth1_deposit_count@) == json_text_at(body@, seq!["data"@, "eth1_data"@, "deposit_count"@])
            &&& Some(st.eth1_block_hash@) == json_text_at(body@, seq!["data"@, "eth1_data"@, "block_hash"@])
            &&& Some(st.eth1_data_votes@) == json_text_at(body@, seq!["data"@, "eth1_data_votes"@])
            &&& Some(st.eth1_deposit_index@) == json_text_at(body@, seq!["data"@, "eth1_deposit_index"@])
            &&& Some(st.validators@) == json_text_at(body@, seq!["data"@, "validators"@])
            &&& Some(st.balances@) == json_text_at(body@, seq!["data"@, "balances"@])
            &&& Some(st.randao_mixes@) == json_text_at(body@, seq!["data"@, "randao_mixes"@])
            &&& Some(st.slashings@) == json_text_at(body@, seq!["data"@, "slashings"@])
            &&& Some(st.previous_epoch_participation@) == json_text_at(body@, seq!["data"@, "previous_epoch_participation"@])
            &&& Some(st.current_epoch_participation@) == json_text_at(body@, seq!["data"@, "current_epoch_participation"@])
            &&& Some(st.justification_bits@) == json_text_at(body@, seq!["data"@, "justification_bits"@])
            &&& Some(st.previous_justified_checkpoint@) == json_text_at(body@, seq!["data"@, "previous_justified_checkpoint"@])
            &&& Some(st.current_justified_checkpoint@) == json_text_at(body@, seq!["data"@, "current_justified_checkpoint"@])
            &&& Some(st.finalized_checkpoint@) == json_text_at(body@, seq!["data"@, "finalized_checkpoint"@])
            &&& Some(st.inactivity_scores@) == json_text_at(body@, seq!["data"@, "inactivity_scores"@])
            &&& Some(st.current_sync_committee_pubkeys@) == json_text_at(body@, seq!["data"@, "current_sync_committee"@, "pubkeys"@])
            &&& Some(st.current_sync_committee_aggregate_pubkey@) == json_text_at(body@, seq!["data"@, "current_sync_committee"@, "aggregate_pubkey"@])
            &&& Some(st.next_sync_committee_pubkeys@) == json_text_at(body@, seq!["data"@, "next_sync_committee"@, "pubkeys"@])
            &&& Some(st.next_sync_committee_aggregate_pubkey@) == json_text_at(body@, seq!["data"@, "next_sync_committee"@, "aggregate_pubkey"@])
        },
{
    let genesis_time = match json_text(body, &path2("data", "genesis_time")) {
        Some(v) => v,
        None => {
            return None;
        },
    };
    let genesis_validators_root = match json_text(body, &path2("data", "genesis_validators_root")) {
        Some(v) => v,
        None => {
            return None;
        },
    };
    let slot = match json_text(body, &path2("data", "slot")) {
        Some(v) => v,
        None => {
            return None;
        },
    };
    let fork_current_version = match json_text(body, &path3("data", "fork", "current_version")) {
        Some(v) => v,
        None => {
            return None;
        },
    };
    let fork_epoch = match json_text(body, &path3("data", "fork", "epoch")) {
        Some(v) => v,
        None => {
            return None;
        },
    };
    let fork_previous_version = match json_text(body, &path3("data", "fork", "previous_version")) {
        Some(v) => v,
        None => {
            return None;
        },
    };
    let header_slot = match json_text(body, &path3("data", "latest_block_header", "slot")) {
        Some(v) => v,
        None => {
            return None;
        },
    };
    let header_proposer_index = match json_text(body, &path3("data", "latest_block_header", "proposer_index")) {
        Some(v) => v,
        None => {
            return None;
        },
    };
    let header_parent_root = match json_text(body, &path3("data", "latest_block_header", "parent_root")) {
        Some(v) => v,
        None => {
            return None;
        },
    };
    let header_state_root = match json_text(body, &path3("data", "latest_block_header", "state_root")) {
        Some(v) => v,
        None => {
            return None;
        },
    };
    let header_body_root = match json_text(body, &path3("data", "latest_block_header", "body_root")) {
        Some(v) => v,
        None => {
            return None;
        },
    };
    let block_roots = match json_text(body, &path2("data", "block_roots")) {
        Some(v) => v,
        None => {
            return None;
        },
    };
    let state_roots = match json_text(body, &path2("data", "state_roots")) {
        Some(v) => v,
        None => {
            return None;
        },
    };
    let historical_roots = match json_text(body, &path2("data", "historical_roots")) {
        Some(v) => v,
        None => {
            return None;
        },
    };
    let eth1_deposit_root = match json_text(body, &path3("data", "eth1_data", "deposit_root")) {
        Some(v) => v,
        None => {
            return None;
        },
    };
    let eth1_deposit_count = match json_text(body, &path3("data", "eth1_data", "deposit_count")) {
        Some(v) => v,
        None => {
            return None;
        },
    };
    let eth1_block_hash = match json_text(body, &path3("data", "eth1_data", "block_hash")) {
        Some(v) => v,
        None => {
            return None;
        },
    };
    let eth1_data_votes = match json_text(body, &path2("data", "eth1_data_votes")) {
        Some(v) => v,
        None => {
            return None;
        },
    };
    let eth1_deposit_index = match json_text(body, &path2("data", "eth1_deposit_index")) {
        Some(v) => v,
        None => {
            return None;
        },
    };
    let validators = match json_text(body, &path2("data", "validators")) {
        Some(v) => v,
        None => {
            return None;
        },
    };
    let balances = match json_text(body, &path2("data", "balances")) {
        Some(v) => v,
        None => {
            return None;
        },
    };
    let randao_mixes = match json_text(body, &path2("data", "randao_mixes")) {
        Some(v) => v,
        None => {
            return None;
        },
    };
    let slashings = match json_text(body, &path2("data", "slashings")) {
        Some(v) => v,
        None => {
            return None;
        },
    };
    let previous_epoch_participation = match json_text(body, &path2("data", "previous_epoch_participation")) {
        Some(v) => v,
        None => {
            return None;
        },
    };
    let current_epoch_participation = match json_text(body, &path2("data", "current_epoch_participation")) {
        Some(v) => v,
        None => {
            return None;
        },
    };
    let justification_bits = match json_text(body, &path2("data", "justification_bits")) {
        Some(v) => v,
        None => {
            return None;
        },
    };
    let previous_justified_checkpoint = match json_text(body, &path2("data", "previous_justified_checkpoint")) {
        Some(v) => v,
        None => {
            return None;
        },
    };
    let current_justified_checkpoint = match json_text(body, &path2("data", "current_justified_checkpoint")) {
        Some(v) => v,
        None => {
            return None;
        },
    };
    let finalized_checkpoint = match json_text(body, &path2("data", "finalized_checkpoint")) {
        Some(v) => v,
        None => {
            return None;
        },
    };
    let inactivity_scores = match json_text(body, &path2("data", "inactivity_scores")) {
        Some(v) => v,
        None => {
            return None;
        },
    };
    let current_sync_committee_pubkeys = match json_text(body, &path3("data", "current_sync_committee", "pubkeys")) {
        Some(v) => v,
        None => {
            return None;
        },
    };
    let current_sync_committee_aggregate_pubkey = match json_text(body, &path3("data", "current_sync_committee", "aggregate_pubkey")) {
        Some(v) => v,
        None => {
            return None;
        },
    };
    let next_sync_committee_pubkeys = match json_text(body, &path3("data", "next_sync_committee", "pubkeys")) {
        Some(v) => v,
        None => {
            return None;
        },
    };
    let next_sync_committee_aggregate_pubkey = match json_text(body, &path3("data", "next_sync_committee", "aggregate_pubkey")) {
        Some(v) => v,
        None => {
            return None;
        },
    };
    Some(StateText {
        genesis_time,
        genesis_validators_root,
        slot,
        fork_current_version,
        fork_epoch,
        fork_previous_version,
        header_slot,
        header_proposer_index,
        header_parent_root,
        header_state_root,
        header_body_root,
        block_roots,
        state_roots,
        historical_roots,
        eth1_deposit_root,
        eth1_deposit_count,
        eth1_block_hash,
        eth1_data_votes,
        eth1_deposit_index,
        validators,
        balances,
        randao_mixes,
        slashings,
        previous_epoch_participation,
        current_epoch_participation,
        justification_bits,
        previous_justified_checkpoint,
        current_justified_checkpoint,
        finalized_checkpoint,
        inactivity_scores,
        current_sync_committee_pubkeys,
        current_sync_committee_aggregate_pubkey,
        next_sync_committee_pubkeys,
        next_sync_committee_aggregate_pubkey,
    })
}

/// Whether `s` is one decimal digit or more, and nothing else.
pub open spec fn is_decimal_digits(s: Seq<u8>) -> bool {
    s.len() > 0 && forall|i: int| 0 <= i < s.len() ==> 48 <= #[trigger] s[i] <= 57
}

/// The number that the decimal digits `s` write, most significant first.
pub open spec fn decimal_value(s: Seq<u8>) -> nat
    decreases s.len(),
{
    if s.len() == 0 {
        0
    } else {
        decimal_value(s.drop_last()) * 10 + (s.last() - 48) as nat
    }
}

/// Decimal digits read in base ten give the number they write.
proof fn lemma_digits_in_base_ten(s: Seq<u8>)
    requires
        forall|i: int| 0 <= i < s.len() ==> 48 <= #[trigger] s[i] <= 57,
    ensures
        crate::text::digits_value(s, 10) == Some(decimal_value(s)),
    decreases s.len(),
{
    if s.len() > 0 {
        let pre = s.drop_last();
        assert forall|i: int| 0 <= i < pre.len() implies 48 <= #[trigger] pre[i] <= 57 by {
            assert(pre[i] == s[i]);
        }
        lemma_digits_in_base_ten(pre);
        assert(48 <= s[s.len() - 1] <= 57);
    }
}

/// A piece of decimal digits that reads as a number in base ten reads as
/// the number the digits write.
proof fn lemma_decimal_piece(p: Seq<u8>)
    requires
        is_decimal_digits(p),
        parse_radix_spec(p, 10) is Some,
    ensures
        parse_radix_spec(p, 10)->0 == decimal_value(p),
{
    lemma_digits_in_base_ten(p);
    assert(p[0] != 43);
}

/// The numbers the node writes in decimal are read in base ten: the
/// genesis time and the slot, and every balance and inactivity score whose
/// text is a run of decimal digits, are the numbers those digits write.
pub proof fn lemma_state_numbers_are_decimal(st: BeaconState, t: StateText, k: int)
    requires
        state_text_ok(t),
        head_is(st, t),
        body_is(st, t),
    ensures
        is_decimal_digits(unquoted(t.genesis_time@)) ==> st.genesis_time == decimal_value(
            unquoted(t.genesis_time@),
        ),
        is_decimal_digits(unquoted(t.slot@)) ==> st.slot == decimal_value(unquoted(t.slot@)),
        0 <= k < pieces_of(t.balances@, list_set()).len() && is_decimal_digits(
            pieces_of(t.balances@, list_set())[k],
        ) ==> st.balances@[k] == decimal_value(pieces_of(t.balances@, list_set())[k]),
        0 <= k < pieces_of(t.inactivity_scores@, record_set()).len() && is_decimal_digits(
            pieces_of(t.inactivity_scores@, record_set())[k],
        ) ==> st.inactivity_scores@[k] == decimal_value(
            pieces_of(t.inactivity_scores@, record_set())[k],
        ),
{
    if is_decimal_digits(unquoted(t.genesis_time@)) {
        lemma_decimal_piece(unquoted(t.genesis_time@));
    }
    if is_decimal_digits(unquoted(t.slot@)) {
        lemma_decimal_piece(unquoted(t.slot@));
    }
    let b = pieces_of(t.balances@, list_set());
    if 0 <= k < b.len() && is_decimal_digits(b[k]) {
        assert(parse_radix_spec(b[k], 10) is Some);
        lemma_decimal_piece(b[k]);
    }
    let s = pieces_of(t.inactivity_scores@, record_set());
    if 0 <= k < s.len() && is_decimal_digits(s[k]) {
        assert(parse_radix_spec(s[k], 10) is Some);
        lemma_decimal_piece(s[k]);
    }
}

/// Decimal digits whose number fits a `u64` read in base ten as that
/// number.
proof fn lemma_decimal_fits(p: Seq<u8>)
    requires
        is_decimal_digits(p),
        decimal_value(p) <= u64::MAX,
    ensures
        parse_radix_spec(p, 10) == Some(decimal_value(p) as u64),
{
    lemma_digits_in_base_ten(p);
    assert(p[0] != 43);
}

/// The numbers inside the records of the node's JSON are read in base
/// ten: the deposit count of vote `j`, the effective balance of validator
/// `j` and the finalized checkpoint's epoch, where their texts are runs of
/// decimal digits whose number fits a `u64`, are the numbers those digits
/// write.
pub proof fn lemma_record_numbers_are_decimal(st: BeaconState, t: StateText, j: int)
    requires
        head_is(st, t),
        body_is(st, t),
    ensures
        ({
            let votes = pieces_of(t.eth1_data_votes@, record_set());
            let p = unquoted(after_colon(votes[3 * j + 1])->0);
            0 <= j < st.eth1_data_votes@.len() && is_decimal_digits(p) && decimal_value(p) <= u64::MAX
                ==> st.eth1_data_votes@[j].deposit_count == decimal_value(p)
        }),
        ({
            let vals = pieces_of(t.validators@, record_set());
            let p = unquoted(after_colon(vals[8 * j + 2])->0);
            0 <= j < st.validators@.len() && is_decimal_digits(p) && decimal_value(p) <= u64::MAX
                ==> st.validators@[j].effective_balance == decimal_value(p)
        }),
        ({
            let p = after_colon(pieces_of(t.finalized_checkpoint@, record_set())[0])->0;
            is_decimal_digits(p) && decimal_value(p) <= u64::MAX ==> st.finalized_checkpoint.epoch
                == decimal_value(p)
        }),
{
    let votes = pieces_of(t.eth1_data_votes@, record_set());
    let p = unquoted(after_colon(votes[3 * j + 1])->0);
    if 0 <= j < st.eth1_data_votes@.len() && is_decimal_digits(p) && decimal_value(p) <= u64::MAX {
        assert(vote_is(st.eth1_data_votes@[j], votes, j));
        lemma_decimal_fits(p);
    }
    let vals = pieces_of(t.validators@, record_set());
    let q = unquoted(after_colon(vals[8 * j + 2])->0);
    if 0 <= j < st.validators@.len() && is_decimal_digits(q) && decimal_value(q) <= u64::MAX {
        assert(validator_is(st.validators@[j], vals, j));
        lemma_decimal_fits(q);
    }
    let e = after_colon(pieces_of(t.finalized_checkpoint@, record_set())[0])->0;
    if is_decimal_digits(e) && decimal_value(e) <= u64::MAX {
        lemma_decimal_fits(e);
    }
}

} // verus!
