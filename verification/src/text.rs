//! Scanning UTF-8 text as bytes.
//!
//! The database formats are read byte by byte.  A `str` may only be cut where
//! a character starts, that is, not in front of a UTF-8 continuation byte.

use vstd::prelude::*;
use vstd::string::StringSliceAdditionalSpecFns;
use vstd::utf8::{is_char_boundary, is_continuation_byte, valid_utf8, decode_utf8, encode_utf8};

verus! {

broadcast use vstd::utf8::is_char_boundary_iff_not_is_continuation_byte,
    vstd::utf8::is_char_boundary_start_end_of_seq,
    vstd::utf8::encode_utf8_valid_utf8,
    vstd::utf8::encode_utf8_decode_utf8;

/// A `str` with these bytes can be cut at byte `i`: `i` is within the text and
/// not in front of a continuation byte.
pub open spec fn cuts_at(s: Seq<u8>, i: int) -> bool {
    &&& 0 <= i <= s.len()
    &&& (i == s.len() || !is_continuation_byte(s[i]))
}

/// Index of the first byte that satisfies `pred`, or the length if none does.
pub open spec fn find_first(s: Seq<u8>, pred: spec_fn(u8) -> bool) -> int
    decreases s.len(),
{
    if s.len() == 0 {
        0
    } else if pred(s[0]) {
        0
    } else {
        1 + find_first(s.drop_first(), pred)
    }
}

/// What `find_first` finds: no earlier byte satisfies `pred`, and the byte
/// found (if any) does.
pub proof fn lemma_find_first(s: Seq<u8>, pred: spec_fn(u8) -> bool)
    ensures
        0 <= find_first(s, pred) <= s.len(),
        forall|j: int| 0 <= j < find_first(s, pred) ==> !pred(#[trigger] s[j]),
        find_first(s, pred) < s.len() ==> pred(s[find_first(s, pred)]),
    decreases s.len(),
{
    if s.len() > 0 && !pred(s[0]) {
        lemma_find_first(s.drop_first(), pred);
        assert forall|j: int| 0 <= j < find_first(s, pred) implies !pred(#[trigger] s[j]) by {
            if j > 0 {
                assert(s[j] == s.drop_first()[j - 1]);
            }
        }
    }
}

/// An index with no earlier byte satisfying `pred`, which is the end or a
/// byte satisfying `pred`, is what `find_first` finds.
pub proof fn lemma_find_first_is(s: Seq<u8>, pred: spec_fn(u8) -> bool, i: int)
    requires
        0 <= i <= s.len(),
        forall|j: int| 0 <= j < i ==> !pred(#[trigger] s[j]),
        i < s.len() ==> pred(s[i]),
    ensures
        find_first(s, pred) == i,
    decreases s.len(),
{
    if s.len() > 0 && i > 0 {
        assert(!pred(s[0]));
        assert forall|j: int| 0 <= j < i - 1 implies !pred(#[trigger] s.drop_first()[j]) by {
            assert(s.drop_first()[j] == s[j + 1]);
        }
        lemma_find_first_is(s.drop_first(), pred, i - 1);
    }
}

/// The bytes equal to `target`.
pub open spec fn is_byte(target: u8) -> spec_fn(u8) -> bool {
    |b: u8| b == target
}

/// Position of the first `target` in a window of `bytes` (or the window's
/// end), found by a scan of the window.
pub fn find_in(bytes: &[u8], from: usize, to: usize, target: u8) -> (r: usize)
    requires
        from <= to <= bytes@.len(),
    ensures
        from <= r <= to,
        r - from == find_first(bytes@.subrange(from as int, to as int), is_byte(target)),
{
    let ghost s = bytes@.subrange(from as int, to as int);
    let ghost pred = is_byte(target);
    let mut i = from;
    while i < to && bytes[i] != target
        invariant
            from <= i <= to <= bytes@.len(),
            s == bytes@.subrange(from as int, to as int),
            pred == is_byte(target),
            forall|j: int| 0 <= j < i - from ==> !pred(#[trigger] s[j]),
        decreases to - i,
    {
        i = i + 1;
    }
    proof {
        lemma_find_first_is(s, pred, i - from);
    }
    i
}

/// A cut that `cuts_at` allows is a character boundary of valid UTF-8.
pub proof fn lemma_cut_is_boundary(s: Seq<u8>, i: int)
    requires
        valid_utf8(s),
        cuts_at(s, i),
    ensures
        is_char_boundary(s, i),
{
    if i < s.len() {
        vstd::utf8::is_char_boundary_iff_not_is_continuation_byte(s, i);
    } else {
        vstd::utf8::is_char_boundary_start_end_of_seq(s);
    }
}

/// The bytes of `s` from `from` up to `to`, as a `str`.
pub fn substr(s: &str, from: usize, to: usize) -> (r: &str)
    requires
        from <= to,
        cuts_at(s.spec_bytes(), from as int),
        cuts_at(s.spec_bytes(), to as int),
    ensures
        r.spec_bytes() == s.spec_bytes().subrange(from as int, to as int),
        r@ == decode_utf8(s.spec_bytes().subrange(from as int, to as int)),
{
    let ghost all = s.spec_bytes();
    proof {
        assert(valid_utf8(encode_utf8(s@)));
        lemma_cut_is_boundary(all, from as int);
    }
    let (_head, tail) = s.split_at(from);
    let ghost t = tail.spec_bytes();
    proof {
        assert(valid_utf8(encode_utf8(tail@)));
        assert(t =~= all.subrange(from as int, all.len() as int));
        if to < all.len() {
            assert(t[to - from] == all[to as int]);
        }
        lemma_cut_is_boundary(t, (to - from) as int);
    }
    let (mid, _rest) = tail.split_at(to - from);
    proof {
        assert(mid.spec_bytes() =~= all.subrange(from as int, to as int));
        assert(decode_utf8(encode_utf8(mid@)) == mid@);
    }
    mid
}

} // verus!
