//! Which texts are decimal floating-point numbers.
//!
//! The grammar is the one that `str::parse` documents for floating-point
//! types (letters in either case):
//!
//! ```text
//! Float  ::= Sign? ( 'inf' | 'infinity' | 'nan' | Number )
//! Number ::= ( Digit+ | Digit+ '.' Digit* | Digit* '.' Digit+ ) Exp?
//! Exp    ::= 'e' Sign? Digit+
//! Sign   ::= [+-]
//! Digit  ::= [0-9]
//! ```

use vstd::prelude::*;
use crate::text::{find_first, find_in, is_byte};

verus! {

/// An ASCII digit.
pub open spec fn is_digit(b: u8) -> bool {
    0x30 <= b <= 0x39
}

/// An ASCII letter folded to lower case; other bytes unchanged.
pub open spec fn fold_case(b: u8) -> u8 {
    if 0x41 <= b <= 0x5A {
        (b + 0x20) as u8
    } else {
        b
    }
}

/// Every byte is a digit.
pub open spec fn all_digits(s: Seq<u8>) -> bool {
    forall|i: int| 0 <= i < s.len() ==> is_digit(#[trigger] s[i])
}

/// `s` spells `word` (a lower-case ASCII word), ignoring case.
pub open spec fn spells(s: Seq<u8>, word: Seq<u8>) -> bool {
    &&& s.len() == word.len()
    &&& forall|i: int| 0 <= i < s.len() ==> fold_case(#[trigger] s[i]) == word[i]
}

/// `+` or `-`.
pub open spec fn is_sign(b: u8) -> bool {
    b == 0x2B || b == 0x2D
}

/// `Digit+ | Digit+ '.' Digit* | Digit* '.' Digit+`.
pub open spec fn is_mantissa(s: Seq<u8>) -> bool {
    let p = find_first(s, is_byte(0x2E));
    if p == s.len() {
        s.len() > 0 && all_digits(s)
    } else {
        all_digits(s.take(p)) && all_digits(s.skip(p + 1)) && s.len() > 1
    }
}

/// `Sign? Digit+`.
pub open spec fn is_exponent(s: Seq<u8>) -> bool {
    let d = if s.len() > 0 && is_sign(s[0]) {
        s.skip(1)
    } else {
        s
    };
    d.len() > 0 && all_digits(d)
}

/// `Number`.
pub open spec fn is_number(s: Seq<u8>) -> bool {
    let e = find_first(s, |b: u8| fold_case(b) == 0x65);
    if e == s.len() {
        is_mantissa(s)
    } else {
        is_mantissa(s.take(e)) && is_exponent(s.skip(e + 1))
    }
}

/// `Float`: the texts that parse as a floating-point number.
pub open spec fn is_float_text(s: Seq<u8>) -> bool {
    let t = if s.len() > 0 && is_sign(s[0]) {
        s.skip(1)
    } else {
        s
    };
    ||| spells(t, seq![0x69u8, 0x6E, 0x66])
    ||| spells(t, seq![0x69u8, 0x6E, 0x66, 0x69, 0x6E, 0x69, 0x74, 0x79])
    ||| spells(t, seq![0x6Eu8, 0x61, 0x6E])
    ||| is_number(t)
}

fn all_digits_in(bytes: &[u8], from: usize, to: usize) -> (r: bool)
    requires
        from <= to <= bytes@.len(),
    ensures
        r == all_digits(bytes@.subrange(from as int, to as int)),
{
    let mut i = from;
    while i < to
        invariant
            from <= i <= to <= bytes@.len(),
            all_digits(bytes@.subrange(from as int, i as int)),
        decreases to - i,
    {
        if !(0x30 <= bytes[i] && bytes[i] <= 0x39) {
            assert(bytes@.subrange(from as int, to as int)[i - from] == bytes@[i as int]);
            return false;
        }
        assert(bytes@.subrange(from as int, i + 1) =~= bytes@.subrange(from as int, i as int).push(
            bytes@[i as int],
        ));
        i = i + 1;
    }
    true
}

fn spells_in(bytes: &[u8], from: usize, to: usize, word: &[u8]) -> (r: bool)
    requires
        from <= to <= bytes@.len(),
    ensures
        r == spells(bytes@.subrange(from as int, to as int), word@),
{
    let ghost s = bytes@.subrange(from as int, to as int);
    if to - from != word.len() {
        return false;
    }
    let mut i: usize = 0;
    while i < word.len()
        invariant
            from <= to <= bytes@.len(),
            s == bytes@.subrange(from as int, to as int),
            to - from == word@.len(),
            i <= word@.len(),
            forall|j: int| 0 <= j < i ==> fold_case(#[trigger] s[j]) == word@[j],
        decreases word.len() - i,
    {
        let b = bytes[from + i];
        let folded: u8 = if 0x41 <= b && b <= 0x5A {
            b + 0x20
        } else {
            b
        };
        assert(s[i as int] == b);
        if folded != word[i] {
            return false;
        }
        i = i + 1;
    }
    true
}

fn is_mantissa_in(bytes: &[u8], from: usize, to: usize) -> (r: bool)
    requires
        from <= to <= bytes@.len(),
    ensures
        r == is_mantissa(bytes@.subrange(from as int, to as int)),
{
    let ghost s = bytes@.subrange(from as int, to as int);
    let p = find_in(bytes, from, to, 0x2E);
    if p == to {
        to > from && all_digits_in(bytes, from, to)
    } else {
        proof {
            assert(s.take(p - from) =~= bytes@.subrange(from as int, p as int));
            assert(s.skip(p - from + 1) =~= bytes@.subrange(p + 1, to as int));
        }
        all_digits_in(bytes, from, p) && all_digits_in(bytes, p + 1, to) && to - from > 1
    }
}

fn is_exponent_in(bytes: &[u8], from: usize, to: usize) -> (r: bool)
    requires
        from <= to <= bytes@.len(),
    ensures
        r == is_exponent(bytes@.subrange(from as int, to as int)),
{
    let ghost s = bytes@.subrange(from as int, to as int);
    let mut start = from;
    if from < to && (bytes[from] == 0x2B || bytes[from] == 0x2D) {
        start = from + 1;
        assert(s.skip(1) =~= bytes@.subrange(start as int, to as int));
    }
    start < to && all_digits_in(bytes, start, to)
}

fn is_number_in(bytes: &[u8], from: usize, to: usize) -> (r: bool)
    requires
        from <= to <= bytes@.len(),
    ensures
        r == is_number(bytes@.subrange(from as int, to as int)),
{
    let ghost s = bytes@.subrange(from as int, to as int);
    let ghost pred = |b: u8| fold_case(b) == 0x65;
    let mut e = from;
    while e < to && bytes[e] != 0x65 && bytes[e] != 0x45
        invariant
            from <= e <= to <= bytes@.len(),
            s == bytes@.subrange(from as int, to as int),
            pred == (|b: u8| fold_case(b) == 0x65),
            forall|j: int| 0 <= j < e - from ==> !pred(#[trigger] s[j]),
        decreases to - e,
    {
        e = e + 1;
    }
    proof {
        crate::text::lemma_find_first_is(s, pred, e - from);
    }
    if e == to {
        is_mantissa_in(bytes, from, to)
    } else {
        proof {
            assert(s.take(e - from) =~= bytes@.subrange(from as int, e as int));
            assert(s.skip(e - from + 1) =~= bytes@.subrange(e + 1, to as int));
        }
        is_mantissa_in(bytes, from, e) && is_exponent_in(bytes, e + 1, to)
    }
}

/// Whether `bytes[from..to]` is a floating-point number as `str::parse`
/// reads one.
pub fn is_float_text_in(bytes: &[u8], from: usize, to: usize) -> (r: bool)
    requires
        from <= to <= bytes@.len(),
    ensures
        r == is_float_text(bytes@.subrange(from as int, to as int)),
{
    let ghost s = bytes@.subrange(from as int, to as int);
    let mut start = from;
    if from < to && (bytes[from] == 0x2B || bytes[from] == 0x2D) {
        start = from + 1;
        assert(s.skip(1) =~= bytes@.subrange(start as int, to as int));
    }
    let inf: [u8; 3] = [0x69, 0x6E, 0x66];
    let infinity: [u8; 8] = [0x69, 0x6E, 0x66, 0x69, 0x6E, 0x69, 0x74, 0x79];
    let nan: [u8; 3] = [0x6E, 0x61, 0x6E];
    assert(inf@ =~= seq![0x69u8, 0x6E, 0x66]);
    assert(infinity@ =~= seq![0x69u8, 0x6E, 0x66, 0x69, 0x6E, 0x69, 0x74, 0x79]);
    assert(nan@ =~= seq![0x6Eu8, 0x61, 0x6E]);
    spells_in(bytes, start, to, &inf) || spells_in(bytes, start, to, &infinity) || spells_in(
        bytes,
        start,
        to,
        &nan,
    ) || is_number_in(bytes, start, to)
}

} // verus!
