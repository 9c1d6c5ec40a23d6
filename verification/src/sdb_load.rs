//! What loading the compiled database gives back: each controller file's
//! name, type and remappings.

use vstd::prelude::*;
use vstd::utf8::{decode_utf8, encode_utf8, is_continuation_byte};
use crate::digits::{digits_value, digit_value, lemma_parsed_bytes, parse_unsigned, unsigned_digits, parse_i64};
use crate::float_text::{
    all_digits, fold_case, is_digit, is_exponent, is_float_text, is_mantissa, is_number, is_sign,
    spells,
};
use crate::text::{cuts_at, find_first, is_byte, lemma_find_first, lemma_find_first_is};
use crate::sdb::{
    bytes_lt,
    bytes_of, dec_bytes, signed_dec, number_text, drop_last_byte, entry_bytes, entry_ok, event_code, file_ok, hex2, hex_byte, hex_char,
    db_bytes, insert_sorted, key_code, line_bytes, sort_key, sorted_indices, sorted_remap, target_code,
    terminated, text_bytes, tweak, tweaks_bytes, type_letter, ControllerFile, Target,
};
use crate::remap::{
    after_first_line, first_line_len, is_tweak_stop, spec_line, spec_load, spec_tweaks, spec_event,
    spec_events, string_view, text_view,
    InfoView, MappingView,
};

verus! {

broadcast use vstd::utf8::encode_utf8_decode_utf8;

/// `terminated` read from the front: the first part, its separator, then
/// the others.
proof fn lemma_terminated_front(a: Seq<u8>, t: Seq<Seq<u8>>, sep: u8)
    ensures
        terminated(seq![a] + t, sep) == a + seq![sep] + terminated(t, sep),
    decreases t.len(),
{
    if t.len() == 0 {
        assert((seq![a] + t).drop_last() =~= Seq::<Seq<u8>>::empty());
        assert((seq![a] + t).last() == a);
        assert(terminated(Seq::<Seq<u8>>::empty(), sep) == Seq::<u8>::empty());
        assert(terminated(seq![a] + t, sep) =~= a + seq![sep] + terminated(t, sep));
    } else {
        lemma_terminated_front(a, t.drop_last(), sep);
        assert((seq![a] + t).drop_last() =~= seq![a] + t.drop_last());
        assert(terminated(seq![a] + t, sep) =~= a + seq![sep] + terminated(t, sep));
    }
}

/// Two hexadecimal digits read back as the byte they were written from.
proof fn lemma_hex2_parse(b: u8)
    ensures
        parse_unsigned(hex2(b), 16, 0xFF) == Some(b as nat),
        !is_continuation_byte(hex2(b)[0]),
        !is_continuation_byte(hex2(b)[1]),
        hex2(b)[0] != 0x3B && hex2(b)[1] != 0x3B,
        hex2(b)[0] != 0x0A && hex2(b)[1] != 0x0A,
        hex2(b)[0] != 0x0D && hex2(b)[1] != 0x0D,
        hex2(b)[0] != 0x09 && hex2(b)[1] != 0x09,
        !(0x61 <= hex2(b)[0] <= 0x7A) && !(0x61 <= hex2(b)[1] <= 0x7A),
{
    let h = hex2(b);
    let hi = (b / 16) as nat;
    let lo = (b % 16) as nat;
    assert(digit_value(hex_byte(hi), 16) == Some(hi));
    assert(digit_value(hex_byte(lo), 16) == Some(lo));
    assert(unsigned_digits(h) == h);
    assert(h.drop_last() =~= seq![hex_byte(hi)]);
    assert(h.drop_last().drop_last() =~= Seq::<u8>::empty());
    assert(digits_value(h.drop_last().drop_last(), 16) == Some(0nat));
    assert(digits_value(h.drop_last(), 16) == Some(hi));
    assert(digits_value(h, 16) == Some(hi * 16 + lo));
    assert(hi * 16 + lo == b);
    assert(!is_continuation_byte(h[0]) && !is_continuation_byte(h[1])) by {
        assert(h[0] < 0x80 && h[1] < 0x80);
    }
}

/// An ASCII byte that separates nothing in the database: not a tab, line
/// ending or `;`.
pub open spec fn is_plain(b: u8) -> bool {
    b < 0x80 && b != 0x09 && b != 0x0A && b != 0x0D && b != 0x3B
}

/// Every byte of `s` is plain.
pub open spec fn all_plain(s: Seq<u8>) -> bool {
    forall|i: int| 0 <= i < s.len() ==> is_plain(#[trigger] s[i])
}

proof fn lemma_digits_plain(s: Seq<u8>)
    requires
        all_digits(s),
    ensures
        all_plain(s),
{
    assert forall|i: int| 0 <= i < s.len() implies is_plain(#[trigger] s[i]) by {
        assert(is_digit(s[i]));
    }
}

proof fn lemma_mantissa_plain(s: Seq<u8>)
    requires
        is_mantissa(s),
    ensures
        all_plain(s),
{
    let p = find_first(s, is_byte(0x2E));
    lemma_find_first(s, is_byte(0x2E));
    if p == s.len() {
        lemma_digits_plain(s);
    } else {
        lemma_digits_plain(s.take(p));
        lemma_digits_plain(s.skip(p + 1));
        assert forall|i: int| 0 <= i < s.len() implies is_plain(#[trigger] s[i]) by {
            if i < p {
                assert(s[i] == s.take(p)[i]);
            } else if i > p {
                assert(s[i] == s.skip(p + 1)[i - p - 1]);
            }
        }
    }
}

proof fn lemma_exponent_plain(s: Seq<u8>)
    requires
        is_exponent(s),
    ensures
        all_plain(s),
{
    if s.len() > 0 && is_sign(s[0]) {
        lemma_digits_plain(s.skip(1));
        assert forall|i: int| 0 <= i < s.len() implies is_plain(#[trigger] s[i]) by {
            if i > 0 {
                assert(s[i] == s.skip(1)[i - 1]);
            }
        }
    } else {
        lemma_digits_plain(s);
    }
}

proof fn lemma_number_plain(s: Seq<u8>)
    requires
        is_number(s),
    ensures
        all_plain(s),
{
    let pred = |b: u8| fold_case(b) == 0x65;
    let e = find_first(s, pred);
    lemma_find_first(s, pred);
    if e == s.len() {
        lemma_mantissa_plain(s);
    } else {
        lemma_mantissa_plain(s.take(e));
        lemma_exponent_plain(s.skip(e + 1));
        assert forall|i: int| 0 <= i < s.len() implies is_plain(#[trigger] s[i]) by {
            if i < e {
                assert(s[i] == s.take(e)[i]);
            } else if i > e {
                assert(s[i] == s.skip(e + 1)[i - e - 1]);
            } else {
                assert(pred(s[e]));
            }
        }
    }
}

proof fn lemma_spells_plain(s: Seq<u8>, word: Seq<u8>)
    requires
        spells(s, word),
        forall|i: int| 0 <= i < word.len() ==> 0x61 <= #[trigger] word[i] <= 0x7A,
    ensures
        all_plain(s),
{
    assert forall|i: int| 0 <= i < s.len() implies is_plain(#[trigger] s[i]) by {
        assert(fold_case(s[i]) == word[i]);
    }
}

/// The texts of floating-point numbers are plain.
pub proof fn lemma_float_text_plain(s: Seq<u8>)
    requires
        is_float_text(s),
    ensures
        all_plain(s),
{
    let t = if s.len() > 0 && is_sign(s[0]) {
        s.skip(1)
    } else {
        s
    };
    let inf = seq![0x69u8, 0x6E, 0x66];
    let infinity = seq![0x69u8, 0x6E, 0x66, 0x69, 0x6E, 0x69, 0x74, 0x79];
    let nan = seq![0x6Eu8, 0x61, 0x6E];
    if spells(t, inf) {
        lemma_spells_plain(t, inf);
    } else if spells(t, infinity) {
        lemma_spells_plain(t, infinity);
    } else if spells(t, nan) {
        lemma_spells_plain(t, nan);
    } else {
        lemma_number_plain(t);
    }
    assert forall|i: int| 0 <= i < s.len() implies is_plain(#[trigger] s[i]) by {
        if s.len() > 0 && is_sign(s[0]) {
            if i > 0 {
                assert(s[i] == t[i - 1]);
            }
        } else {
            assert(s[i] == t[i]);
        }
    }
}

/// What loading gives for a remapping's target: the event's code and, for a
/// table, its maximum, minimum, scale and deadzone.
pub open spec fn mapping_of(t: Target) -> MappingView {
    match t {
        Target::Event(_) => MappingView {
            out: target_code(t)->0,
            deadzone: None,
            scale: None,
            unsigned: 0,
            max: None,
            min: None,
        },
        Target::Table(tw) => MappingView {
            out: target_code(t)->0,
            deadzone: string_view(tw.deadzone),
            scale: string_view(tw.scale),
            unsigned: 0,
            max: tw.max,
            min: tw.min,
        },
    }
}

/// The remappings `s` recorded in order into `acc`, a later one for the
/// same input replacing an earlier one.
pub open spec fn fold_maps(acc: Map<u8, MappingView>, s: Seq<(String, Target)>) -> Map<
    u8,
    MappingView,
>
    decreases s.len(),
{
    if s.len() == 0 {
        acc
    } else {
        fold_maps(acc.insert(key_code(s[0].0@)->0, mapping_of(s[0].1)), s.drop_first())
    }
}

/// Whether an optional scale or deadzone text reads back: a number text in
/// which no byte ends a tweak (no lower-case letter, no non-ASCII byte).
pub open spec fn text_loadable(t: Option<String>) -> bool {
    match t {
        None => true,
        Some(s) => is_float_text(bytes_of(s)) && forall|i: int|
            0 <= i < bytes_of(s).len() ==> !(is_tweak_stop())(#[trigger] bytes_of(s)[i]),
    }
}

/// Whether a remapping's target reads back: its scale and deadzone texts
/// must (its maximum and minimum always do).
pub open spec fn target_loadable(t: Target) -> bool {
    match t {
        Target::Event(_) => true,
        Target::Table(tw) => text_loadable(tw.scale)
            && text_loadable(tw.deadzone),
    }
}

proof fn lemma_text_plain(t: Option<String>)
    requires
        text_loadable(t),
    ensures
        t matches Some(s) ==> all_plain(bytes_of(s)) && bytes_of(s).len() > 0,
{
    if let Some(s) = t {
        lemma_float_text_plain(bytes_of(s));
        if bytes_of(s).len() == 0 {
            let e = bytes_of(s);
            assert(find_first(e, |b: u8| fold_case(b) == 0x65) == 0);
            assert(find_first(e, is_byte(0x2E)) == 0);
        }
    }
}

/// A text tweak read back: its letter, then its text up to the next tweak.
#[verifier::spinoff_prover]
#[verifier::rlimit(40)]
proof fn lemma_text_tweak(
    e: Seq<u8>,
    cursor: int,
    letter: u8,
    text: Seq<u8>,
    d: Option<Seq<u8>>,
    s: Option<Seq<u8>>,
    u: u16,
    a: Option<i64>,
    i: Option<i64>,
)
    requires
        0 <= cursor,
        cursor + 1 + text.len() <= e.len(),
        e.subrange(cursor, cursor + 1 + text.len()) == seq![letter] + text,
        letter == 0x73 || letter == 0x64,
        is_float_text(text),
        all_plain(text),
        text.len() > 0,
        forall|i: int| 0 <= i < text.len() ==> !(is_tweak_stop())(#[trigger] text[i]),
        cursor + 1 + text.len() < e.len() ==> 0x61 <= e[cursor + 1 + text.len()] <= 0x7A,
    ensures
        spec_tweaks(e, cursor, d, s, u, a, i) == if letter == 0x64 {
            spec_tweaks(e, cursor + 1 + text.len(), Some(text), s, u, a, i)
        } else {
            spec_tweaks(e, cursor + 1 + text.len(), d, Some(text), u, a, i)
        },
{
    let end = cursor + 1 + text.len();
    let sub = e.subrange(cursor, end);
    assert(sub[0] == e[cursor]);
    assert(sub[0] == letter);
    assert forall|j: int| 0 <= j < text.len() implies e[cursor + 1 + j] == #[trigger] text[j] by {
        assert(sub[1 + j] == e[cursor + 1 + j]);
        assert(sub[1 + j] == text[j]);
    }
    assert(e[cursor + 1] == text[0]) by {
        assert(text[0] == e[cursor + 1 + 0]);
    }
    assert(is_plain(text[0]));
    let rest = e.skip(cursor + 1);
    assert forall|j: int| 0 <= j < text.len() implies !(is_tweak_stop())(#[trigger] rest[j]) by {
        assert(rest[j] == e[cursor + 1 + j]);
        assert(text[j] == e[cursor + 1 + j]);
    }
    if end < e.len() {
        assert(rest[text.len() as int] == e[end]);
    }
    lemma_find_first_is(rest, is_tweak_stop(), text.len() as int);
    assert forall|k: int| 0 <= k < text.len() implies e.subrange(cursor + 1, end)[k] == #[trigger] text[k] by {
        assert(text[k] == e[cursor + 1 + k]);
    }
    assert(e.subrange(cursor + 1, end) =~= text);
}

/// The decimal digits of `n` spell `n`.
proof fn lemma_dec_bytes(n: nat)
    ensures
        dec_bytes(n).len() > 0,
        digits_value(dec_bytes(n), 10) == Some(n),
        forall|k: int| 0 <= k < dec_bytes(n).len() ==> 0x30 <= #[trigger] dec_bytes(n)[k] <= 0x39,
    decreases n,
{
    if n >= 10 {
        lemma_dec_bytes(n / 10);
        let s = dec_bytes(n / 10);
        let t = s.push((n % 10 + 48) as u8);
        assert(dec_bytes(n) == t);
        assert(t.drop_last() =~= s);
        assert(t.last() == (n % 10 + 48) as u8);
        assert(digit_value(t.last(), 10) == Some((n % 10) as nat));
        assert(n == (n / 10) * 10 + n % 10);
        assert(digits_value(t, 10) == Some(((n / 10) * 10 + n % 10) as nat));
        assert forall|k: int| 0 <= k < t.len() implies 0x30 <= #[trigger] t[k] <= 0x39 by {
            if k < s.len() {
                assert(t[k] == s[k]);
            }
        }
    } else {
        let t = dec_bytes(n);
        assert(t == seq![(n + 48) as u8]);
        assert(t.drop_last() =~= Seq::<u8>::empty());
        assert(digits_value(t.drop_last(), 10) == Some(0nat));
        assert(digit_value(t.last(), 10) == Some(n));
    }
}

/// A number tweak's text: digits, with a leading `-` when negative.
pub open spec fn is_number_byte(b: u8) -> bool {
    (0x30 <= b <= 0x39) || b == 0x2D
}

/// An `i64` written in decimal reads back as itself.
proof fn lemma_signed_dec(v: i64)
    ensures
        parse_i64(signed_dec(v as int)) == Some(v),
        signed_dec(v as int).len() > 0,
        forall|k: int| 0 <= k < signed_dec(v as int).len() ==> is_number_byte(
            #[trigger] signed_dec(v as int)[k],
        ),
{
    let t = signed_dec(v as int);
    if v < 0 {
        let n = (-(v as int)) as nat;
        lemma_dec_bytes(n);
        let d = dec_bytes(n);
        assert(t =~= seq![0x2Du8] + d);
        assert(t.skip(1) =~= d);
        assert forall|k: int| 0 <= k < t.len() implies is_number_byte(#[trigger] t[k]) by {
            if k > 0 {
                assert(t[k] == d[k - 1]);
            }
        }
    } else {
        lemma_dec_bytes(v as nat);
        assert(unsigned_digits(t) == t);
    }
}

/// A number tweak read back: its letter, then its number up to the next
/// tweak.
#[verifier::spinoff_prover]
#[verifier::rlimit(40)]
proof fn lemma_number_tweak(
    e: Seq<u8>,
    cursor: int,
    letter: u8,
    v: i64,
    d: Option<Seq<u8>>,
    s: Option<Seq<u8>>,
    u: u16,
    a: Option<i64>,
    i: Option<i64>,
)
    requires
        0 <= cursor,
        cursor + 1 + signed_dec(v as int).len() <= e.len(),
        e.subrange(cursor, cursor + 1 + signed_dec(v as int).len()) == seq![letter] + signed_dec(v as int),
        letter == 0x61 || letter == 0x69,
        cursor + 1 + signed_dec(v as int).len() < e.len() ==> 0x61 <= e[cursor + 1
            + signed_dec(v as int).len()] <= 0x7A,
    ensures
        spec_tweaks(e, cursor, d, s, u, a, i) == if letter == 0x61 {
            spec_tweaks(e, cursor + 1 + signed_dec(v as int).len(), d, s, u, Some(v), i)
        } else {
            spec_tweaks(e, cursor + 1 + signed_dec(v as int).len(), d, s, u, a, Some(v))
        },
{
    lemma_signed_dec(v);
    let text = signed_dec(v as int);
    let end = cursor + 1 + text.len();
    let sub = e.subrange(cursor, end);
    assert(sub[0] == e[cursor]);
    assert(sub[0] == letter);
    assert forall|j: int| 0 <= j < text.len() implies e[cursor + 1 + j] == #[trigger] text[j] by {
        assert(sub[1 + j] == e[cursor + 1 + j]);
        assert(sub[1 + j] == text[j]);
    }
    assert(e[cursor + 1] == text[0]) by {
        assert(text[0] == e[cursor + 1 + 0]);
    }
    assert(is_number_byte(text[0]));
    let rest = e.skip(cursor + 1);
    assert forall|j: int| 0 <= j < text.len() implies !(is_tweak_stop())(#[trigger] rest[j]) by {
        assert(rest[j] == e[cursor + 1 + j]);
        assert(text[j] == e[cursor + 1 + j]);
        assert(is_number_byte(text[j]));
    }
    if end < e.len() {
        assert(rest[text.len() as int] == e[end]);
    }
    lemma_find_first_is(rest, is_tweak_stop(), text.len() as int);
    assert forall|k: int| 0 <= k < text.len() implies e.subrange(cursor + 1, end)[k] == #[trigger] text[k] by {
        assert(text[k] == e[cursor + 1 + k]);
    }
    assert(e.subrange(cursor + 1, end) =~= text);
}

/// A tweak part starts with a lower-case letter, if it is not empty.
pub open spec fn starts_lower(t: Seq<u8>) -> bool {
    t.len() > 0 ==> 0x61 <= t[0] <= 0x7A
}

/// In four tweak parts one after the other, the byte at the start of the
/// second, third or fourth part, if there is one, is a lower-case letter.
proof fn lemma_part_starts(x: Seq<u8>, p: Seq<u8>, q: Seq<u8>, r: Seq<u8>, w: Seq<u8>, o: int)
    requires
        x == p + q + r + w,
        starts_lower(q) && starts_lower(r) && starts_lower(w),
        o == p.len() || o == p.len() + q.len() || o == p.len() + q.len() + r.len(),
        o < x.len(),
    ensures
        0x61 <= x[o] <= 0x7A,
{
    let pq: int = p.len() as int + q.len() as int;
    let pqr: int = pq + r.len() as int;
    if o == p.len() && q.len() > 0 {
        assert(x[o] == q[0]);
    } else if o <= pq && r.len() > 0 {
        assert(x[pq] == r[0]);
    } else if o <= pqr {
        assert(x[pqr] == w[0]);
    }
}

/// A part of the bytes after an event's two codes, in place.
proof fn lemma_skip_part(e: Seq<u8>, pre: Seq<u8>, part: Seq<u8>, post: Seq<u8>)
    requires
        e.len() >= 4,
        e.skip(4) == pre + part + post,
    ensures
        e.subrange(4 + pre.len() as int, 4 + pre.len() as int + part.len() as int) == part,
        4 + pre.len() + part.len() <= e.len(),
{
    let x = e.skip(4);
    let a: int = 4 + pre.len() as int;
    let b: int = a + part.len() as int;
    assert(x.len() == e.len() - 4);
    assert forall|j: int| 0 <= j < part.len() implies e.subrange(a, b)[j] == #[trigger] part[j] by {
        assert(e[a + j] == x[pre.len() + j]);
        assert(x[pre.len() + j] == part[j]);
    }
    assert(e.subrange(a, b) =~= part);
}

/// The tweaks of a table that reads back: its maximum, minimum, scale and
/// deadzone, in that order.
#[verifier::spinoff_prover]
#[verifier::rlimit(40)]
proof fn lemma_tweaks_parse(e: Seq<u8>, tw: crate::sdb::Tweaks)
    requires
        e.len() >= 4,
        e.skip(4) == tweaks_bytes(tw),
        text_loadable(tw.scale),
        text_loadable(tw.deadzone),
    ensures
        spec_tweaks(e, 4, None, None, 0, None, None) == Some(
            (text_bytes(tw.deadzone), text_bytes(tw.scale), 0u16, tw.max, tw.min),
        ),
{
    lemma_text_plain(tw.scale);
    lemma_text_plain(tw.deadzone);
    let mx = tweak(0x61, number_text(tw.max));
    let mn = tweak(0x69, number_text(tw.min));
    let sc = tweak(0x73, text_bytes(tw.scale));
    let dz = tweak(0x64, text_bytes(tw.deadzone));
    let x = e.skip(4);
    assert(x =~= mx + mn + sc + dz);
    assert(starts_lower(mn) && starts_lower(sc) && starts_lower(dz));
    let p1: int = 4 + mx.len() as int;
    let p2: int = p1 + mn.len() as int;
    let p3: int = p2 + sc.len() as int;
    assert(e.len() == p3 + dz.len());
    assert(p1 < e.len() ==> 0x61 <= e[p1] <= 0x7A) by {
        if p1 < e.len() {
            lemma_part_starts(x, mx, mn, sc, dz, p1 - 4);
        }
    }
    assert(p2 < e.len() ==> 0x61 <= e[p2] <= 0x7A) by {
        if p2 < e.len() {
            lemma_part_starts(x, mx, mn, sc, dz, p2 - 4);
        }
    }
    assert(p3 < e.len() ==> 0x61 <= e[p3] <= 0x7A) by {
        if p3 < e.len() {
            lemma_part_starts(x, mx, mn, sc, dz, p3 - 4);
        }
    }
    let dzt = text_bytes(tw.deadzone);
    let sct = text_bytes(tw.scale);
    let fin = Some((dzt, sct, 0u16, tw.max, tw.min));
    assert(spec_tweaks(e, e.len() as int, dzt, sct, 0, tw.max, tw.min) == fin);
    assert(spec_tweaks(e, p3, None, sct, 0, tw.max, tw.min) == fin) by {
        if let Some(t) = tw.deadzone {
            assert(x =~= (mx + mn + sc) + dz + Seq::<u8>::empty());
            lemma_skip_part(e, mx + mn + sc, dz, Seq::<u8>::empty());
            lemma_text_tweak(e, p3, 0x64, bytes_of(t), None, sct, 0, tw.max, tw.min);
        }
    }
    assert(spec_tweaks(e, p2, None, None, 0, tw.max, tw.min) == fin) by {
        if let Some(t) = tw.scale {
            assert(x =~= (mx + mn) + sc + dz);
            lemma_skip_part(e, mx + mn, sc, dz);
            lemma_text_tweak(e, p2, 0x73, bytes_of(t), None, None, 0, tw.max, tw.min);
        }
    }
    assert(spec_tweaks(e, p1, None, None, 0, tw.max, None) == fin) by {
        if let Some(v) = tw.min {
            assert(x =~= mx + mn + (sc + dz));
            lemma_skip_part(e, mx, mn, sc + dz);
            lemma_number_tweak(e, p1, 0x69, v, None, None, 0, tw.max, None);
        }
    }
    if let Some(v) = tw.max {
        assert(x =~= Seq::<u8>::empty() + mx + (mn + sc + dz));
        lemma_skip_part(e, Seq::<u8>::empty(), mx, mn + sc + dz);
        lemma_number_tweak(e, 4, 0x61, v, None, None, 0, None, None);
    }
}

/// A remapping's bytes are plain and hold at least the two codes.
#[verifier::spinoff_prover]
#[verifier::rlimit(40)]
proof fn lemma_entry_plain(k: String, t: Target)
    requires
        entry_ok(k, t),
        target_loadable(t),
    ensures
        all_plain(entry_bytes(k, t)),
        entry_bytes(k, t).len() >= 4,
{
    let e = entry_bytes(k, t);
    let kc = key_code(k@)->0;
    let tc = target_code(t)->0;
    lemma_hex2_parse(kc);
    lemma_hex2_parse(tc);
    let head = hex2(kc) + hex2(tc);
    assert forall|i: int| 0 <= i < 4 implies is_plain(#[trigger] e[i]) by {
        assert(e[i] == head[i]);
    }
    if let Target::Table(tw) = t {
        lemma_text_plain(tw.scale);
        lemma_text_plain(tw.deadzone);
        let mx = tweak(0x61, number_text(tw.max));
        let mn = tweak(0x69, number_text(tw.min));
        let sc = tweak(0x73, text_bytes(tw.scale));
        let dz = tweak(0x64, text_bytes(tw.deadzone));
        assert(all_plain(mx)) by {
            if let Some(v) = tw.max {
                lemma_signed_dec(v);
                assert forall|j: int| 0 <= j < mx.len() implies is_plain(#[trigger] mx[j]) by {
                    if j > 0 {
                        assert(mx[j] == signed_dec(v as int)[j - 1]);
                    }
                }
            }
        }
        assert(all_plain(mn)) by {
            if let Some(v) = tw.min {
                lemma_signed_dec(v);
                assert forall|j: int| 0 <= j < mn.len() implies is_plain(#[trigger] mn[j]) by {
                    if j > 0 {
                        assert(mn[j] == signed_dec(v as int)[j - 1]);
                    }
                }
            }
        }
        assert(all_plain(sc)) by {
            assert forall|j: int| 0 <= j < sc.len() implies is_plain(#[trigger] sc[j]) by {
                if j > 0 {
                    assert(sc[j] == bytes_of(tw.scale->0)[j - 1]);
                }
            }
        }
        assert(all_plain(dz)) by {
            assert forall|j: int| 0 <= j < dz.len() implies is_plain(#[trigger] dz[j]) by {
                if j > 0 {
                    assert(dz[j] == bytes_of(tw.deadzone->0)[j - 1]);
                }
            }
        }
        assert(tweaks_bytes(tw) =~= mx + mn + sc + dz);
        assert(e =~= head + (mx + mn + sc + dz));
        assert forall|i: int| 4 <= i < e.len() implies is_plain(#[trigger] e[i]) by {
            let j = i - 4;
            let a = mx.len() as int;
            let b = a + mn.len() as int;
            let c = b + sc.len() as int;
            assert(e[i] == (mx + mn + sc + dz)[j]);
            if j < a {
                assert((mx + mn + sc + dz)[j] == mx[j]);
            } else if j < b {
                assert((mx + mn + sc + dz)[j] == mn[j - a]);
            } else if j < c {
                assert((mx + mn + sc + dz)[j] == sc[j - b]);
            } else {
                assert((mx + mn + sc + dz)[j] == dz[j - c]);
            }
        }
    }
}

/// A remapping read back: its input's code and its target.
#[verifier::spinoff_prover]
#[verifier::rlimit(30)]
proof fn lemma_event_parse(k: String, t: Target)
    requires
        entry_ok(k, t),
        target_loadable(t),
    ensures
        spec_event(entry_bytes(k, t)) == Some((key_code(k@)->0, mapping_of(t))),
{
    let e = entry_bytes(k, t);
    let kc = key_code(k@)->0;
    let tc = target_code(t)->0;
    lemma_entry_plain(k, t);
    lemma_hex2_parse(kc);
    lemma_hex2_parse(tc);
    assert(e.take(2) =~= hex2(kc));
    assert(e.subrange(2, 4) =~= hex2(tc));
    assert(parse_unsigned(e.take(2), 16, 0xFF) == Some(kc as nat));
    assert(parse_unsigned(e.subrange(2, 4), 16, 0xFF) == Some(tc as nat));
    assert(is_plain(e[2]));
    assert(cuts_at(e, 2));
    if e.len() > 4 {
        assert(is_plain(e[4]));
    }
    assert(cuts_at(e, 4));
    let (d, sc, mx, mn): (Option<Seq<u8>>, Option<Seq<u8>>, Option<i64>, Option<i64>) = match t {
        Target::Event(_) => (None, None, None, None),
        Target::Table(tw) => (text_bytes(tw.deadzone), text_bytes(tw.scale), tw.max, tw.min),
    };
    match t {
        Target::Event(_) => {
            assert(e.len() == 4);
            assert(spec_tweaks(e, 4, None, None, 0, None, None) == Some((d, sc, 0u16, mx, mn)));
        },
        Target::Table(tw) => {
            assert(e.skip(4) =~= tweaks_bytes(tw));
            lemma_tweaks_parse(e, tw);
            assert(text_view(d) == string_view(tw.deadzone));
            assert(text_view(sc) == string_view(tw.scale));
        },
    }
    assert(mapping_of(t) == MappingView {
        out: tc,
        deadzone: text_view(d),
        scale: text_view(sc),
        unsigned: 0,
        max: mx,
        min: mn,
    });
}

/// The bytes of remappings, each followed by `;`, but for the last.
pub open spec fn joined_entries(s: Seq<(String, Target)>) -> Seq<u8> {
    drop_last_byte(terminated(s.map_values(|e: (String, Target)| entry_bytes(e.0, e.1)), 0x3B))
}

/// Remappings read back, in order.
#[verifier::spinoff_prover]
#[verifier::rlimit(40)]
proof fn lemma_events_parse(acc: Map<u8, MappingView>, s: Seq<(String, Target)>)
    requires
        s.len() > 0,
        forall|i: int| 0 <= i < s.len() ==> entry_ok(#[trigger] s[i].0, s[i].1) && target_loadable(s[i].1),
    ensures
        spec_events(acc, joined_entries(s)) == Some(fold_maps(acc, s)),
    decreases s.len(),
{
    let parts = s.map_values(|e: (String, Target)| entry_bytes(e.0, e.1));
    let p0 = parts[0];
    let rest = s.drop_first();
    let rparts = rest.map_values(|e: (String, Target)| entry_bytes(e.0, e.1));
    assert(parts =~= seq![p0] + rparts);
    lemma_terminated_front(p0, rparts, 0x3B);
    assert(entry_ok(s[0].0, s[0].1) && target_loadable(s[0].1));
    lemma_entry_plain(s[0].0, s[0].1);
    lemma_event_parse(s[0].0, s[0].1);
    let k = key_code(s[0].0@)->0;
    let m = mapping_of(s[0].1);
    let all = joined_entries(s);
    if s.len() == 1 {
        assert(rparts.len() == 0);
        assert(terminated(rparts, 0x3B) == Seq::<u8>::empty());
        assert(all =~= p0);
        assert forall|j: int| 0 <= j < p0.len() implies !(is_byte(0x3B))(#[trigger] all[j]) by {
            assert(is_plain(p0[j]));
        }
        lemma_find_first_is(all, is_byte(0x3B), p0.len() as int);
        assert(all.take(p0.len() as int) =~= p0);
        assert(fold_maps(acc.insert(k, m), rest) == acc.insert(k, m));
    } else {
        assert forall|i: int| 0 <= i < rest.len() implies entry_ok(#[trigger] rest[i].0, rest[i].1)
            && target_loadable(rest[i].1) by {
            assert(rest[i] == s[i + 1]);
        }
        lemma_events_parse(acc.insert(k, m), rest);
        let t = terminated(rparts, 0x3B);
        assert(t.len() > 0) by {
            assert(rparts.len() > 0);
            assert(t == terminated(rparts.drop_last(), 0x3B) + rparts.last() + seq![0x3Bu8]);
        }
        assert(all =~= p0 + seq![0x3Bu8] + drop_last_byte(t));
        assert forall|j: int| 0 <= j < p0.len() implies !(is_byte(0x3B))(#[trigger] all[j]) by {
            assert(all[j] == p0[j]);
            assert(is_plain(p0[j]));
        }
        assert(all[p0.len() as int] == 0x3B);
        lemma_find_first_is(all, is_byte(0x3B), p0.len() as int);
        assert(all.take(p0.len() as int) =~= p0);
        assert(all.skip(p0.len() as int + 1) =~= joined_entries(rest));
    }
}

proof fn lemma_insert_members(s: Seq<int>, x: int, keys: Seq<Seq<u8>>)
    ensures
        insert_sorted(s, x, keys).len() == s.len() + 1,
        forall|j: int| 0 <= j < s.len() + 1 ==> #[trigger] insert_sorted(s, x, keys)[j] == x
            || s.contains(insert_sorted(s, x, keys)[j]),
    decreases s.len(),
{
    if s.len() > 0 && bytes_lt(keys[x], keys[s.last()]) {
        lemma_insert_members(s.drop_last(), x, keys);
        let r = insert_sorted(s, x, keys);
        assert forall|j: int| 0 <= j < s.len() + 1 implies #[trigger] r[j] == x || s.contains(r[j]) by {
            if j < s.len() {
                let v = insert_sorted(s.drop_last(), x, keys)[j];
                assert(r[j] == v);
                if v != x {
                    let w = choose|w: int| 0 <= w < s.drop_last().len() && s.drop_last()[w] == v;
                    assert(s[w] == v);
                }
            } else {
                assert(r[j] == s.last());
                assert(s[s.len() - 1] == s.last());
            }
        }
    } else if s.len() > 0 {
        let r = insert_sorted(s, x, keys);
        assert forall|j: int| 0 <= j < s.len() + 1 implies #[trigger] r[j] == x || s.contains(r[j]) by {
            if j < s.len() {
                assert(r[j] == s[j]);
            }
        }
    }
}

/// The sorted order holds each index below `n` (one per place).
proof fn lemma_sorted_indices_range(n: nat, keys: Seq<Seq<u8>>)
    ensures
        sorted_indices(n, keys).len() == n,
        forall|j: int| 0 <= j < n ==> 0 <= #[trigger] sorted_indices(n, keys)[j] < n,
    decreases n,
{
    if n > 0 {
        let prev = sorted_indices((n - 1) as nat, keys);
        lemma_sorted_indices_range((n - 1) as nat, keys);
        lemma_insert_members(prev, n - 1, keys);
        assert forall|j: int| 0 <= j < n implies 0 <= #[trigger] sorted_indices(n, keys)[j] < n by {
            let v = sorted_indices(n, keys)[j];
            if v != n - 1 {
                let w = choose|w: int| 0 <= w < prev.len() && prev[w] == v;
                assert(0 <= prev[w] < n - 1);
            }
        }
    }
}

/// The model id that a controller file's name begins with.
pub open spec fn model_id(f: ControllerFile) -> u64 {
    parse_unsigned(bytes_of(f.file_name).take(16), 16, 0xFFFF_FFFF_FFFF_FFFF)->0 as u64
}

/// What loading gives for a controller file: its name, its remappings in
/// the order written and its type letter.
pub open spec fn info_of(f: ControllerFile) -> InfoView {
    InfoView {
        name: f.name@,
        maps: fold_maps(Map::empty(), sorted_remap(f.remap@)),
        type_: type_letter(f.type_@)->0,
    }
}

/// Whether a controller file reads back: the file name begins with a
/// hexadecimal id, the name holds no tab or line break, there is at least
/// one remapping (a line without remappings also loses its type letter),
/// and every remapping reads back.
pub open spec fn file_loadable(f: ControllerFile) -> bool {
    &&& parse_unsigned(bytes_of(f.file_name).take(16), 16, 0xFFFF_FFFF_FFFF_FFFF) is Some
    &&& forall|i: int| 0 <= i < bytes_of(f.name).len() ==> #[trigger] bytes_of(f.name)[i] != 0x09
        && bytes_of(f.name)[i] != 0x0A
    &&& f.remap@.len() > 0
    &&& forall|i: int| 0 <= i < f.remap@.len() ==> target_loadable(#[trigger] f.remap@[i].1)
}

/// The remappings of a loadable file, in the order written, are all known
/// and read back.
#[verifier::spinoff_prover]
#[verifier::rlimit(40)]
proof fn lemma_sorted_entries(f: ControllerFile)
    requires
        file_ok(f),
        file_loadable(f),
    ensures
        sorted_remap(f.remap@).len() == f.remap@.len(),
        forall|i: int| 0 <= i < sorted_remap(f.remap@).len() ==> entry_ok(
            #[trigger] sorted_remap(f.remap@)[i].0,
            sorted_remap(f.remap@)[i].1,
        ) && target_loadable(sorted_remap(f.remap@)[i].1),
{
    let keys = f.remap@.map_values(|e: (String, Target)| sort_key(e.0));
    lemma_sorted_indices_range(f.remap@.len(), keys);
    let order = sorted_indices(f.remap@.len(), keys);
    assert forall|i: int| 0 <= i < sorted_remap(f.remap@).len() implies entry_ok(
        #[trigger] sorted_remap(f.remap@)[i].0,
        sorted_remap(f.remap@)[i].1,
    ) && target_loadable(sorted_remap(f.remap@)[i].1) by {
        let k = order[i];
        assert(0 <= k < f.remap@.len());
        assert(sorted_remap(f.remap@)[i] == f.remap@[k]);
        assert(entry_ok(f.remap@[k].0, f.remap@[k].1));
        assert(target_loadable(f.remap@[k].1));
    }
}

/// The line of a loadable controller file reads back as its model id and
/// what [`info_of`] says; the line holds no line break and does not end in
/// a carriage return.
#[verifier::spinoff_prover]
#[verifier::rlimit(40)]
proof fn lemma_line_parse(f: ControllerFile)
    requires
        file_ok(f),
        file_loadable(f),
    ensures
        spec_line(line_bytes(f)) == Some(Some((model_id(f), info_of(f)))),
        line_bytes(f).len() > 0,
        forall|i: int| 0 <= i < line_bytes(f).len() ==> #[trigger] line_bytes(f)[i] != 0x0A,
        line_bytes(f).last() != 0x0D,
{
    broadcast use vstd::utf8::encode_utf8_valid_utf8,
        vstd::utf8::is_char_boundary_start_end_of_seq,
        vstd::utf8::is_char_boundary_iff_not_is_continuation_byte;

    let fid = bytes_of(f.file_name).take(16);
    let nameb = bytes_of(f.name);
    let letter = type_letter(f.type_@)->0;
    let head = fid + nameb + seq![0x09u8] + seq![letter];
    let sorted = sorted_remap(f.remap@);
    lemma_sorted_entries(f);
    let entries = sorted.map_values(|e: (String, Target)| entry_bytes(e.0, e.1));
    let joined = joined_entries(sorted);
    let t = terminated(entries, 0x3B);
    assert(t.len() > 0) by {
        assert(entries.len() > 0);
        assert(t == terminated(entries.drop_last(), 0x3B) + entries.last() + seq![0x3Bu8]);
    }
    let line = line_bytes(f);
    assert(line =~= head + joined);
    // What the joined remappings hold.
    lemma_events_parse(Map::empty(), sorted);
    lemma_entry_plain(sorted[0].0, sorted[0].1);
    let p0 = entries[0];
    assert(t =~= p0 + seq![0x3Bu8] + terminated(entries.drop_first(), 0x3B)) by {
        assert(entries =~= seq![p0] + entries.drop_first());
        lemma_terminated_front(p0, entries.drop_first(), 0x3B);
    }
    assert(joined.len() > 0 && joined[0] == p0[0]);
    assert(is_plain(joined[0]));
    // The joined remappings are plain bytes, and so the line ends in one.
    assert forall|i: int| 0 <= i < joined.len() implies #[trigger] joined[i] != 0x0A && joined[i] != 0x0D by {
        lemma_joined_plain(sorted, i);
    }
    // The id.
    let tab_at: int = 16 + nameb.len() as int;
    assert(line.take(16) =~= fid);
    let id = parse_unsigned(fid, 16, 0xFFFF_FFFF_FFFF_FFFF)->0;
    assert forall|i: int| 0 <= i < 16 implies #[trigger] fid[i] != 0x09 && fid[i] != 0x0A && fid[i] < 0x80 by {
        lemma_parsed_bytes(fid, 16, 0xFFFF_FFFF_FFFF_FFFF, i);
    }
    // Where the line can be cut.
    if nameb.len() > 0 {
        assert(line[16] == nameb[0]);
        assert(vstd::utf8::is_char_boundary(nameb, 0));
    } else {
        assert(line[16] == 0x09);
    }
    assert(cuts_at(line, 16));
    // The tab.
    assert forall|j: int| 0 <= j < tab_at implies !(is_byte(0x09))(#[trigger] line[j]) by {
        if j < 16 {
            assert(line[j] == fid[j]);
        } else {
            assert(line[j] == nameb[j - 16]);
        }
    }
    assert(line[tab_at] == 0x09);
    lemma_find_first_is(line, is_byte(0x09), tab_at);
    assert(line[tab_at + 1] == letter);
    assert(line[tab_at + 2] == joined[0]);
    assert(cuts_at(line, tab_at + 1));
    assert(cuts_at(line, tab_at + 2));
    assert(line.skip(tab_at + 2) =~= joined);
    assert(line.subrange(16, tab_at) =~= nameb);
    // No line break, and a plain last byte.
    assert forall|i: int| 0 <= i < line.len() implies #[trigger] line[i] != 0x0A by {
        if i < 16 {
            assert(line[i] == fid[i]);
        } else if i < tab_at {
            assert(line[i] == nameb[i - 16]);
        } else if i >= tab_at + 2 {
            assert(line[i] == joined[i - tab_at - 2]);
        }
    }
    assert(line.last() == joined.last());
    assert(joined.last() == joined[joined.len() - 1]);
}

/// Every byte of joined remappings is plain.
#[verifier::spinoff_prover]
#[verifier::rlimit(40)]
proof fn lemma_joined_plain(s: Seq<(String, Target)>, i: int)
    requires
        s.len() > 0,
        forall|k: int| 0 <= k < s.len() ==> entry_ok(#[trigger] s[k].0, s[k].1) && target_loadable(s[k].1),
        0 <= i < joined_entries(s).len(),
    ensures
        joined_entries(s)[i] < 0x80,
        joined_entries(s)[i] != 0x0A,
        joined_entries(s)[i] != 0x0D,
    decreases s.len(),
{
    let parts = s.map_values(|e: (String, Target)| entry_bytes(e.0, e.1));
    let p0 = parts[0];
    let rest = s.drop_first();
    let rparts = rest.map_values(|e: (String, Target)| entry_bytes(e.0, e.1));
    assert(parts =~= seq![p0] + rparts);
    lemma_terminated_front(p0, rparts, 0x3B);
    assert(entry_ok(s[0].0, s[0].1) && target_loadable(s[0].1));
    lemma_entry_plain(s[0].0, s[0].1);
    let all = joined_entries(s);
    if s.len() == 1 {
        assert(terminated(rparts, 0x3B) == Seq::<u8>::empty());
        assert(all =~= p0);
        assert(is_plain(p0[i]));
    } else {
        let t = terminated(rparts, 0x3B);
        assert(t.len() > 0) by {
            assert(rparts.len() > 0);
            assert(t == terminated(rparts.drop_last(), 0x3B) + rparts.last() + seq![0x3Bu8]);
        }
        assert(all =~= p0 + seq![0x3Bu8] + joined_entries(rest));
        if i < p0.len() {
            assert(all[i] == p0[i]);
            assert(is_plain(p0[i]));
        } else if i > p0.len() {
            assert forall|k: int| 0 <= k < rest.len() implies entry_ok(#[trigger] rest[k].0, rest[k].1)
                && target_loadable(rest[k].1) by {
                assert(rest[k] == s[k + 1]);
            }
            lemma_joined_plain(rest, i - p0.len() - 1);
            assert(all[i] == joined_entries(rest)[i - p0.len() - 1]);
        } else {
            assert(all[i] == 0x3B);
        }
    }
}

/// The controller files `files` recorded in order into `acc`, a later one
/// for the same model replacing an earlier one.
pub open spec fn fold_infos(acc: Map<u64, InfoView>, files: Seq<ControllerFile>) -> Map<u64, InfoView>
    decreases files.len(),
{
    if files.len() == 0 {
        acc
    } else {
        fold_infos(acc.insert(model_id(files[0]), info_of(files[0])), files.drop_first())
    }
}

#[verifier::spinoff_prover]
#[verifier::rlimit(40)]
proof fn lemma_db_loads_into(acc: Map<u64, InfoView>, files: Seq<ControllerFile>)
    requires
        forall|i: int| 0 <= i < files.len() ==> file_ok(#[trigger] files[i]) && file_loadable(files[i]),
    ensures
        spec_load(acc, db_bytes(files)) == Some(Some(fold_infos(acc, files))),
    decreases files.len(),
{
    if files.len() == 0 {
        assert(terminated(files.map_values(|f: ControllerFile| line_bytes(f)), 0x0A) == Seq::<u8>::empty());
    } else {
        let f0 = files[0];
        let rest = files.drop_first();
        let lines = files.map_values(|f: ControllerFile| line_bytes(f));
        let rlines = rest.map_values(|f: ControllerFile| line_bytes(f));
        let l0 = line_bytes(f0);
        assert(lines =~= seq![l0] + rlines);
        lemma_terminated_front(l0, rlines, 0x0A);
        assert(file_ok(f0) && file_loadable(f0));
        lemma_line_parse(f0);
        let db = db_bytes(files);
        assert forall|i: int| 0 <= i < rest.len() implies file_ok(#[trigger] rest[i]) && file_loadable(rest[i]) by {
            assert(rest[i] == files[i + 1]);
        }
        lemma_db_loads_into(acc.insert(model_id(f0), info_of(f0)), rest);
        if rest.len() == 0 {
            assert(terminated(rlines, 0x0A) == Seq::<u8>::empty());
            assert(db =~= l0);
        } else {
            let t = terminated(rlines, 0x0A);
            assert(t.len() > 0) by {
                assert(rlines.len() > 0);
                assert(t == terminated(rlines.drop_last(), 0x0A) + rlines.last() + seq![0x0Au8]);
            }
            assert(db =~= l0 + seq![0x0Au8] + db_bytes(rest));
        }
        assert forall|j: int| 0 <= j < l0.len() implies !(is_byte(0x0A))(#[trigger] db[j]) by {
            assert(db[j] == l0[j]);
        }
        lemma_find_first_is(db, is_byte(0x0A), l0.len() as int);
        assert(db[l0.len() - 1] == l0.last());
        assert(first_line_len(db) == l0.len());
        assert(db.take(l0.len() as int) =~= l0);
        if rest.len() > 0 {
            assert(after_first_line(db) =~= db_bytes(rest));
        } else {
            assert(after_first_line(db) =~= Seq::<u8>::empty());
            assert(db_bytes(rest) == Seq::<u8>::empty()) by {
                assert(terminated(rlines, 0x0A) == Seq::<u8>::empty());
            }
        }
    }
}

/// Loading the database that [`crate::sdb::remap_db`] writes gives each
/// controller file back: for each model id, the name, type letter and
/// remappings (input code to event code, maximum, minimum, scale and
/// deadzone) of the last file with that id.  This holds of the files that
/// read back (see [`file_loadable`]).
pub proof fn lemma_db_loads(files: Seq<ControllerFile>)
    requires
        forall|i: int| 0 <= i < files.len() ==> file_ok(#[trigger] files[i]) && file_loadable(files[i]),
    ensures
        spec_load(Map::empty(), db_bytes(files)) == Some(Some(fold_infos(Map::empty(), files))),
{
    lemma_db_loads_into(Map::empty(), files);
}

} // verus!
