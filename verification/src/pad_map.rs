//! Pad mapping files made from the SDL game controller database.
//!
//! Each line of the SDL database names a controller by a GUID and pairs SDL
//! names with inputs (`a:b0,leftx:a0,...`). The lines of Linux and macOS
//! controllers whose GUID holds a vendor and product become, per model, a
//! pad mapping: its buttons, axes, triggers and three-way switches.

use vstd::prelude::*;
use vstd::string::StringSliceAdditionalSpecFns;
use vstd::utf8::{
    decode_utf8, encode_utf8, is_continuation_byte, length_of_first_scalar, pop_first_scalar,
    valid_first_scalar, valid_utf8,
};
use crate::digits::{parse_unsigned, parse_unsigned_range};
use crate::sdb::str_eq;
use crate::sdl_map::{pad_entry, pad_entry_of, EntryView, PadEntry};
use crate::sdl::{comma_fields, lemma_fields_step};
use crate::text::{cuts_at, find_first, find_in, is_byte, lemma_find_first, substr};

verus! {

broadcast use vstd::utf8::encode_utf8_decode_utf8, vstd::utf8::encode_utf8_valid_utf8;

/// In valid UTF-8, the byte after an ASCII byte starts a character.
pub proof fn lemma_cut_after_ascii_at(s: Seq<u8>, i: int)
    requires
        valid_utf8(s),
        0 <= i < s.len(),
        s[i] < 0x80,
    ensures
        cuts_at(s, i + 1),
    decreases s.len(),
{
    let l = length_of_first_scalar(s);
    let rest = pop_first_scalar(s);
    assert(valid_first_scalar(s));
    assert(valid_utf8(rest));
    assert(rest =~= s.subrange(l, s.len() as int));
    if i < l {
        if l > 1 && i > 0 {
            assert(is_continuation_byte(s[i]));
        }
        if l > 1 && i == 0 {
            assert(s[0] >= 0xC0);
        }
        assert(l == 1 && i == 0);
        if s.len() > 1 {
            assert(valid_first_scalar(rest));
            assert(rest[0] == s[1]);
        }
    } else {
        assert(rest[i - l] == s[i]);
        lemma_cut_after_ascii_at(rest, i - l);
        if i + 1 < s.len() {
            assert(rest[i - l + 1] == s[i + 1]);
        }
    }
}

/// Pairs of strings, as characters.
pub open spec fn pairs_view(v: Seq<(String, String)>) -> Seq<(Seq<char>, Seq<char>)> {
    v.map_values(|p: (String, String)| (p.0@, p.1@))
}

/// Position of the first pair of `a` with key `k`, or the length of `a`.
pub open spec fn key_index(a: Seq<(Seq<char>, Seq<char>)>, k: Seq<char>) -> int
    decreases a.len(),
{
    if a.len() == 0 {
        0
    } else if a[0].0 == k {
        0
    } else {
        1 + key_index(a.drop_first(), k)
    }
}

/// Whether `a` has a pair with key `k`.
pub open spec fn has_key(a: Seq<(Seq<char>, Seq<char>)>, k: Seq<char>) -> bool {
    key_index(a, k) < a.len()
}

/// `a` with the value of key `k` set to `v`: replaced where `k` has a pair,
/// else added at the end.
pub open spec fn assoc_insert(a: Seq<(Seq<char>, Seq<char>)>, k: Seq<char>, v: Seq<char>) -> Seq<
    (Seq<char>, Seq<char>),
> {
    if has_key(a, k) {
        a.update(key_index(a, k), (k, v))
    } else {
        a.push((k, v))
    }
}

/// `a` without the pair of key `k`.
pub open spec fn assoc_remove(a: Seq<(Seq<char>, Seq<char>)>, k: Seq<char>) -> Seq<
    (Seq<char>, Seq<char>),
> {
    if has_key(a, k) {
        a.remove(key_index(a, k))
    } else {
        a
    }
}

/// The value of key `k` in `a` (meaningful where `k` has a pair).
pub open spec fn assoc_get(a: Seq<(Seq<char>, Seq<char>)>, k: Seq<char>) -> Seq<char> {
    a[key_index(a, k)].1
}

proof fn lemma_key_index(a: Seq<(Seq<char>, Seq<char>)>, k: Seq<char>)
    ensures
        0 <= key_index(a, k) <= a.len(),
        forall|j: int| 0 <= j < key_index(a, k) ==> (#[trigger] a[j]).0 != k,
        key_index(a, k) < a.len() ==> a[key_index(a, k)].0 == k,
    decreases a.len(),
{
    if a.len() > 0 && a[0].0 != k {
        lemma_key_index(a.drop_first(), k);
        assert forall|j: int| 0 <= j < key_index(a, k) implies (#[trigger] a[j]).0 != k by {
            if j > 0 {
                assert(a[j] == a.drop_first()[j - 1]);
            }
        }
    }
}

proof fn lemma_key_index_is(a: Seq<(Seq<char>, Seq<char>)>, k: Seq<char>, i: int)
    requires
        0 <= i <= a.len(),
        forall|j: int| 0 <= j < i ==> (#[trigger] a[j]).0 != k,
        i < a.len() ==> a[i].0 == k,
    ensures
        key_index(a, k) == i,
    decreases a.len(),
{
    if a.len() > 0 && i > 0 {
        assert(a[0].0 != k);
        assert forall|j: int| 0 <= j < i - 1 implies (#[trigger] a.drop_first()[j]).0 != k by {
            assert(a.drop_first()[j] == a[j + 1]);
        }
        lemma_key_index_is(a.drop_first(), k, i - 1);
    }
}

/// Position of the first pair of `a` with key `k`, or the length of `a`.
fn find_key(a: &Vec<(String, String)>, k: &str) -> (r: usize)
    ensures
        r == key_index(pairs_view(a@), k@),
{
    let ghost v = pairs_view(a@);
    let mut i: usize = 0;
    while i < a.len()
        invariant
            i <= a@.len(),
            v == pairs_view(a@),
            forall|j: int| 0 <= j < i ==> (#[trigger] v[j]).0 != k@,
        decreases a@.len() - i,
    {
        if str_eq(a[i].0.as_str(), k) {
            proof {
                lemma_key_index_is(v, k@, i as int);
            }
            return i;
        }
        i = i + 1;
    }
    proof {
        lemma_key_index_is(v, k@, i as int);
    }
    i
}

/// Set the value of key `k` to `v` (see [`assoc_insert`]).
fn insert_pair(a: &mut Vec<(String, String)>, k: String, v: String)
    ensures
        pairs_view(final(a)@) == assoc_insert(pairs_view(old(a)@), k@, v@),
{
    let ghost kv = k@;
    let ghost vv = v@;
    let i = find_key(a, k.as_str());
    proof {
        lemma_key_index(pairs_view(a@), kv);
    }
    if i < a.len() {
        a.set(i, (k, v));
        proof {
            assert(pairs_view(a@) =~= pairs_view(old(a)@).update(i as int, (kv, vv)));
        }
    } else {
        a.push((k, v));
        proof {
            assert(pairs_view(a@) =~= pairs_view(old(a)@).push((kv, vv)));
        }
    }
}

/// Remove the pair of key `k`, saying whether there was one.
fn remove_pair(a: &mut Vec<(String, String)>, k: &str) -> (r: bool)
    ensures
        r == has_key(pairs_view(old(a)@), k@),
        pairs_view(final(a)@) == assoc_remove(pairs_view(old(a)@), k@),
{
    let i = find_key(a, k);
    if i < a.len() {
        a.remove(i);
        proof {
            assert(pairs_view(a@) =~= pairs_view(old(a)@).remove(i as int));
        }
        true
    } else {
        false
    }
}

/// The bounds of the comma-separated fields of `b[start..]`: each field's
/// bytes, which begin after a comma or at `start` and end before a comma
/// or at the end.
fn field_bounds(b: &[u8], start: usize) -> (r: Vec<(usize, usize)>)
    requires
        start <= b@.len(),
    ensures
        r@.len() == comma_fields(b@.subrange(start as int, b@.len() as int)).len(),
        r@.len() >= 1,
        r@[0].0 == start,
        forall|i: int| 0 < i < r@.len() ==> #[trigger] r@[i].0 == r@[i - 1].1 + 1,
        forall|i: int|
            0 <= i < r@.len() ==> {
                let (s, e) = #[trigger] r@[i];
                &&& start <= s <= e <= b@.len()
                &&& b@.subrange(s as int, e as int) == comma_fields(
                    b@.subrange(start as int, b@.len() as int),
                )[i]
                &&& (s == start || b@[s - 1] == 0x2C)
                &&& (e == b@.len() || b@[e as int] == 0x2C)
            },
    decreases b@.len() - start,
{
    let ghost s = b@.subrange(start as int, b@.len() as int);
    let len = b.len();
    let c = find_in(b, start, len, 0x2C);
    proof {
        lemma_fields_step(s, c - start);
        lemma_find_first(s, is_byte(0x2C));
        assert(s.take(c - start) =~= b@.subrange(start as int, c as int));
        if c < len {
            assert(s.skip(c - start + 1) =~= b@.subrange(c + 1, len as int));
            assert(s[c - start] == b@[c as int]);
        }
        assert(comma_fields(s) =~= seq![comma_fields(s)[0]] + comma_fields(s).drop_first());
    }
    let mut v: Vec<(usize, usize)> = Vec::new();
    v.push((start, c));
    if c < len {
        let mut rest = field_bounds(b, c + 1);
        let ghost rv = rest@;
        v.append(&mut rest);
        proof {
            assert forall|i: int| 0 <= i < v@.len() implies {
                let (s0, e0) = #[trigger] v@[i];
                &&& start <= s0 <= e0 <= b@.len()
                &&& b@.subrange(s0 as int, e0 as int) == comma_fields(s)[i]
                &&& (s0 == start || b@[s0 - 1] == 0x2C)
                &&& (e0 == b@.len() || b@[e0 as int] == 0x2C)
            } by {
                if i > 0 {
                    assert(v@[i] == rv[i - 1]);
                    assert(comma_fields(s)[i] == comma_fields(s).drop_first()[i - 1]);
                }
            }
            assert forall|i: int| 0 < i < v@.len() implies #[trigger] v@[i].0 == v@[i - 1].1 + 1 by {
                assert(v@[i] == rv[i - 1]);
                if i > 1 {
                    assert(v@[i - 1] == rv[i - 2]);
                }
            }
        }
    }
    v
}

/// Why a line or a model of the SDL database cannot be converted.
#[derive(Clone, Copy, Debug, PartialEq, Eq, Structural)]
pub enum MapError {
    /// A line has a GUID but no name.
    MissingName,
    /// A mapping has no `:`.
    MissingValue,
    /// A GUID with a vendor and product is not 32 bytes long.
    GuidLength,
    /// A GUID's vendor and product are not hexadecimal.
    GuidNotHex,
    /// Two lines of one model give it different names.
    NameMismatch,
    /// Two lines of one model map an input to different names.
    MappingMismatch,
    /// A mapping that has no entry (see [`crate::sdl_map::pad_entry`]).
    UnknownMapping,
    /// Two halves of a three-way switch name the same side.
    SwitchSideTwice,
    /// One axis event on two codes.
    AxisCodeMismatch,
}

/// A controller model of the SDL database: its id (bus, vendor, product and
/// version), its name, and its inputs with the SDL names they map to.
pub struct SdlPad {
    pub id: u64,
    pub name: String,
    pub mappings: Vec<(String, String)>,
}

/// The contents of an [`SdlPad`].
pub struct SdlPadView {
    pub id: u64,
    pub name: Seq<char>,
    pub mappings: Seq<(Seq<char>, Seq<char>)>,
}

impl View for SdlPad {
    type V = SdlPadView;

    open spec fn view(&self) -> SdlPadView {
        SdlPadView { id: self.id, name: self.name@, mappings: pairs_view(self.mappings@) }
    }
}

/// The fields of a line that hold mappings: all after the GUID and the name
/// but the last (which a line ends with a comma to leave empty).
pub open spec fn mapping_fields(f: Seq<Seq<u8>>) -> Seq<Seq<u8>> {
    if f.len() >= 3 {
        f.subrange(2, f.len() - 1)
    } else {
        Seq::empty()
    }
}

/// One mapping `name:input`: its input (up to a further `:`) and its name;
/// `None` without a `:`.
pub open spec fn split_mapping(m: Seq<u8>) -> Option<(Seq<u8>, Seq<u8>)> {
    let c = find_first(m, is_byte(0x3A));
    if c == m.len() {
        None
    } else {
        let rest = m.skip(c + 1);
        Some((rest.take(find_first(rest, is_byte(0x3A))), m.take(c)))
    }
}

/// The inputs of mappings `ms` with the names they map to, a later mapping
/// of an input replacing an earlier one; `None` if a mapping has no `:`.
pub open spec fn collect_pairs(ms: Seq<Seq<u8>>) -> Option<Seq<(Seq<char>, Seq<char>)>>
    decreases ms.len(),
{
    if ms.len() == 0 {
        Some(Seq::empty())
    } else {
        match (collect_pairs(ms.drop_last()), split_mapping(ms.last())) {
            (Some(a), Some((i, n))) => Some(assoc_insert(a, decode_utf8(i), decode_utf8(n))),
            _ => None,
        }
    }
}

/// `g[a..b]` can be cut out and holds only `0` digits.
pub open spec fn zero_run(g: Seq<u8>, a: int, b: int) -> bool {
    &&& b <= g.len()
    &&& cuts_at(g, b)
    &&& forall|k: int| a <= k < b ==> #[trigger] g[k] == 0x30
}

/// A GUID that holds a vendor and product: zeros around them.
pub open spec fn vendor_guid(g: Seq<u8>) -> bool {
    zero_run(g, 2, 8) && zero_run(g, 12, 16) && zero_run(g, 20, 24) && zero_run(g, 28, 32)
}

/// The hexadecimal digits of a GUID's bus, vendor, product and version.
pub open spec fn guid_id_text(g: Seq<u8>) -> Seq<u8> {
    g.subrange(0, 4) + g.subrange(8, 12) + g.subrange(16, 20) + g.subrange(24, 28)
}

/// One line of the SDL database: `Ok(None)` for a line that is left out (an
/// empty line, a comment, a line of another platform, an XInput line or a
/// GUID without vendor and product), else the model it describes; an error
/// where the line is malformed.
pub open spec fn sdl_pad_of(line: Seq<u8>) -> Result<Option<SdlPadView>, MapError> {
    if line.len() == 0 || line[0] == 0x23 {
        Ok(None)
    } else {
        let f = comma_fields(line);
        if f.len() < 2 {
            Err(MapError::MissingName)
        } else {
            match collect_pairs(mapping_fields(f)) {
                None => Err(MapError::MissingValue),
                Some(a) => if !has_key(a, "Linux"@) && !has_key(a, "Mac OS X"@) {
                    Ok(None)
                } else {
                    let pairs = if has_key(a, "Linux"@) {
                        assoc_remove(a, "Linux"@)
                    } else {
                        assoc_remove(a, "Mac OS X"@)
                    };
                    let g = f[0];
                    if decode_utf8(g) == "xinput"@ || !vendor_guid(g) {
                        Ok(None)
                    } else if g.len() != 32 {
                        Err(MapError::GuidLength)
                    } else {
                        match parse_unsigned(guid_id_text(g), 16, 0xFFFF_FFFF_FFFF_FFFF) {
                            None => Err(MapError::GuidNotHex),
                            Some(id) => Ok(
                                Some(
                                    SdlPadView {
                                        id: id as u64,
                                        name: decode_utf8(f[1]),
                                        mappings: pairs,
                                    },
                                ),
                            ),
                        }
                    }
                },
            }
        }
    }
}

/// Valid UTF-8 text can be cut at its start.
proof fn lemma_cut_at_start(s: Seq<u8>)
    requires
        valid_utf8(s),
    ensures
        cuts_at(s, 0),
{
    if s.len() > 0 {
        assert(valid_first_scalar(s));
    }
}

proof fn lemma_collect_none(ms: Seq<Seq<u8>>, k: int)
    requires
        0 <= k <= ms.len(),
        collect_pairs(ms.take(k)) is None,
    ensures
        collect_pairs(ms) is None,
    decreases ms.len() - k,
{
    if k == ms.len() {
        assert(ms.take(k) =~= ms);
    } else {
        assert(ms.take(k + 1).drop_last() =~= ms.take(k));
        lemma_collect_none(ms, k + 1);
    }
}

fn push_range(v: &mut Vec<u8>, b: &[u8], from: usize, to: usize)
    requires
        from <= to <= b@.len(),
    ensures
        final(v)@ == old(v)@ + b@.subrange(from as int, to as int),
{
    let mut k: usize = from;
    while k < to
        invariant
            from <= k <= to <= b@.len(),
            v@ == old(v)@ + b@.subrange(from as int, k as int),
        decreases to - k,
    {
        v.push(b[k]);
        proof {
            assert(b@.subrange(from as int, k + 1) =~= b@.subrange(from as int, k as int).push(b@[k as int]));
        }
        k = k + 1;
    }
}

/// `b[0..n][a..c]` can be cut out and holds only `0` digits.
fn zero_run_in(b: &[u8], n: usize, a: usize, c: usize) -> (r: bool)
    requires
        n <= b@.len(),
        a <= c,
    ensures
        r == zero_run(b@.subrange(0, n as int), a as int, c as int),
{
    let ghost g = b@.subrange(0, n as int);
    if c > n {
        return false;
    }
    if c < n && 0x80 <= b[c] && b[c] <= 0xBF {
        proof {
            assert(g[c as int] == b@[c as int]);
        }
        return false;
    }
    let mut k: usize = a;
    while k < c
        invariant
            a <= k <= c <= n <= b@.len(),
            g == b@.subrange(0, n as int),
            forall|j: int| a <= j < k ==> #[trigger] g[j] == 0x30,
        decreases c - k,
    {
        if b[k] != 0x30 {
            proof {
                assert(g[k as int] == b@[k as int]);
            }
            return false;
        }
        k = k + 1;
    }
    proof {
        if c < n {
            assert(g[c as int] == b@[c as int]);
        }
    }
    true
}

/// The model that one line of the SDL database describes (see
/// [`sdl_pad_of`]).
pub fn sdl_pad(line: &str) -> (r: Result<Option<SdlPad>, MapError>)
    ensures
        match sdl_pad_of(line.spec_bytes()) {
            Ok(None) => r matches Ok(None),
            Ok(Some(p)) => r matches Ok(Some(x)) && x@ == p,
            Err(e) => r == Err::<Option<SdlPad>, MapError>(e),
        },
{
    let b = line.as_bytes();
    let n = b.len();
    let ghost bs = b@;
    proof {
        assert(bs == encode_utf8(line@));
        assert(valid_utf8(bs));
        assert(bs.subrange(0, n as int) =~= bs);
    }
    if n == 0 || b[0] == 0x23 {
        return Ok(None);
    }
    let bounds = field_bounds(b, 0);
    let ghost f = comma_fields(bs);
    if bounds.len() < 2 {
        return Err(MapError::MissingName);
    }
    let ghost ms = mapping_fields(f);
    let last = bounds.len() - 1;
    let mut pairs: Vec<(String, String)> = Vec::new();
    let mut k: usize = 2;
    proof {
        assert(ms.take(0) =~= Seq::<Seq<u8>>::empty());
        assert(pairs_view(pairs@) =~= Seq::<(Seq<char>, Seq<char>)>::empty());
    }
    while k < last
        invariant
            n > 0,
            bs[0] != 0x23,
            bounds@.len() >= 2,
            2 <= k,
            k <= last || (last < 2 && k == 2),
            last + 1 == bounds@.len(),
            bounds@.len() == f.len(),
            f == comma_fields(bs),
            bs == b@,
            bs == line.spec_bytes(),
            valid_utf8(bs),
            n == bs.len(),
            ms == mapping_fields(f),
            forall|i: int|
                0 <= i < bounds@.len() ==> {
                    let (s0, e0) = #[trigger] bounds@[i];
                    &&& 0 <= s0 <= e0 <= bs.len()
                    &&& bs.subrange(s0 as int, e0 as int) == f[i]
                    &&& (s0 == 0 || bs[s0 - 1] == 0x2C)
                    &&& (e0 == bs.len() || bs[e0 as int] == 0x2C)
                },
            bounds@[0].0 == 0,
            bounds@[1].0 == bounds@[0].1 + 1,
            k - 2 <= ms.len(),
            collect_pairs(ms.take(k - 2)) == Some(pairs_view(pairs@)),
        decreases last - k,
    {
        let (s0, e0) = bounds[k];
        let c = find_in(b, s0, e0, 0x3A);
        let ghost m = f[k as int];
        proof {
            assert(ms[k - 2] == m);
            assert(ms.take(k - 1).drop_last() =~= ms.take(k - 2));
            assert(ms.take(k - 1).last() == m);
            assert(m == bs.subrange(s0 as int, e0 as int));
        }
        if c == e0 {
            proof {
                assert(split_mapping(m) is None);
                lemma_collect_none(ms, k - 1);
            }
            return Err(MapError::MissingValue);
        }
        let d = find_in(b, c + 1, e0, 0x3A);
        proof {
            let cc = c - s0;
            lemma_find_first(m, is_byte(0x3A));
            assert(m[cc] == bs[c as int]);
            assert(m.skip(cc + 1) =~= bs.subrange(c + 1, e0 as int));
            assert(m.skip(cc + 1).take(d - c - 1) =~= bs.subrange(c + 1, d as int));
            assert(m.take(cc) =~= bs.subrange(s0 as int, c as int));
            if s0 > 0 {
                lemma_cut_after_ascii_at(bs, s0 - 1);
            } else {
                lemma_cut_at_start(bs);
            }
            lemma_cut_after_ascii_at(bs, c as int);
            if d < e0 {
                lemma_find_first(bs.subrange(c + 1, e0 as int), is_byte(0x3A));
                assert(bs.subrange(c + 1, e0 as int)[d - c - 1] == bs[d as int]);
            }
        }
        let name = substr(line, s0, c).to_owned();
        let input = substr(line, c + 1, d).to_owned();
        insert_pair(&mut pairs, input, name);
        k = k + 1;
    }
    proof {
        assert(ms.take(ms.len() as int) =~= ms);
    }
    let mut removed = remove_pair(&mut pairs, "Linux");
    if !removed {
        removed = remove_pair(&mut pairs, "Mac OS X");
    }
    if !removed {
        return Ok(None);
    }
    let (gs, ge) = bounds[0];
    proof {
        lemma_cut_at_start(bs);
        assert(gs == 0);
        if ge < n {
            assert(bs[ge as int] == 0x2C);
        }
    }
    let guid = substr(line, 0, ge);
    if str_eq(guid, "xinput") {
        return Ok(None);
    }
    let vendor = zero_run_in(b, ge, 2, 8) && zero_run_in(b, ge, 12, 16) && zero_run_in(b, ge, 20, 24)
        && zero_run_in(b, ge, 28, 32);
    if !vendor {
        return Ok(None);
    }
    if ge != 32 {
        return Err(MapError::GuidLength);
    }
    let mut digits: Vec<u8> = Vec::new();
    push_range(&mut digits, b, 0, 4);
    push_range(&mut digits, b, 8, 12);
    push_range(&mut digits, b, 16, 20);
    push_range(&mut digits, b, 24, 28);
    proof {
        let g = f[0];
        assert(g == bs.subrange(0, 32));
        assert(digits@ =~= guid_id_text(g));
        assert(digits@.subrange(0, 16) =~= digits@);
    }
    let id = match parse_unsigned_range(digits.as_slice(), 0, 16, 16, 0xFFFF_FFFF_FFFF_FFFF) {
        Some(v) => v,
        None => {
            return Err(MapError::GuidNotHex);
        },
    };
    let (ns, ne) = bounds[1];
    proof {
        lemma_cut_after_ascii_at(bs, ns - 1);
        if ne < n {
            assert(bs[ne as int] == 0x2C);
        }
    }
    let name = substr(line, ns, ne).to_owned();
    Ok(Some(SdlPad { id, name, mappings: pairs }))
}

/// The contents of a list of models.
pub open spec fn pads_view(v: Seq<SdlPad>) -> Seq<SdlPadView> {
    v.map_values(|p: SdlPad| p@)
}

/// Position of the first model with id `id`, or the length of `pads`.
pub open spec fn pad_index(pads: Seq<SdlPadView>, id: u64) -> int
    decreases pads.len(),
{
    if pads.len() == 0 {
        0
    } else if pads[0].id == id {
        0
    } else {
        1 + pad_index(pads.drop_first(), id)
    }
}

/// Whether some pair of `new` maps an input of `old` to another name.
pub open spec fn conflicts(old: Seq<(Seq<char>, Seq<char>)>, new: Seq<(Seq<char>, Seq<char>)>) -> bool {
    exists|j: int|
        0 <= j < new.len() && has_key(old, (#[trigger] new[j]).0) && assoc_get(old, new[j].0)
            != new[j].1
}

/// The pairs of `new` whose inputs `old` lacks, in order.
pub open spec fn fresh_pairs(old: Seq<(Seq<char>, Seq<char>)>, new: Seq<(Seq<char>, Seq<char>)>) -> Seq<
    (Seq<char>, Seq<char>),
>
    decreases new.len(),
{
    if new.len() == 0 {
        Seq::empty()
    } else if has_key(old, new.last().0) {
        fresh_pairs(old, new.drop_last())
    } else {
        fresh_pairs(old, new.drop_last()).push(new.last())
    }
}

/// The models `pads` once the line's model `p` is added: a model seen
/// before must have the same name and map each input it shares the same
/// way, and it gains the inputs it lacked; a new model is added at the end.
/// With the models, whether `p` was seen before.
pub open spec fn merged(pads: Seq<SdlPadView>, p: SdlPadView) -> Result<(Seq<SdlPadView>, bool), MapError> {
    let i = pad_index(pads, p.id);
    if i < pads.len() {
        if pads[i].name != p.name {
            Err(MapError::NameMismatch)
        } else if conflicts(pads[i].mappings, p.mappings) {
            Err(MapError::MappingMismatch)
        } else {
            Ok(
                (
                    pads.update(
                        i,
                        SdlPadView {
                            mappings: pads[i].mappings + fresh_pairs(pads[i].mappings, p.mappings),
                            ..pads[i]
                        },
                    ),
                    true,
                ),
            )
        }
    } else {
        Ok((pads.push(p), false))
    }
}

proof fn lemma_pad_index_is(pads: Seq<SdlPadView>, id: u64, i: int)
    requires
        0 <= i <= pads.len(),
        forall|j: int| 0 <= j < i ==> (#[trigger] pads[j]).id != id,
        i < pads.len() ==> pads[i].id == id,
    ensures
        pad_index(pads, id) == i,
    decreases pads.len(),
{
    if pads.len() > 0 && i > 0 {
        assert(pads[0].id != id);
        assert forall|j: int| 0 <= j < i - 1 implies (#[trigger] pads.drop_first()[j]).id != id by {
            assert(pads.drop_first()[j] == pads[j + 1]);
        }
        lemma_pad_index_is(pads.drop_first(), id, i - 1);
    }
}

fn clone_pairs(a: &Vec<(String, String)>) -> (r: Vec<(String, String)>)
    ensures
        pairs_view(r@) == pairs_view(a@),
{
    let mut r: Vec<(String, String)> = Vec::new();
    let mut i: usize = 0;
    while i < a.len()
        invariant
            i <= a@.len(),
            pairs_view(r@) == pairs_view(a@).take(i as int),
        decreases a@.len() - i,
    {
        let k = a[i].0.clone();
        let v = a[i].1.clone();
        let ghost before = pairs_view(r@);
        r.push((k, v));
        proof {
            assert(pairs_view(r@) =~= before.push((a@[i as int].0@, a@[i as int].1@)));
            assert(pairs_view(a@).take(i + 1) =~= pairs_view(a@).take(i as int).push(
                pairs_view(a@)[i as int],
            ));
        }
        i = i + 1;
    }
    proof {
        assert(pairs_view(a@).take(i as int) =~= pairs_view(a@));
    }
    r
}

/// Add the model of one line to the models read so far (see [`merged`]);
/// on an error the models are left as they were.
pub fn merge_pad(pads: &mut Vec<SdlPad>, pad: SdlPad) -> (r: Result<bool, MapError>)
    ensures
        match merged(pads_view(old(pads)@), pad@) {
            Ok((m, seen)) => r == Ok::<bool, MapError>(seen) && pads_view(final(pads)@) == m,
            Err(e) => r == Err::<bool, MapError>(e) && final(pads)@ == old(pads)@,
        },
{
    let ghost pv = pads_view(pads@);
    let mut i: usize = 0;
    while i < pads.len() && pads[i].id != pad.id
        invariant
            i <= pads@.len(),
            pv == pads_view(pads@),
            pads@ == old(pads)@,
            forall|j: int| 0 <= j < i ==> (#[trigger] pv[j]).id != pad.id,
        decreases pads@.len() - i,
    {
        i = i + 1;
    }
    proof {
        lemma_pad_index_is(pv, pad.id, i as int);
    }
    if i == pads.len() {
        pads.push(pad);
        proof {
            assert(pads_view(pads@) =~= pv.push(pad@));
        }
        return Ok(false);
    }
    if !str_eq(pads[i].name.as_str(), pad.name.as_str()) {
        return Err(MapError::NameMismatch);
    }
    let ghost old_pairs = pv[i as int].mappings;
    let ghost new_pairs = pad@.mappings;
    let mut j: usize = 0;
    while j < pad.mappings.len()
        invariant
            i < pads@.len(),
            pads@ == old(pads)@,
            pv == pads_view(pads@),
            pad_index(pv, pad.id) == i,
            pv[i as int].name == pad@.name,
            old_pairs == pv[i as int].mappings,
            old_pairs == pairs_view(pads@[i as int].mappings@),
            new_pairs == pairs_view(pad.mappings@),
            j <= new_pairs.len(),
            forall|m: int|
                0 <= m < j ==> !(has_key(old_pairs, (#[trigger] new_pairs[m]).0) && assoc_get(
                    old_pairs,
                    new_pairs[m].0,
                ) != new_pairs[m].1),
        decreases new_pairs.len() - j,
    {
        let k = find_key(&pads[i].mappings, pad.mappings[j].0.as_str());
        proof {
            lemma_key_index(old_pairs, new_pairs[j as int].0);
        }
        if k < pads[i].mappings.len() {
            if !str_eq(pads[i].mappings[k].1.as_str(), pad.mappings[j].1.as_str()) {
                proof {
                    assert(has_key(old_pairs, new_pairs[j as int].0) && assoc_get(
                        old_pairs,
                        new_pairs[j as int].0,
                    ) != new_pairs[j as int].1);
                }
                return Err(MapError::MappingMismatch);
            }
        }
        j = j + 1;
    }
    proof {
        assert(!conflicts(old_pairs, new_pairs));
    }
    let mut merged_pairs = clone_pairs(&pads[i].mappings);
    let mut j: usize = 0;
    assert(new_pairs.take(0) =~= Seq::<(Seq<char>, Seq<char>)>::empty());
    assert(old_pairs + fresh_pairs(old_pairs, new_pairs.take(0)) =~= old_pairs);
    while j < pad.mappings.len()
        invariant
            i < pads@.len(),
            pads@ == old(pads)@,
            old_pairs == pairs_view(pads@[i as int].mappings@),
            new_pairs == pairs_view(pad.mappings@),
            j <= new_pairs.len(),
            pairs_view(merged_pairs@) == old_pairs + fresh_pairs(old_pairs, new_pairs.take(j as int)),
        decreases new_pairs.len() - j,
    {
        let k = find_key(&pads[i].mappings, pad.mappings[j].0.as_str());
        proof {
            assert(new_pairs.take(j + 1).drop_last() =~= new_pairs.take(j as int));
            assert(new_pairs.take(j + 1).last() == new_pairs[j as int]);
            assert(new_pairs[j as int].0 == pad.mappings@[j as int].0@);
            assert(new_pairs[j as int].1 == pad.mappings@[j as int].1@);
            let t = new_pairs.take(j + 1);
            assert(fresh_pairs(old_pairs, t) == if has_key(old_pairs, new_pairs[j as int].0) {
                fresh_pairs(old_pairs, new_pairs.take(j as int))
            } else {
                fresh_pairs(old_pairs, new_pairs.take(j as int)).push(new_pairs[j as int])
            });
            assert((old_pairs + fresh_pairs(old_pairs, new_pairs.take(j as int))).push(
                new_pairs[j as int],
            ) =~= old_pairs + fresh_pairs(old_pairs, new_pairs.take(j as int)).push(
                new_pairs[j as int],
            ));
        }
        proof {
            lemma_key_index(old_pairs, new_pairs[j as int].0);
        }
        if k == pads[i].mappings.len() {
            let key = pad.mappings[j].0.clone();
            let value = pad.mappings[j].1.clone();
            let ghost before = pairs_view(merged_pairs@);
            merged_pairs.push((key, value));
            proof {
                assert(pairs_view(merged_pairs@) =~= before.push(new_pairs[j as int]));
            }
        }
        j = j + 1;
    }
    proof {
        assert(new_pairs.take(new_pairs.len() as int) =~= new_pairs);
    }
    let mut slot = pads.remove(i);
    slot.mappings = merged_pairs;
    pads.insert(i, slot);
    proof {
        assert(pads_view(pads@) =~= pv.update(
            i as int,
            SdlPadView { mappings: old_pairs + fresh_pairs(old_pairs, new_pairs), ..pv[i as int] },
        ));
    }
    Ok(true)
}

/// The mapping file of one model: its name, its type (`NES` or `Unknown`)
/// and its entries by kind. An empty list stands for a kind the model has
/// none of.
pub struct PadMapping {
    pub name: String,
    pub type_: &'static str,
    pub button: Vec<(u8, &'static str)>,
    pub axis: Vec<(u8, &'static str)>,
    pub trigger: Vec<(u8, &'static str)>,
    pub three_way: Vec<(u8, &'static str, &'static str)>,
}

/// The contents of a [`PadMapping`].
pub struct PadMappingView {
    pub name: Seq<char>,
    pub type_: Seq<char>,
    pub button: Seq<(u8, Seq<char>)>,
    pub axis: Seq<(u8, Seq<char>)>,
    pub trigger: Seq<(u8, Seq<char>)>,
    pub three_way: Seq<(u8, Seq<char>, Seq<char>)>,
}

/// Coded events, as characters.
pub open spec fn coded_view(v: Seq<(u8, &'static str)>) -> Seq<(u8, Seq<char>)> {
    v.map_values(|p: (u8, &'static str)| (p.0, p.1@))
}

/// Three-way switches, as characters.
pub open spec fn switches_view(v: Seq<(u8, &'static str, &'static str)>) -> Seq<(u8, Seq<char>, Seq<char>)> {
    v.map_values(|p: (u8, &'static str, &'static str)| (p.0, p.1@, p.2@))
}

impl View for PadMapping {
    type V = PadMappingView;

    open spec fn view(&self) -> PadMappingView {
        PadMappingView {
            name: self.name@,
            type_: self.type_@,
            button: coded_view(self.button@),
            axis: coded_view(self.axis@),
            trigger: coded_view(self.trigger@),
            three_way: switches_view(self.three_way@),
        }
    }
}

/// The entries of the pairs input → SDL name, in order; `None` if a pair
/// has none.
pub open spec fn entries_of(ps: Seq<(Seq<char>, Seq<char>)>) -> Option<Seq<EntryView>>
    decreases ps.len(),
{
    if ps.len() == 0 {
        Some(Seq::empty())
    } else {
        match (
            entries_of(ps.drop_last()),
            pad_entry_of(encode_utf8(ps.last().0), encode_utf8(ps.last().1)),
        ) {
            (Some(es), Some(e)) => Some(es.push(e)),
            _ => None,
        }
    }
}

/// The buttons among entries `es`, in order.
pub open spec fn buttons_in(es: Seq<EntryView>) -> Seq<(u8, Seq<char>)>
    decreases es.len(),
{
    if es.len() == 0 {
        Seq::empty()
    } else {
        let r = buttons_in(es.drop_last());
        match es.last() {
            EntryView::Button(c, e) => r.push((c, e)),
            _ => r,
        }
    }
}

/// The axes among entries `es`, in order.
pub open spec fn axes_in(es: Seq<EntryView>) -> Seq<(u8, Seq<char>)>
    decreases es.len(),
{
    if es.len() == 0 {
        Seq::empty()
    } else {
        let r = axes_in(es.drop_last());
        match es.last() {
            EntryView::Axis(c, e) => r.push((c, e)),
            _ => r,
        }
    }
}

/// The triggers among entries `es`, in order.
pub open spec fn triggers_in(es: Seq<EntryView>) -> Seq<(u8, Seq<char>)>
    decreases es.len(),
{
    if es.len() == 0 {
        Seq::empty()
    } else {
        let r = triggers_in(es.drop_last());
        match es.last() {
            EntryView::Trigger(c, e) => r.push((c, e)),
            _ => r,
        }
    }
}

/// The three-way switch halves among entries `es`, in order.
pub open spec fn switches_in(es: Seq<EntryView>) -> Seq<(u8, Seq<char>, Seq<char>)>
    decreases es.len(),
{
    if es.len() == 0 {
        Seq::empty()
    } else {
        let r = switches_in(es.drop_last());
        match es.last() {
            EntryView::ThreeWay(c, n, p) => r.push((c, n, p)),
            _ => r,
        }
    }
}

/// Position of the first switch with code `code`, or the length of `acc`.
pub open spec fn switch_index(acc: Seq<(u8, Seq<char>, Seq<char>)>, code: u8) -> int
    decreases acc.len(),
{
    if acc.len() == 0 {
        0
    } else if acc[0].0 == code {
        0
    } else {
        1 + switch_index(acc.drop_first(), code)
    }
}

/// Switch half `t` joined into switches `acc`: with a switch of its code,
/// each side that one of them names is kept (`None` if both name it); else
/// added at the end.
pub open spec fn join_switch(acc: Seq<(u8, Seq<char>, Seq<char>)>, t: (u8, Seq<char>, Seq<char>)) -> Option<
    Seq<(u8, Seq<char>, Seq<char>)>,
> {
    let i = switch_index(acc, t.0);
    if i < acc.len() {
        let o = acc[i];
        if (o.1.len() > 0 && t.1.len() > 0) || (o.2.len() > 0 && t.2.len() > 0) {
            None
        } else {
            Some(
                acc.update(
                    i,
                    (
                        t.0,
                        if o.1.len() > 0 {
                            o.1
                        } else {
                            t.1
                        },
                        if o.2.len() > 0 {
                            o.2
                        } else {
                            t.2
                        },
                    ),
                ),
            )
        }
    } else {
        Some(acc.push(t))
    }
}

/// Switch halves `s` joined by code, from the last to the first.
pub open spec fn join_switches(s: Seq<(u8, Seq<char>, Seq<char>)>) -> Option<
    Seq<(u8, Seq<char>, Seq<char>)>,
>
    decreases s.len(),
{
    if s.len() == 0 {
        Some(Seq::empty())
    } else {
        match join_switches(s.drop_first()) {
            None => None,
            Some(acc) => join_switch(acc, s[0]),
        }
    }
}

/// Position of the first axis with event `e`, or the length of `acc`.
pub open spec fn axis_index(acc: Seq<(u8, Seq<char>)>, e: Seq<char>) -> int
    decreases acc.len(),
{
    if acc.len() == 0 {
        0
    } else if acc[0].1 == e {
        0
    } else {
        1 + axis_index(acc.drop_first(), e)
    }
}

/// Axis `a` joined into axes `acc`: an event already there must have the
/// same code (`None` otherwise); a new one is added at the end.
pub open spec fn join_axis(acc: Seq<(u8, Seq<char>)>, a: (u8, Seq<char>)) -> Option<Seq<(u8, Seq<char>)>> {
    let i = axis_index(acc, a.1);
    if i < acc.len() {
        if acc[i].0 != a.0 {
            None
        } else {
            Some(acc)
        }
    } else {
        Some(acc.push(a))
    }
}

/// Axes `s` joined by event, from the last to the first.
pub open spec fn join_axes(s: Seq<(u8, Seq<char>)>) -> Option<Seq<(u8, Seq<char>)>>
    decreases s.len(),
{
    if s.len() == 0 {
        Some(Seq::empty())
    } else {
        match join_axes(s.drop_first()) {
            None => None,
            Some(acc) => join_axis(acc, s[0]),
        }
    }
}

/// The mapping file of model `p`: of type `NES` when an input maps to
/// `nes` (that pair is dropped), else `Unknown`; its buttons and triggers in
/// the order of its pairs, its three-way switch halves and its axes joined;
/// an error for a pair without an entry, two halves that name the same side,
/// or an axis event on two codes.
pub open spec fn pad_mapping_of(p: SdlPadView) -> Result<PadMappingView, MapError> {
    let nes = has_key(p.mappings, "nes"@);
    match entries_of(assoc_remove(p.mappings, "nes"@)) {
        None => Err(MapError::UnknownMapping),
        Some(es) => match join_switches(switches_in(es)) {
            None => Err(MapError::SwitchSideTwice),
            Some(sw) => match join_axes(axes_in(es)) {
                None => Err(MapError::AxisCodeMismatch),
                Some(ax) => Ok(
                    PadMappingView {
                        name: p.name,
                        type_: if nes {
                            "NES"@
                        } else {
                            "Unknown"@
                        },
                        button: buttons_in(es),
                        axis: ax,
                        trigger: triggers_in(es),
                        three_way: sw,
                    },
                ),
            },
        },
    }
}

proof fn lemma_entries_none(ps: Seq<(Seq<char>, Seq<char>)>, k: int)
    requires
        0 <= k <= ps.len(),
        entries_of(ps.take(k)) is None,
    ensures
        entries_of(ps) is None,
    decreases ps.len() - k,
{
    if k == ps.len() {
        assert(ps.take(k) =~= ps);
    } else {
        assert(ps.take(k + 1).drop_last() =~= ps.take(k));
        lemma_entries_none(ps, k + 1);
    }
}

/// The entries of pairs `pairs`, sorted by kind (see [`entries_of`]).
fn classify(pairs: &Vec<(String, String)>) -> (r: Result<
    (
        Vec<(u8, &'static str)>,
        Vec<(u8, &'static str)>,
        Vec<(u8, &'static str)>,
        Vec<(u8, &'static str, &'static str)>,
    ),
    MapError,
>)
    ensures
        match entries_of(pairs_view(pairs@)) {
            None => r == Err::<
                (
                    Vec<(u8, &'static str)>,
                    Vec<(u8, &'static str)>,
                    Vec<(u8, &'static str)>,
                    Vec<(u8, &'static str, &'static str)>,
                ),
                MapError,
            >(MapError::UnknownMapping),
            Some(es) => r matches Ok((b, a, t, w)) && coded_view(b@) == buttons_in(es)
                && coded_view(a@) == axes_in(es) && coded_view(t@) == triggers_in(es)
                && switches_view(w@) == switches_in(es),
        },
{
    let ghost pv = pairs_view(pairs@);
    let mut buttons: Vec<(u8, &'static str)> = Vec::new();
    let mut axes: Vec<(u8, &'static str)> = Vec::new();
    let mut triggers: Vec<(u8, &'static str)> = Vec::new();
    let mut switches: Vec<(u8, &'static str, &'static str)> = Vec::new();
    let ghost mut es: Seq<EntryView> = Seq::empty();
    let mut i: usize = 0;
    assert(pv.take(0) =~= Seq::<(Seq<char>, Seq<char>)>::empty());
    assert(coded_view(buttons@) =~= Seq::<(u8, Seq<char>)>::empty());
    assert(coded_view(axes@) =~= Seq::<(u8, Seq<char>)>::empty());
    assert(coded_view(triggers@) =~= Seq::<(u8, Seq<char>)>::empty());
    assert(switches_view(switches@) =~= Seq::<(u8, Seq<char>, Seq<char>)>::empty());
    while i < pairs.len()
        invariant
            i <= pairs@.len(),
            pv == pairs_view(pairs@),
            entries_of(pv.take(i as int)) == Some(es),
            coded_view(buttons@) == buttons_in(es),
            coded_view(axes@) == axes_in(es),
            coded_view(triggers@) == triggers_in(es),
            switches_view(switches@) == switches_in(es),
        decreases pairs@.len() - i,
    {
        let entry = pad_entry(pairs[i].0.as_str(), pairs[i].1.as_str());
        proof {
            assert(pv.take(i + 1).drop_last() =~= pv.take(i as int));
            assert(pv.take(i + 1).last() == pv[i as int]);
            assert(pv[i as int] == (pairs@[i as int].0@, pairs@[i as int].1@));
        }
        match entry {
            None => {
                proof {
                    lemma_entries_none(pv, i + 1);
                }
                return Err(MapError::UnknownMapping);
            },
            Some(e) => {
                let ghost before = es;
                let ghost bb = coded_view(buttons@);
                let ghost ab = coded_view(axes@);
                let ghost tb = coded_view(triggers@);
                let ghost wb = switches_view(switches@);
                proof {
                    es = es.push(e@);
                    assert(es.drop_last() =~= before);
                }
                match e {
                    PadEntry::Button { code, event } => {
                        buttons.push((code, event));
                        assert(coded_view(buttons@) =~= bb.push((code, event@)));
                    },
                    PadEntry::Axis { code, event } => {
                        axes.push((code, event));
                        assert(coded_view(axes@) =~= ab.push((code, event@)));
                    },
                    PadEntry::Trigger { code, event } => {
                        triggers.push((code, event));
                        assert(coded_view(triggers@) =~= tb.push((code, event@)));
                    },
                    PadEntry::ThreeWay { code, neg, pos } => {
                        switches.push((code, neg, pos));
                        assert(switches_view(switches@) =~= wb.push((code, neg@, pos@)));
                    },
                }
            },
        }
        i = i + 1;
    }
    assert(pv.take(i as int) =~= pv);
    Ok((buttons, axes, triggers, switches))
}

proof fn lemma_switch_index(acc: Seq<(u8, Seq<char>, Seq<char>)>, code: u8, i: int)
    requires
        0 <= i <= acc.len(),
        forall|j: int| 0 <= j < i ==> (#[trigger] acc[j]).0 != code,
        i < acc.len() ==> acc[i].0 == code,
    ensures
        switch_index(acc, code) == i,
    decreases acc.len(),
{
    if acc.len() > 0 && i > 0 {
        assert(acc[0].0 != code);
        assert forall|j: int| 0 <= j < i - 1 implies (#[trigger] acc.drop_first()[j]).0 != code by {
            assert(acc.drop_first()[j] == acc[j + 1]);
        }
        lemma_switch_index(acc.drop_first(), code, i - 1);
    }
}

proof fn lemma_axis_index(acc: Seq<(u8, Seq<char>)>, e: Seq<char>, i: int)
    requires
        0 <= i <= acc.len(),
        forall|j: int| 0 <= j < i ==> (#[trigger] acc[j]).1 != e,
        i < acc.len() ==> acc[i].1 == e,
    ensures
        axis_index(acc, e) == i,
    decreases acc.len(),
{
    if acc.len() > 0 && i > 0 {
        assert(acc[0].1 != e);
        assert forall|j: int| 0 <= j < i - 1 implies (#[trigger] acc.drop_first()[j]).1 != e by {
            assert(acc.drop_first()[j] == acc[j + 1]);
        }
        lemma_axis_index(acc.drop_first(), e, i - 1);
    }
}

proof fn lemma_switches_none(s: Seq<(u8, Seq<char>, Seq<char>)>, k: int)
    requires
        0 <= k <= s.len(),
        join_switches(s.skip(k)) is None,
    ensures
        join_switches(s) is None,
    decreases k,
{
    if k == 0 {
        assert(s.skip(0) =~= s);
    } else {
        assert(s.skip(k - 1).drop_first() =~= s.skip(k));
        lemma_switches_none(s, k - 1);
    }
}

proof fn lemma_axes_none(s: Seq<(u8, Seq<char>)>, k: int)
    requires
        0 <= k <= s.len(),
        join_axes(s.skip(k)) is None,
    ensures
        join_axes(s) is None,
    decreases k,
{
    if k == 0 {
        assert(s.skip(0) =~= s);
    } else {
        assert(s.skip(k - 1).drop_first() =~= s.skip(k));
        lemma_axes_none(s, k - 1);
    }
}

/// Switch halves joined by code (see [`join_switches`]).
fn join_switch_list(s: &Vec<(u8, &'static str, &'static str)>) -> (r: Option<Vec<(u8, &'static str, &'static str)>>)
    ensures
        match join_switches(switches_view(s@)) {
            None => r is None,
            Some(w) => r matches Some(v) && switches_view(v@) == w,
        },
{
    let ghost sv = switches_view(s@);
    let mut acc: Vec<(u8, &'static str, &'static str)> = Vec::new();
    let mut i: usize = s.len();
    assert(sv.skip(sv.len() as int) =~= Seq::<(u8, Seq<char>, Seq<char>)>::empty());
    assert(switches_view(acc@) =~= Seq::<(u8, Seq<char>, Seq<char>)>::empty());
    while i > 0
        invariant
            i <= s@.len(),
            sv == switches_view(s@),
            join_switches(sv.skip(i as int)) == Some(switches_view(acc@)),
        decreases i,
    {
        let t = s[i - 1];
        let ghost av = switches_view(acc@);
        proof {
            assert(sv.skip(i - 1).drop_first() =~= sv.skip(i as int));
            assert(sv.skip(i - 1)[0] == sv[i - 1]);
            assert(sv[i - 1] == (t.0, t.1@, t.2@));
        }
        let mut j: usize = 0;
        while j < acc.len() && acc[j].0 != t.0
            invariant
                j <= acc@.len(),
                av == switches_view(acc@),
                forall|m: int| 0 <= m < j ==> (#[trigger] av[m]).0 != t.0,
            decreases acc@.len() - j,
        {
            j = j + 1;
        }
        proof {
            lemma_switch_index(av, t.0, j as int);
        }
        if j < acc.len() {
            let o = acc[j];
            if (!o.1.is_empty() && !t.1.is_empty()) || (!o.2.is_empty() && !t.2.is_empty()) {
                proof {
                    lemma_switches_none(sv, i - 1);
                }
                return None;
            }
            let neg = if !o.1.is_empty() { o.1 } else { t.1 };
            let pos = if !o.2.is_empty() { o.2 } else { t.2 };
            acc.set(j, (t.0, neg, pos));
            proof {
                assert(switches_view(acc@) =~= av.update(j as int, (t.0, neg@, pos@)));
            }
        } else {
            acc.push(t);
            proof {
                assert(switches_view(acc@) =~= av.push((t.0, t.1@, t.2@)));
            }
        }
        i = i - 1;
    }
    assert(sv.skip(0) =~= sv);
    Some(acc)
}

/// Axes joined by event (see [`join_axes`]).
fn join_axis_list(s: &Vec<(u8, &'static str)>) -> (r: Option<Vec<(u8, &'static str)>>)
    ensures
        match join_axes(coded_view(s@)) {
            None => r is None,
            Some(w) => r matches Some(v) && coded_view(v@) == w,
        },
{
    let ghost sv = coded_view(s@);
    let mut acc: Vec<(u8, &'static str)> = Vec::new();
    let mut i: usize = s.len();
    assert(sv.skip(sv.len() as int) =~= Seq::<(u8, Seq<char>)>::empty());
    assert(coded_view(acc@) =~= Seq::<(u8, Seq<char>)>::empty());
    while i > 0
        invariant
            i <= s@.len(),
            sv == coded_view(s@),
            join_axes(sv.skip(i as int)) == Some(coded_view(acc@)),
        decreases i,
    {
        let t = s[i - 1];
        let ghost av = coded_view(acc@);
        proof {
            assert(sv.skip(i - 1).drop_first() =~= sv.skip(i as int));
            assert(sv.skip(i - 1)[0] == sv[i - 1]);
            assert(sv[i - 1] == (t.0, t.1@));
        }
        let mut j: usize = 0;
        while j < acc.len() && !str_eq(acc[j].1, t.1)
            invariant
                j <= acc@.len(),
                av == coded_view(acc@),
                forall|m: int| 0 <= m < j ==> (#[trigger] av[m]).1 != t.1@,
            decreases acc@.len() - j,
        {
            j = j + 1;
        }
        proof {
            lemma_axis_index(av, t.1@, j as int);
        }
        if j < acc.len() {
            if acc[j].0 != t.0 {
                proof {
                    lemma_axes_none(sv, i - 1);
                }
                return None;
            }
        } else {
            acc.push(t);
            proof {
                assert(coded_view(acc@) =~= av.push((t.0, t.1@)));
            }
        }
        i = i - 1;
    }
    assert(sv.skip(0) =~= sv);
    Some(acc)
}

/// The mapping file of model `pad` (see [`pad_mapping_of`]).
pub fn pad_mapping(pad: &SdlPad) -> (r: Result<PadMapping, MapError>)
    ensures
        match pad_mapping_of(pad@) {
            Ok(m) => r matches Ok(x) && x@ == m,
            Err(e) => r matches Err(x) && x == e,
        },
{
    let mut pairs = clone_pairs(&pad.mappings);
    let nes = remove_pair(&mut pairs, "nes");
    let (buttons, axes, triggers, switches) = match classify(&pairs) {
        Ok(c) => c,
        Err(e) => {
            return Err(e);
        },
    };
    let three_way = match join_switch_list(&switches) {
        Some(w) => w,
        None => {
            return Err(MapError::SwitchSideTwice);
        },
    };
    let axis = match join_axis_list(&axes) {
        Some(a) => a,
        None => {
            return Err(MapError::AxisCodeMismatch);
        },
    };
    let type_: &'static str = if nes { "NES" } else { "Unknown" };
    Ok(
        PadMapping {
            name: pad.name.clone(),
            type_,
            button: buttons,
            axis,
            trigger: triggers,
            three_way,
        },
    )
}

/// No input occurs twice among the pairs.
pub open spec fn unique_inputs(a: Seq<(Seq<char>, Seq<char>)>) -> bool {
    forall|i: int, j: int| 0 <= i < j < a.len() ==> (#[trigger] a[i]).0 != (#[trigger] a[j]).0
}

proof fn lemma_key_index_prefix(a: Seq<(Seq<char>, Seq<char>)>, b: Seq<(Seq<char>, Seq<char>)>, k: Seq<char>)
    requires
        has_key(a, k),
    ensures
        key_index(a + b, k) == key_index(a, k),
{
    lemma_key_index(a, k);
    let i = key_index(a, k);
    assert forall|j: int| 0 <= j < i implies (#[trigger] (a + b)[j]).0 != k by {
        assert((a + b)[j] == a[j]);
    }
    assert((a + b)[i] == a[i]);
    lemma_key_index_is(a + b, k, i);
}

proof fn lemma_key_index_suffix(a: Seq<(Seq<char>, Seq<char>)>, b: Seq<(Seq<char>, Seq<char>)>, k: Seq<char>)
    requires
        !has_key(a, k),
    ensures
        key_index(a + b, k) == a.len() + key_index(b, k),
{
    lemma_key_index(a, k);
    lemma_key_index(b, k);
    let i = a.len() + key_index(b, k);
    assert forall|j: int| 0 <= j < i implies (#[trigger] (a + b)[j]).0 != k by {
        if j < a.len() {
            assert((a + b)[j] == a[j]);
        } else {
            assert((a + b)[j] == b[j - a.len()]);
        }
    }
    if i < (a + b).len() {
        assert((a + b)[i] == b[key_index(b, k)]);
    }
    lemma_key_index_is(a + b, k, i);
}

proof fn lemma_unique_index(a: Seq<(Seq<char>, Seq<char>)>, j: int)
    requires
        unique_inputs(a),
        0 <= j < a.len(),
    ensures
        key_index(a, a[j].0) == j,
{
    assert forall|m: int| 0 <= m < j implies (#[trigger] a[m]).0 != a[j].0 by {
        assert(a[m].0 != a[j].0);
    }
    lemma_key_index_is(a, a[j].0, j);
}

/// Every pair that `fresh_pairs` keeps is a pair of `p`.
proof fn lemma_fresh_from(old: Seq<(Seq<char>, Seq<char>)>, p: Seq<(Seq<char>, Seq<char>)>)
    ensures
        forall|t: int|
            0 <= t < fresh_pairs(old, p).len() ==> exists|j: int|
                0 <= j < p.len() && #[trigger] fresh_pairs(old, p)[t] == p[j],
    decreases p.len(),
{
    if p.len() > 0 {
        let q = p.drop_last();
        lemma_fresh_from(old, q);
        let f = fresh_pairs(old, q);
        assert forall|t: int| 0 <= t < fresh_pairs(old, p).len() implies exists|j: int|
            0 <= j < p.len() && #[trigger] fresh_pairs(old, p)[t] == p[j] by {
            if t < f.len() {
                let j = choose|j: int| 0 <= j < q.len() && f[t] == q[j];
                assert(fresh_pairs(old, p)[t] == f[t]);
                assert(q[j] == p[j]);
            } else {
                assert(fresh_pairs(old, p)[t] == p[p.len() - 1]);
            }
        }
    }
}

/// `fresh_pairs` keeps every pair of `p` whose input `old` lacks.
proof fn lemma_fresh_keeps(old: Seq<(Seq<char>, Seq<char>)>, p: Seq<(Seq<char>, Seq<char>)>, j: int)
    requires
        0 <= j < p.len(),
        !has_key(old, p[j].0),
    ensures
        exists|t: int| 0 <= t < fresh_pairs(old, p).len() && fresh_pairs(old, p)[t] == p[j],
    decreases p.len(),
{
    let q = p.drop_last();
    let f = fresh_pairs(old, q);
    if j < q.len() {
        assert(q[j] == p[j]);
        lemma_fresh_keeps(old, q, j);
        let t = choose|t: int| 0 <= t < f.len() && f[t] == q[j];
        assert(fresh_pairs(old, p)[t] == f[t]);
    } else {
        assert(fresh_pairs(old, p) == f.push(p.last()));
        assert(fresh_pairs(old, p)[f.len() as int] == p[j]);
    }
}

/// `fresh_pairs` keeps no input twice when `p` has none twice.
proof fn lemma_fresh_unique(old: Seq<(Seq<char>, Seq<char>)>, p: Seq<(Seq<char>, Seq<char>)>)
    requires
        unique_inputs(p),
    ensures
        unique_inputs(fresh_pairs(old, p)),
    decreases p.len(),
{
    if p.len() > 0 {
        let q = p.drop_last();
        assert forall|i: int, j: int| 0 <= i < j < q.len() implies (#[trigger] q[i]).0 != (
        #[trigger] q[j]).0 by {
            assert(q[i] == p[i] && q[j] == p[j]);
        }
        lemma_fresh_unique(old, q);
        let f = fresh_pairs(old, q);
        let x = p.last();
        if !has_key(old, x.0) {
            lemma_fresh_from(old, q);
            let g = f.push(x);
            assert forall|i: int, j: int| 0 <= i < j < g.len() implies (#[trigger] g[i]).0 != (
            #[trigger] g[j]).0 by {
                if j == f.len() {
                    assert(g[i] == f[i]);
                    let m = choose|m: int| 0 <= m < q.len() && f[i] == q[m];
                    assert(p[m] == q[m]);
                    assert(p[m].0 != p[p.len() - 1].0);
                } else {
                    assert(g[i] == f[i] && g[j] == f[j]);
                }
            }
        }
    }
}

proof fn lemma_fresh_all_present(m: Seq<(Seq<char>, Seq<char>)>, p: Seq<(Seq<char>, Seq<char>)>)
    requires
        forall|j: int| 0 <= j < p.len() ==> has_key(m, (#[trigger] p[j]).0),
    ensures
        fresh_pairs(m, p) == Seq::<(Seq<char>, Seq<char>)>::empty(),
    decreases p.len(),
{
    if p.len() > 0 {
        let q = p.drop_last();
        assert forall|j: int| 0 <= j < q.len() implies has_key(m, (#[trigger] q[j]).0) by {
            assert(q[j] == p[j]);
        }
        lemma_fresh_all_present(m, q);
        assert(has_key(m, p[p.len() - 1].0));
    }
}

proof fn lemma_pad_index(pads: Seq<SdlPadView>, id: u64)
    ensures
        0 <= pad_index(pads, id) <= pads.len(),
        forall|j: int| 0 <= j < pad_index(pads, id) ==> (#[trigger] pads[j]).id != id,
        pad_index(pads, id) < pads.len() ==> pads[pad_index(pads, id)].id == id,
    decreases pads.len(),
{
    if pads.len() > 0 && pads[0].id != id {
        lemma_pad_index(pads.drop_first(), id);
        assert forall|j: int| 0 <= j < pad_index(pads, id) implies (#[trigger] pads[j]).id != id by {
            if j > 0 {
                assert(pads[j] == pads.drop_first()[j - 1]);
            }
        }
    }
}

/// After a model's pairs `p` are merged into `old`, the merged pairs map
/// every input of `p` as `p` does, so that merging `p` again adds nothing.
proof fn lemma_merged_pairs_again(old: Seq<(Seq<char>, Seq<char>)>, p: Seq<(Seq<char>, Seq<char>)>)
    requires
        unique_inputs(p),
        !conflicts(old, p),
    ensures
        !conflicts(old + fresh_pairs(old, p), p),
        fresh_pairs(old + fresh_pairs(old, p), p) == Seq::<(Seq<char>, Seq<char>)>::empty(),
{
    let f = fresh_pairs(old, p);
    let m = old + f;
    lemma_fresh_unique(old, p);
    assert forall|j: int| 0 <= j < p.len() implies has_key(m, (#[trigger] p[j]).0) && assoc_get(m, p[j].0)
        == p[j].1 by {
        let k = p[j].0;
        if has_key(old, k) {
            lemma_key_index(old, k);
            lemma_key_index_prefix(old, f, k);
            assert(!(has_key(old, p[j].0) && assoc_get(old, p[j].0) != p[j].1));
            assert(m[key_index(old, k)] == old[key_index(old, k)]);
        } else {
            lemma_fresh_keeps(old, p, j);
            let t = choose|t: int| 0 <= t < f.len() && f[t] == p[j];
            lemma_unique_index(f, t);
            lemma_key_index_suffix(old, f, k);
            assert(m[old.len() + t] == f[t]);
        }
    }
    lemma_fresh_all_present(m, p);
}

/// Adding the model of a line a second time changes nothing: the model is
/// known by then, with the same name and every input mapped the same way
/// (the lines of the database map each input once).
pub proof fn lemma_merge_again(pads: Seq<SdlPadView>, p: SdlPadView)
    requires
        unique_inputs(p.mappings),
    ensures
        match merged(pads, p) {
            Ok((m, _)) => merged(m, p) == Ok::<(Seq<SdlPadView>, bool), MapError>((m, true)),
            Err(_) => true,
        },
{
    lemma_pad_index(pads, p.id);
    let i = pad_index(pads, p.id);
    if i < pads.len() {
        if pads[i].name == p.name && !conflicts(pads[i].mappings, p.mappings) {
            let old = pads[i].mappings;
            let nm = old + fresh_pairs(old, p.mappings);
            let m = pads.update(i, SdlPadView { mappings: nm, ..pads[i] });
            assert forall|j: int| 0 <= j < i implies (#[trigger] m[j]).id != p.id by {
                assert(m[j] == pads[j]);
            }
            lemma_pad_index_is(m, p.id, i);
            lemma_merged_pairs_again(old, p.mappings);
            assert(nm + fresh_pairs(nm, p.mappings) =~= nm);
            assert(m.update(i, SdlPadView { mappings: nm + fresh_pairs(nm, p.mappings), ..m[i] }) =~= m);
        }
    } else {
        let m = pads.push(p);
        assert forall|j: int| 0 <= j < i implies (#[trigger] m[j]).id != p.id by {
            assert(m[j] == pads[j]);
        }
        lemma_pad_index_is(m, p.id, i);
        let a = p.mappings;
        assert forall|j: int| 0 <= j < a.len() implies has_key(a, (#[trigger] a[j]).0) && assoc_get(a, a[j].0)
            == a[j].1 by {
            lemma_unique_index(a, j);
        }
        assert(!conflicts(a, a));
        lemma_fresh_all_present(a, a);
        assert(a + fresh_pairs(a, a) =~= a);
        assert(m.update(i, SdlPadView { mappings: a + fresh_pairs(a, a), ..m[i] }) =~= m);
    }
}

proof fn lemma_insert_unique(a: Seq<(Seq<char>, Seq<char>)>, k: Seq<char>, v: Seq<char>)
    requires
        unique_inputs(a),
    ensures
        unique_inputs(assoc_insert(a, k, v)),
{
    lemma_key_index(a, k);
    let r = assoc_insert(a, k, v);
    if has_key(a, k) {
        let i = key_index(a, k);
        assert forall|x: int, y: int| 0 <= x < y < r.len() implies (#[trigger] r[x]).0 != (#[trigger] r[y]).0 by {
            assert(r[x].0 == a[x].0 && r[y].0 == a[y].0);
        }
    } else {
        assert forall|x: int, y: int| 0 <= x < y < r.len() implies (#[trigger] r[x]).0 != (#[trigger] r[y]).0 by {
            if y == a.len() {
                assert(r[x] == a[x]);
            } else {
                assert(r[x] == a[x] && r[y] == a[y]);
            }
        }
    }
}

proof fn lemma_remove_unique(a: Seq<(Seq<char>, Seq<char>)>, k: Seq<char>)
    requires
        unique_inputs(a),
    ensures
        unique_inputs(assoc_remove(a, k)),
{
    lemma_key_index(a, k);
    let r = assoc_remove(a, k);
    if has_key(a, k) {
        let i = key_index(a, k);
        assert forall|x: int, y: int| 0 <= x < y < r.len() implies (#[trigger] r[x]).0 != (#[trigger] r[y]).0 by {
            let x2 = if x < i { x } else { x + 1 };
            let y2 = if y < i { y } else { y + 1 };
            assert(r[x] == a[x2] && r[y] == a[y2]);
        }
    }
}

proof fn lemma_collect_unique(ms: Seq<Seq<u8>>)
    ensures
        collect_pairs(ms) matches Some(a) ==> unique_inputs(a),
    decreases ms.len(),
{
    if ms.len() > 0 {
        lemma_collect_unique(ms.drop_last());
        if let (Some(a), Some((i, n))) = (collect_pairs(ms.drop_last()), split_mapping(ms.last())) {
            lemma_insert_unique(a, decode_utf8(i), decode_utf8(n));
        }
    }
}

/// A model read from a line maps each input once, so that adding it again
/// changes nothing (see [`lemma_merge_again`]).
pub proof fn lemma_line_inputs_unique(line: Seq<u8>)
    ensures
        sdl_pad_of(line) matches Ok(Some(p)) ==> unique_inputs(p.mappings),
{
    if line.len() > 0 && line[0] != 0x23 {
        let f = comma_fields(line);
        lemma_collect_unique(mapping_fields(f));
        if let Some(a) = collect_pairs(mapping_fields(f)) {
            lemma_remove_unique(a, "Linux"@);
            lemma_remove_unique(a, "Mac OS X"@);
        }
    }
}

} // verus!
