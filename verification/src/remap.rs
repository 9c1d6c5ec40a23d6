//! Controller remapping information and the text database it is loaded from.
//!
//! Each line of the database describes one controller model:
//!
//! ```text
//! <16 hex digits: id><name>\t<type letter><event>;<event>;...
//! ```
//!
//! and each event is two hex digits for the input identifier, two for the
//! output identifier (see [`crate::event`]), then tweaks: `d` and a deadzone,
//! `s` and a scale (both decimal floating-point numbers), `u` and a decimal
//! `u16`, `a` and a maximum, `i` and a minimum (both decimal `i64`).  A
//! tweak's text runs up to the next lower-case letter.
//!
//! Floating-point tweaks are kept as the text that the database holds.

use vstd::prelude::*;
use vstd::string::StringSliceAdditionalSpecFns;
use vstd::utf8::{decode_utf8, is_continuation_byte};
use std::collections::HashMap;
use crate::digits::{parse_unsigned, parse_unsigned_range, parse_i64, parse_i64_range};
use crate::float_text::{is_float_text, is_float_text_in};
use crate::text::{cuts_at, find_first, find_in, is_byte, lemma_find_first, lemma_find_first_is, substr};

verus! {

broadcast use vstd::std_specs::hash::group_hash_axioms;

/// How one input of a controller model is remapped.
#[derive(Debug)]
pub struct Mapping {
    /// Identifier of the event that the input produces instead.
    pub out: u8,
    /// Deadzone, as the decimal text of the database (`None` when not given).
    pub deadzone: Option<String>,
    /// Scale, as the decimal text of the database (`None` when not given);
    /// the input is divided by it.
    pub scale: Option<String>,
    /// Unsigned range tweak (`0` when not given).
    pub unsigned: u16,
    /// Maximum raw value of the input (`None` when not given).
    pub max: Option<i64>,
    /// Minimum raw value of the input (`None` when not given).
    pub min: Option<i64>,
}

/// The contents of a [`Mapping`].
pub struct MappingView {
    pub out: u8,
    pub deadzone: Option<Seq<char>>,
    pub scale: Option<Seq<char>>,
    pub unsigned: u16,
    pub max: Option<i64>,
    pub min: Option<i64>,
}

/// The characters of an optional string.
pub open spec fn string_view(s: Option<String>) -> Option<Seq<char>> {
    match s {
        Some(t) => Some(t@),
        None => None,
    }
}

/// The characters that optional UTF-8 bytes encode.
pub open spec fn text_view(b: Option<Seq<u8>>) -> Option<Seq<char>> {
    match b {
        Some(t) => Some(decode_utf8(t)),
        None => None,
    }
}

impl View for Mapping {
    type V = MappingView;

    open spec fn view(&self) -> MappingView {
        MappingView {
            out: self.out,
            deadzone: string_view(self.deadzone),
            scale: string_view(self.scale),
            unsigned: self.unsigned,
            max: self.max,
            min: self.min,
        }
    }
}

/// Remapping information about one controller model.
#[derive(Debug)]
pub struct Info {
    name: String,
    maps: HashMap<u8, Mapping>,
    type_: u8,
}

/// The contents of an [`Info`].
pub struct InfoView {
    pub name: Seq<char>,
    pub maps: Map<u8, MappingView>,
    pub type_: u8,
}

/// The contents of a map of mappings.
pub open spec fn maps_view(m: Map<u8, Mapping>) -> Map<u8, MappingView> {
    Map::new(|k: u8| m.contains_key(k), |k: u8| m[k]@)
}

impl View for Info {
    type V = InfoView;

    closed spec fn view(&self) -> InfoView {
        InfoView { name: self.name@, maps: maps_view(self.maps@), type_: self.type_ }
    }
}

impl Info {
    /// Information about a model that the database does not know: named
    /// "Unknown", with no mappings, of type `w`.
    pub fn default() -> (r: Info)
        ensures
            r@.name == "Unknown"@,
            r@.maps == Map::<u8, MappingView>::empty(),
            r@.type_ == 0x77,
    {
        let maps: HashMap<u8, Mapping> = HashMap::new();
        proof {
            assert(maps_view(maps@) =~= Map::<u8, MappingView>::empty());
        }
        Info { name: "Unknown".to_owned(), maps, type_: 0x77 }
    }

    /// Name of the model.
    pub fn name(&self) -> (r: &String)
        ensures
            r@ == self@.name,
    {
        &self.name
    }

    /// Type letter of the model (an ASCII byte).
    pub fn type_(&self) -> (r: u8)
        ensures
            r == self@.type_,
    {
        self.type_
    }

    /// How input `input` is remapped, if it is.
    pub fn mapping(&self, input: u8) -> (r: Option<&Mapping>)
        ensures
            match r {
                Some(m) => self@.maps.contains_key(input) && m@ == self@.maps[input],
                None => !self@.maps.contains_key(input),
            },
    {
        self.maps.get(&input)
    }
}

/// Controller remapping information, by controller model.
#[derive(Debug)]
pub struct Remap(HashMap<u64, Info>);

/// The contents of a map of models.
pub open spec fn remap_view(m: Map<u64, Info>) -> Map<u64, InfoView> {
    Map::new(|k: u64| m.contains_key(k), |k: u64| m[k]@)
}

impl View for Remap {
    type V = Map<u64, InfoView>;

    closed spec fn view(&self) -> Map<u64, InfoView> {
        remap_view(self.0@)
    }
}

/* The database format, on the bytes of the UTF-8 text. */

/// Bytes that end a tweak's text: an ASCII lower-case letter or a byte of a
/// non-ASCII character.
pub open spec fn is_tweak_stop() -> spec_fn(u8) -> bool {
    |b: u8| (0x61 <= b <= 0x7A) || b >= 0x80
}

/// The tweaks of an event from byte `cursor` on, given those read so far
/// (deadzone text, scale text, unsigned value, maximum, minimum); `None` if
/// they are malformed.
pub open spec fn spec_tweaks(
    e: Seq<u8>,
    cursor: int,
    d: Option<Seq<u8>>,
    s: Option<Seq<u8>>,
    u: u16,
    a: Option<i64>,
    i: Option<i64>,
) -> Option<(Option<Seq<u8>>, Option<Seq<u8>>, u16, Option<i64>, Option<i64>)>
    decreases e.len() - cursor,
{
    if !cuts_at(e, cursor) {
        None
    } else if cursor == e.len() {
        Some((d, s, u, a, i))
    } else {
        let t = e[cursor];
        if t != 0x64 && t != 0x73 && t != 0x75 && t != 0x61 && t != 0x69 {
            None
        } else if !cuts_at(e, cursor + 1) {
            None
        } else {
            let end = cursor + 1 + find_first(e.skip(cursor + 1), is_tweak_stop());
            proof {
                lemma_find_first(e.skip(cursor + 1), is_tweak_stop());
            }
            if !cuts_at(e, end) {
                None
            } else {
                let text = e.subrange(cursor + 1, end);
                if t == 0x75 {
                    match parse_unsigned(text, 10, 0xFFFF) {
                        Some(v) => spec_tweaks(e, end, d, s, v as u16, a, i),
                        None => None,
                    }
                } else if t == 0x61 {
                    match parse_i64(text) {
                        Some(v) => spec_tweaks(e, end, d, s, u, Some(v), i),
                        None => None,
                    }
                } else if t == 0x69 {
                    match parse_i64(text) {
                        Some(v) => spec_tweaks(e, end, d, s, u, a, Some(v)),
                        None => None,
                    }
                } else if !is_float_text(text) {
                    None
                } else if t == 0x64 {
                    spec_tweaks(e, end, Some(text), s, u, a, i)
                } else {
                    spec_tweaks(e, end, d, Some(text), u, a, i)
                }
            }
        }
    }
}

/// One event of a line: input identifier and its mapping; `None` if it is
/// malformed.
pub open spec fn spec_event(e: Seq<u8>) -> Option<(u8, MappingView)> {
    if !cuts_at(e, 2) {
        None
    } else {
        match parse_unsigned(e.take(2), 16, 0xFF) {
            None => None,
            Some(input) => if !cuts_at(e, 4) {
                None
            } else {
                match parse_unsigned(e.subrange(2, 4), 16, 0xFF) {
                    None => None,
                    Some(out) => match spec_tweaks(e, 4, None, None, 0, None, None) {
                        None => None,
                        Some((d, s, u, a, i)) => Some(
                            (
                                input as u8,
                                MappingView {
                                    out: out as u8,
                                    deadzone: text_view(d),
                                    scale: text_view(s),
                                    unsigned: u,
                                    max: a,
                                    min: i,
                                },
                            ),
                        ),
                    },
                }
            },
        }
    }
}

/// The `;`-separated events of a line added to `acc` in order (a later one
/// replaces an earlier one for the same input); `None` if one is malformed.
pub open spec fn spec_events(acc: Map<u8, MappingView>, rest: Seq<u8>) -> Option<
    Map<u8, MappingView>,
>
    decreases rest.len(),
{
    let semi = find_first(rest, is_byte(0x3B));
    proof {
        lemma_find_first(rest, is_byte(0x3B));
    }
    match spec_event(rest.take(semi)) {
        None => None,
        Some((input, m)) => if semi < rest.len() {
            spec_events(acc.insert(input, m), rest.skip(semi + 1))
        } else {
            Some(acc.insert(input, m))
        },
    }
}

/// One line: `None` if reading it fails on a slice outside the line's
/// character boundaries, `Some(None)` if it is malformed, else the model's
/// identifier and information.
pub open spec fn spec_line(line: Seq<u8>) -> Option<Option<(u64, InfoView)>> {
    if !cuts_at(line, 16) {
        None
    } else {
        match parse_unsigned(line.take(16), 16, 0xFFFF_FFFF_FFFF_FFFF) {
            None => Some(None),
            Some(id) => {
                let tab = find_first(line, is_byte(0x09));
                if tab == line.len() {
                    Some(None)
                } else if tab < 16 {
                    None
                } else if !(cuts_at(line, tab + 1) && cuts_at(line, tab + 2)) {
                    Some(None)
                } else {
                    match spec_events(Map::empty(), line.skip(tab + 2)) {
                        None => Some(None),
                        Some(maps) => Some(
                            Some(
                                (
                                    id as u64,
                                    InfoView {
                                        name: decode_utf8(line.subrange(16, tab)),
                                        maps,
                                        type_: line[tab + 1],
                                    },
                                ),
                            ),
                        ),
                    }
                }
            },
        }
    }
}

/// Length of the first line of `rest`, without its line ending.
pub open spec fn first_line_len(rest: Seq<u8>) -> int {
    let n = find_first(rest, is_byte(0x0A));
    if n < rest.len() && n > 0 && rest[n - 1] == 0x0D {
        n - 1
    } else {
        n
    }
}

/// What follows the first line of `rest` and its line ending.
pub open spec fn after_first_line(rest: Seq<u8>) -> Seq<u8> {
    let n = find_first(rest, is_byte(0x0A));
    if n < rest.len() {
        rest.skip(n + 1)
    } else {
        Seq::empty()
    }
}

/// Loading the lines of `rest` into `acc` in order (a later line replaces an
/// earlier one for the same model): `None` if reading a line fails on a slice
/// outside its character boundaries, `Some(None)` if a line is malformed,
/// else the models.
pub open spec fn spec_load(acc: Map<u64, InfoView>, rest: Seq<u8>) -> Option<
    Option<Map<u64, InfoView>>,
>
    decreases rest.len(),
{
    if rest.len() == 0 {
        Some(Some(acc))
    } else {
        proof {
            lemma_find_first(rest, is_byte(0x0A));
        }
        match spec_line(rest.take(first_line_len(rest))) {
            None => None,
            Some(None) => Some(None),
            Some(Some((id, info))) => spec_load(acc.insert(id, info), after_first_line(rest)),
        }
    }
}

/// A line that can be cut after its identifier's 16 bytes reads without
/// cutting a character: into a model or as malformed.
proof fn lemma_line_some(line: Seq<u8>)
    requires
        cuts_at(line, 16),
    ensures
        spec_line(line) is Some,
{
    if let Some(id) = parse_unsigned(line.take(16), 16, 0xFFFF_FFFF_FFFF_FFFF) {
        let tab = find_first(line, is_byte(0x09));
        lemma_find_first(line, is_byte(0x09));
        if tab < 16 {
            assert(line.take(16)[tab] == line[tab]);
            crate::digits::lemma_parsed_bytes(line.take(16), 16, 0xFFFF_FFFF_FFFF_FFFF, tab);
        }
    }
}

/* Reading the database. */

/// Whether `bytes[from..to]` may be cut `k` bytes after `from`.
fn can_cut(bytes: &[u8], from: usize, to: usize, k: usize) -> (r: bool)
    requires
        from <= to <= bytes@.len(),
    ensures
        r == cuts_at(bytes@.subrange(from as int, to as int), k as int),
{
    if k > to - from {
        false
    } else if k == to - from {
        true
    } else {
        let b = bytes[from + k];
        !(0x80 <= b && b <= 0xBF)
    }
}

/// A cut inside a window that ends at a cut is a cut of the whole text.
proof fn lemma_lift_cut(all: Seq<u8>, from: int, to: int, k: int)
    requires
        0 <= from <= to <= all.len(),
        cuts_at(all.subrange(from, to), k),
        cuts_at(all, to),
    ensures
        cuts_at(all, from + k),
{
    if from + k < to {
        assert(all.subrange(from, to)[k] == all[from + k]);
    }
}

/// Position of the first byte that ends a tweak's text in `bytes[from..to]`
/// (or `to`).
fn find_tweak_stop(bytes: &[u8], from: usize, to: usize) -> (r: usize)
    requires
        from <= to <= bytes@.len(),
    ensures
        from <= r <= to,
        r - from == find_first(bytes@.subrange(from as int, to as int), is_tweak_stop()),
{
    let ghost s = bytes@.subrange(from as int, to as int);
    let ghost pred = is_tweak_stop();
    let mut i = from;
    while i < to && !((0x61 <= bytes[i] && bytes[i] <= 0x7A) || bytes[i] >= 0x80)
        invariant
            from <= i <= to <= bytes@.len(),
            s == bytes@.subrange(from as int, to as int),
            pred == is_tweak_stop(),
            forall|j: int| 0 <= j < i - from ==> !pred(#[trigger] s[j]),
        decreases to - i,
    {
        i = i + 1;
    }
    proof {
        lemma_find_first_is(s, pred, i - from);
    }
    i
}

/// The tweaks of the event `bytes[es..ee]`.
fn parse_tweaks(data: &str, bytes: &[u8], es: usize, ee: usize) -> (r: Option<
    (Option<String>, Option<String>, u16, Option<i64>, Option<i64>),
>)
    requires
        bytes@ == data.spec_bytes(),
        es + 4 <= ee <= bytes@.len(),
        cuts_at(bytes@, ee as int),
        cuts_at(bytes@.subrange(es as int, ee as int), 4),
    ensures
        match spec_tweaks(bytes@.subrange(es as int, ee as int), 4, None, None, 0, None, None) {
            None => r is None,
            Some((d, s, u, a, i)) => r matches Some((rd, rs, ru, ra, ri)) && string_view(rd)
                == text_view(d) && string_view(rs) == text_view(s) && ru == u && ra == a && ri == i,
        },
{
    let ghost e = bytes@.subrange(es as int, ee as int);
    let ghost target = spec_tweaks(e, 4, None, None, 0, None, None);
    let mut d: Option<String> = None;
    let mut s: Option<String> = None;
    let mut u: u16 = 0;
    let mut a: Option<i64> = None;
    let mut i: Option<i64> = None;
    let ghost mut gd: Option<Seq<u8>> = None;
    let ghost mut gs: Option<Seq<u8>> = None;
    let mut cursor = es + 4;
    while cursor < ee
        invariant
            bytes@ == data.spec_bytes(),
            es + 4 <= cursor <= ee <= bytes@.len(),
            cuts_at(bytes@, ee as int),
            e == bytes@.subrange(es as int, ee as int),
            cuts_at(e, cursor - es),
            spec_tweaks(e, cursor - es, gd, gs, u, a, i) == target,
            target == spec_tweaks(e, 4, None, None, 0, None, None),
            string_view(d) == text_view(gd),
            string_view(s) == text_view(gs),
        decreases ee - cursor,
    {
        let k = cursor - es;
        let t = bytes[cursor];
        assert(e[k as int] == t);
        assert(cursor - es < e.len());
        if t != 0x64 && t != 0x73 && t != 0x75 && t != 0x61 && t != 0x69 {
            assert(spec_tweaks(e, k as int, gd, gs, u, a, i) is None);
            return None;
        }
        if !can_cut(bytes, es, ee, k + 1) {
            return None;
        }
        let stop = find_tweak_stop(bytes, cursor + 1, ee);
        proof {
            assert(e.skip(k + 1) =~= bytes@.subrange(cursor + 1, ee as int));
            lemma_find_first(e.skip(k + 1), is_tweak_stop());
        }
        if !can_cut(bytes, es, ee, stop - es) {
            return None;
        }
        let ghost text = e.subrange(k + 1, stop - es);
        assert(text =~= bytes@.subrange(cursor + 1, stop as int));
        if t == 0x75 {
            match parse_unsigned_range(bytes, cursor + 1, stop, 10, 0xFFFF) {
                None => {
                    return None;
                },
                Some(v) => {
                    u = v as u16;
                },
            }
        } else if t == 0x61 || t == 0x69 {
            match parse_i64_range(bytes, cursor + 1, stop) {
                None => {
                    return None;
                },
                Some(v) => {
                    if t == 0x61 {
                        a = Some(v);
                    } else {
                        i = Some(v);
                    }
                },
            }
        } else {
            if !is_float_text_in(bytes, cursor + 1, stop) {
                return None;
            }
            proof {
                lemma_lift_cut(bytes@, es as int, ee as int, k + 1);
                lemma_lift_cut(bytes@, es as int, ee as int, stop - es);
            }
            let txt = substr(data, cursor + 1, stop).to_owned();
            if t == 0x64 {
                d = Some(txt);
                proof {
                    gd = Some(text);
                }
            } else {
                s = Some(txt);
                proof {
                    gs = Some(text);
                }
            }
        }
        cursor = stop;
    }
    Some((d, s, u, a, i))
}

/// The event `bytes[es..ee]`: input identifier and mapping.
fn parse_event(data: &str, bytes: &[u8], es: usize, ee: usize) -> (r: Option<(u8, Mapping)>)
    requires
        bytes@ == data.spec_bytes(),
        es <= ee <= bytes@.len(),
        cuts_at(bytes@, ee as int),
    ensures
        match spec_event(bytes@.subrange(es as int, ee as int)) {
            None => r is None,
            Some((input, m)) => r matches Some((ri, rm)) && ri == input && rm@ == m,
        },
{
    let ghost e = bytes@.subrange(es as int, ee as int);
    if !can_cut(bytes, es, ee, 2) {
        return None;
    }
    assert(e.take(2) =~= bytes@.subrange(es as int, es + 2));
    let input = match parse_unsigned_range(bytes, es, es + 2, 16, 0xFF) {
        None => {
            return None;
        },
        Some(v) => v,
    };
    if !can_cut(bytes, es, ee, 4) {
        return None;
    }
    assert(e.subrange(2, 4) =~= bytes@.subrange(es + 2, es + 4));
    let out = match parse_unsigned_range(bytes, es + 2, es + 4, 16, 0xFF) {
        None => {
            return None;
        },
        Some(v) => v,
    };
    match parse_tweaks(data, bytes, es, ee) {
        None => None,
        Some((deadzone, scale, unsigned, max, min)) => Some(
            (input as u8, Mapping { out: out as u8, deadzone, scale, unsigned, max, min }),
        ),
    }
}

/// The `;`-separated events of `bytes[from..to]`.
fn parse_events(data: &str, bytes: &[u8], from: usize, to: usize) -> (r: Option<HashMap<u8, Mapping>>)
    requires
        bytes@ == data.spec_bytes(),
        from <= to <= bytes@.len(),
        cuts_at(bytes@, to as int),
    ensures
        match spec_events(Map::empty(), bytes@.subrange(from as int, to as int)) {
            None => r is None,
            Some(m) => r matches Some(rm) && maps_view(rm@) == m,
        },
{
    let ghost target = spec_events(Map::empty(), bytes@.subrange(from as int, to as int));
    let mut maps: HashMap<u8, Mapping> = HashMap::new();
    proof {
        assert(maps_view(maps@) =~= Map::<u8, MappingView>::empty());
    }
    let mut pos = from;
    loop
        invariant
            bytes@ == data.spec_bytes(),
            from <= pos <= to <= bytes@.len(),
            cuts_at(bytes@, to as int),
            spec_events(maps_view(maps@), bytes@.subrange(pos as int, to as int)) == target,
            target == spec_events(Map::empty(), bytes@.subrange(from as int, to as int)),
        decreases to - pos,
    {
        let ghost rest = bytes@.subrange(pos as int, to as int);
        let semi = find_in(bytes, pos, to, 0x3B);
        proof {
            lemma_find_first(rest, is_byte(0x3B));
            assert(rest.take(semi - pos) =~= bytes@.subrange(pos as int, semi as int));
            if semi < to {
                assert(bytes@[semi as int] == rest[semi - pos]);
            }
        }
        match parse_event(data, bytes, pos, semi) {
            None => {
                return None;
            },
            Some((input, m)) => {
                let ghost old_maps = maps@;
                maps.insert(input, m);
                proof {
                    assert(maps_view(maps@) =~= maps_view(old_maps).insert(input, m@));
                }
                if semi < to {
                    proof {
                        assert(rest.skip(semi - pos + 1) =~= bytes@.subrange(semi + 1, to as int));
                    }
                    pos = semi + 1;
                } else {
                    return Some(maps);
                }
            },
        }
    }
}

/// The line `bytes[ls..le]`.
fn parse_line(data: &str, bytes: &[u8], ls: usize, le: usize) -> (r: Option<(u64, Info)>)
    requires
        bytes@ == data.spec_bytes(),
        ls <= le <= bytes@.len(),
        cuts_at(bytes@, le as int),
        spec_line(bytes@.subrange(ls as int, le as int)) is Some,
    ensures
        match spec_line(bytes@.subrange(ls as int, le as int)).unwrap() {
            None => r is None,
            Some((id, info)) => r matches Some((rid, rinfo)) && rid == id && rinfo@ == info,
        },
{
    let ghost line = bytes@.subrange(ls as int, le as int);
    assert(line.take(16) =~= bytes@.subrange(ls as int, ls + 16));
    let id = match parse_unsigned_range(bytes, ls, ls + 16, 16, 0xFFFF_FFFF_FFFF_FFFF) {
        None => {
            return None;
        },
        Some(v) => v,
    };
    let tab = find_in(bytes, ls, le, 0x09);
    proof {
        lemma_find_first(line, is_byte(0x09));
    }
    if tab == le {
        return None;
    }
    proof {
        if tab - ls < 16 {
            assert(line.take(16)[tab - ls] == line[tab - ls]);
            crate::digits::lemma_parsed_bytes(
                line.take(16),
                16,
                0xFFFF_FFFF_FFFF_FFFF,
                tab - ls,
            );
        }
        assert(bytes@[tab as int] == line[tab - ls]);
    }
    if !(le - tab >= 2 && can_cut(bytes, ls, le, tab - ls + 1) && can_cut(bytes, ls, le, tab - ls + 2)) {
        return None;
    }
    proof {
        assert(line.skip(tab - ls + 2) =~= bytes@.subrange(tab + 2, le as int));
    }
    let maps = match parse_events(data, bytes, tab + 2, le) {
        None => {
            return None;
        },
        Some(m) => m,
    };
    proof {
        lemma_lift_cut(bytes@, ls as int, le as int, 16);
        lemma_lift_cut(bytes@, ls as int, le as int, tab - ls);
        assert(line.subrange(16, tab - ls) =~= bytes@.subrange(ls + 16, tab as int));
    }
    let name = substr(data, ls + 16, tab).to_owned();
    let type_ = bytes[tab + 1];
    assert(line[tab - ls + 1] == type_);
    Some((id, Info { name, maps, type_ }))
}

impl Remap {
    /// A remapper that knows no controller model.
    pub fn new() -> (r: Remap)
        ensures
            r@ == Map::<u64, InfoView>::empty(),
    {
        let models: HashMap<u64, Info> = HashMap::new();
        proof {
            assert(remap_view(models@) =~= Map::<u64, InfoView>::empty());
        }
        Remap(models)
    }

    /// Same as [`Remap::new`].
    pub fn default() -> (r: Remap)
        ensures
            r@ == Map::<u64, InfoView>::empty(),
    {
        Remap::new()
    }

    /// Load custom re-mappings from database text (see the module
    /// documentation): each line adds or replaces one model.  `None` if a
    /// line is malformed.
    pub fn load(self, data: &str) -> (r: Option<Remap>)
        requires
            spec_load(self@, data.spec_bytes()) is Some,
        ensures
            match spec_load(self@, data.spec_bytes()).unwrap() {
                None => r is None,
                Some(m) => r matches Some(rr) && rr@ == m,
            },
    {
        match self.try_load(data) {
            Some(r) => r,
            None => None,
        }
    }

    /// [`Remap::load`] for any text: `None` where reading a line would cut
    /// it inside a character (its first 16 bytes do not end one), else what
    /// `load` gives.
    pub fn try_load(self, data: &str) -> (r: Option<Option<Remap>>)
        ensures
            match spec_load(self@, data.spec_bytes()) {
                None => r is None,
                Some(None) => r matches Some(None),
                Some(Some(m)) => r matches Some(Some(rr)) && rr@ == m,
            },
    {
        let bytes = data.as_bytes();
        let ghost all = bytes@;
        let ghost target = spec_load(self@, all);
        let Remap(mut models) = self;
        let mut pos: usize = 0;
        assert(all.subrange(0, all.len() as int) =~= all);
        while pos < bytes.len()
            invariant
                bytes@ == data.spec_bytes(),
                all == bytes@,
                pos <= bytes@.len(),
                target == spec_load(self@, data.spec_bytes()),
                spec_load(remap_view(models@), all.subrange(pos as int, all.len() as int)) == target,
            decreases bytes@.len() - pos,
        {
            let ghost rest = all.subrange(pos as int, all.len() as int);
            let len = bytes.len();
            let nl = find_in(bytes, pos, len, 0x0A);
            proof {
                lemma_find_first(rest, is_byte(0x0A));
                if nl < len {
                    assert(bytes@[nl as int] == rest[nl - pos]);
                }
                if nl > pos {
                    assert(bytes@[nl - 1] == rest[nl - pos - 1]);
                }
            }
            let le = if nl < len && nl > pos && bytes[nl - 1] == 0x0D {
                nl - 1
            } else {
                nl
            };
            proof {
                assert(rest.take(first_line_len(rest)) =~= all.subrange(pos as int, le as int));
                if le < len {
                    assert(bytes@[le as int] == 0x0A || bytes@[le as int] == 0x0D);
                }
            }
            if !can_cut(bytes, pos, le, 16) {
                return None;
            }
            proof {
                lemma_line_some(all.subrange(pos as int, le as int));
            }
            match parse_line(data, bytes, pos, le) {
                None => {
                    return Some(None);
                },
                Some((id, info)) => {
                    let ghost old_models = models@;
                    models.insert(id, info);
                    proof {
                        assert(remap_view(models@) =~= remap_view(old_models).insert(id, info@));
                    }
                },
            }
            if nl < len {
                proof {
                    assert(after_first_line(rest) =~= all.subrange(nl + 1, all.len() as int));
                }
                pos = nl + 1;
            } else {
                proof {
                    assert(after_first_line(rest) =~= all.subrange(len as int, all.len() as int));
                }
                pos = len;
            }
        }
        Some(Some(Remap(models)))
    }

    /// Remapping information of model `id`, if the remapper knows it.
    pub fn info(&self, id: u64) -> (r: Option<&Info>)
        ensures
            match r {
                Some(i) => self@.contains_key(id) && i@ == self@[id],
                None => !self@.contains_key(id),
            },
    {
        self.0.get(&id)
    }
}

/// Loading into models `acc` is loading into no models, laid over `acc`:
/// a model that no line names keeps what it had (and loading no lines
/// changes nothing), a model that a line names gets what the last such line
/// says, and whether the text reads does not depend on `acc`.
pub proof fn lemma_load_overlays(acc: Map<u64, InfoView>, rest: Seq<u8>)
    ensures
        spec_load(acc, rest) == match spec_load(Map::empty(), rest) {
            Some(Some(m)) => Some(Some(acc.union_prefer_right(m))),
            other => other,
        },
    decreases rest.len(),
{
    if rest.len() == 0 {
        assert(acc.union_prefer_right(Map::empty()) =~= acc);
    } else {
        lemma_find_first(rest, is_byte(0x0A));
        match spec_line(rest.take(first_line_len(rest))) {
            None => {},
            Some(None) => {},
            Some(Some((id, info))) => {
                let after = after_first_line(rest);
                assert(after.len() < rest.len());
                lemma_load_overlays(acc.insert(id, info), after);
                lemma_load_overlays(Map::<u64, InfoView>::empty().insert(id, info), after);
                lemma_load_overlays(Map::<u64, InfoView>::empty(), after);
                match spec_load(Map::<u64, InfoView>::empty(), after) {
                    Some(Some(m)) => {
                        assert(acc.insert(id, info).union_prefer_right(m) =~= acc.union_prefer_right(
                            Map::<u64, InfoView>::empty().insert(id, info).union_prefer_right(m),
                        ));
                    },
                    _ => {},
                }
            },
        }
    }
}

/// Two well-formed lines for the same model: the second one wins.
pub proof fn lemma_load_last_line_wins(
    acc: Map<u64, InfoView>,
    first: Seq<u8>,
    second: Seq<u8>,
    id: u64,
    a: InfoView,
    b: InfoView,
)
    requires
        spec_line(first) == Some(Some((id, a))),
        spec_line(second) == Some(Some((id, b))),
        !first.contains(0x0A) && !second.contains(0x0A),
        first.len() == 0 || first.last() != 0x0D,
        second.len() == 0 || second.last() != 0x0D,
    ensures
        spec_load(acc, first + seq![0x0Au8] + second) == Some(Some(acc.insert(id, b))),
{
    let text = first + seq![0x0Au8] + second;
    let n = first.len() as int;
    assert(text[n] == 0x0A);
    assert forall|j: int| 0 <= j < n implies !(is_byte(0x0A))(#[trigger] text[j]) by {
        assert(text[j] == first[j]);
        if first[j] == 0x0A {
            assert(first.contains(0x0A));
        }
    }
    lemma_find_first_is(text, is_byte(0x0A), n);
    if n > 0 {
        assert(text[n - 1] == first.last());
    }
    assert(text.take(first_line_len(text)) =~= first);
    assert(after_first_line(text) =~= second);
    let m = second.len() as int;
    assert forall|j: int| 0 <= j < m implies !(is_byte(0x0A))(#[trigger] second[j]) by {
        if second[j] == 0x0A {
            assert(second.contains(0x0A));
        }
    }
    assert(m >= 16);
    lemma_find_first_is(second, is_byte(0x0A), m);
    assert(second.take(first_line_len(second)) =~= second);
    assert(after_first_line(second) =~= Seq::<u8>::empty());
    assert(spec_load(acc.insert(id, a).insert(id, b), Seq::<u8>::empty()) == Some(
        Some(acc.insert(id, a).insert(id, b)),
    ));
    assert(spec_load(acc.insert(id, a), second) == spec_load(
        acc.insert(id, a).insert(id, b),
        Seq::<u8>::empty(),
    ));
    assert(spec_load(acc, text) == spec_load(acc.insert(id, a), second));
    assert(acc.insert(id, a).insert(id, b) =~= acc.insert(id, b));
}

} // verus!
