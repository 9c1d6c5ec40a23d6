//! Null-terminated UTF-16 path strings, as the Win32 API takes them.
use vstd::prelude::*;

verus! {

/// Length of a Win32 path buffer, in UTF-16 units, terminator included.
pub const MAX_PATH: usize = 260;

/// The UTF-16 code units of one character.
pub open spec fn utf16_units(c: char) -> Seq<u16> {
    let v = c as u32;
    if v < 0x10000 {
        seq![v as u16]
    } else {
        let w = (v - 0x10000) as int;
        seq![(0xD800 + w / 0x400) as u16, (0xDC00 + w % 0x400) as u16]
    }
}

/// The UTF-16 encoding of a string.
pub open spec fn utf16(s: Seq<char>) -> Seq<u16>
    decreases s.len(),
{
    if s.len() == 0 {
        Seq::empty()
    } else {
        utf16(s.drop_last()) + utf16_units(s.last())
    }
}

/// The path buffer for `s`: its UTF-16 units, cut to leave room for the
/// terminating zero, then zeros up to the buffer's end.
pub open spec fn wide_null_buffer(s: Seq<char>) -> Seq<u16> {
    let u = utf16(s);
    let n = if u.len() < MAX_PATH - 1 { u.len() as int } else { MAX_PATH - 1 };
    Seq::new(MAX_PATH as nat, |i: int| if i < n { u[i] } else { 0u16 })
}

fn push_utf16(out: &mut Vec<u16>, c: char)
    ensures
        final(out)@ == old(out)@ + utf16_units(c),
{
    let v: u32 = c as u32;
    if v < 0x10000 {
        out.push(v as u16);
    } else {
        proof {
            assert(v <= 0x10FFFF);
        }
        let w: u32 = v - 0x10000;
        out.push((0xD800 + w / 0x400) as u16);
        out.push((0xDC00 + w % 0x400) as u16);
    }
}

/// Encodes `s` as UTF-16.
pub fn encode_utf16(s: &str) -> (r: Vec<u16>)
    ensures
        r@ == utf16(s@),
{
    let mut out: Vec<u16> = Vec::new();
    let ghost chars = s@;
    proof {
        broadcast use vstd::string::group_string_axioms;
    }
    for c in it: s.chars()
        invariant
            it.seq() == chars,
            chars == s@,
            out@ == utf16(chars.take(it.index())),
    {
        proof {
            assert(chars.take(it.index() + 1).drop_last() == chars.take(it.index()));
        }
        push_utf16(&mut out, c);
    }
    proof {
        assert(chars.take(chars.len() as int) == chars);
    }
    out
}

/// Converts a string into a null-terminated Win32 path buffer; a string too
/// long for the buffer is cut short.
pub fn wide_null(s: &str) -> (r: [u16; 260])
    ensures
        r@ == wide_null_buffer(s@),
        r@[MAX_PATH - 1] == 0,
{
    let units = encode_utf16(s);
    let mut output: [u16; 260] = [0u16; 260];
    let n: usize = if units.len() < MAX_PATH - 1 { units.len() } else { MAX_PATH - 1 };
    let mut i: usize = 0;
    while i < n
        invariant
            n <= units.len(),
            n < MAX_PATH,
            i <= n,
            units@ == utf16(s@),
            output@.len() == MAX_PATH,
            forall|k: int| 0 <= k < i ==> output@[k] == units@[k],
            forall|k: int| i <= k < MAX_PATH ==> output@[k] == 0u16,
        decreases n - i,
    {
        output[i] = units[i];
        i = i + 1;
    }
    assert(output@ =~= wide_null_buffer(s@));
    output
}

} // verus!
