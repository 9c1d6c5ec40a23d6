//! Unsigned integers written in decimal or hexadecimal text.
//!
//! The remapping database writes identifiers in hexadecimal and some tweak
//! values in decimal.  The rule is that of `from_str_radix` for unsigned
//! integers: an optional `+`, then at least one digit of the radix (letters in
//! either case), and a value that fits the target type.

use vstd::prelude::*;

verus! {

/// The value of one digit byte in the given radix, if it is a digit of it.
pub open spec fn digit_value(b: u8, radix: nat) -> Option<nat> {
    let v: nat = if 0x30 <= b <= 0x39 {
        (b - 0x30) as nat
    } else if 0x61 <= b <= 0x7A {
        (b - 0x61 + 10) as nat
    } else if 0x41 <= b <= 0x5A {
        (b - 0x41 + 10) as nat
    } else {
        36
    };
    if v < radix {
        Some(v)
    } else {
        None
    }
}

/// The value of a sequence of digits, most significant first (`Some(0)` for
/// no digits); `None` if a byte is not a digit.
pub open spec fn digits_value(s: Seq<u8>, radix: nat) -> Option<nat>
    decreases s.len(),
{
    if s.len() == 0 {
        Some(0)
    } else {
        match (digits_value(s.drop_last(), radix), digit_value(s.last(), radix)) {
            (Some(h), Some(d)) => Some(h * radix + d),
            _ => None,
        }
    }
}

/// The digits of `s` once an optional leading `+` is dropped.
pub open spec fn unsigned_digits(s: Seq<u8>) -> Seq<u8> {
    if s.len() > 0 && s[0] == 0x2B {
        s.skip(1)
    } else {
        s
    }
}

/// The unsigned integer that `s` spells in `radix`, if it spells one that is
/// at most `max`.
pub open spec fn parse_unsigned(s: Seq<u8>, radix: nat, max: nat) -> Option<nat> {
    let d = unsigned_digits(s);
    if d.len() == 0 {
        None
    } else {
        match digits_value(d, radix) {
            Some(v) => if v <= max {
                Some(v)
            } else {
                None
            },
            None => None,
        }
    }
}

/// A prefix of a digit sequence is a digit sequence of no greater value.
proof fn lemma_prefix_value(s: Seq<u8>, radix: nat, i: int)
    requires
        radix >= 1,
        digits_value(s, radix) is Some,
        0 <= i <= s.len(),
    ensures
        digits_value(s.take(i), radix) is Some,
        digits_value(s.take(i), radix).unwrap() <= digits_value(s, radix).unwrap(),
    decreases s.len(),
{
    if i == s.len() {
        assert(s.take(i) =~= s);
    } else {
        let t = s.drop_last();
        lemma_prefix_value(t, radix, i);
        assert(t.take(i) =~= s.take(i));
        let h = digits_value(t, radix).unwrap();
        let d = digit_value(s.last(), radix).unwrap();
        assert(h <= h * radix + d) by (nonlinear_arith)
            requires
                radix >= 1,
        ;
    }
}

/// Every byte of a digit sequence with a value is a digit.
proof fn lemma_digits_are_digits(s: Seq<u8>, radix: nat)
    requires
        digits_value(s, radix) is Some,
    ensures
        forall|i: int| 0 <= i < s.len() ==> (#[trigger] digit_value(s[i], radix)) is Some,
    decreases s.len(),
{
    if s.len() > 0 {
        lemma_digits_are_digits(s.drop_last(), radix);
        assert forall|i: int| 0 <= i < s.len() implies (#[trigger] digit_value(s[i], radix)) is Some by {
            if i < s.len() - 1 {
                assert(s[i] == s.drop_last()[i]);
            }
        }
    }
}

/// Every byte of a text that spells an unsigned integer is a digit or the
/// leading `+`.
pub proof fn lemma_parsed_bytes(s: Seq<u8>, radix: nat, max: nat, i: int)
    requires
        parse_unsigned(s, radix, max) is Some,
        0 <= i < s.len(),
    ensures
        s[i] == 0x2B || digit_value(s[i], radix) is Some,
{
    let d = unsigned_digits(s);
    lemma_digits_are_digits(d, radix);
    if s.len() > 0 && s[0] == 0x2B {
        if i > 0 {
            assert(s[i] == d[i - 1]);
        }
    } else {
        assert(s[i] == d[i]);
    }
}

/// Extending a digit sequence by one digit.
proof fn lemma_push_digit(s: Seq<u8>, radix: nat, i: int)
    requires
        0 <= i < s.len(),
    ensures
        digits_value(s.take(i + 1), radix) == match (
            digits_value(s.take(i), radix),
            digit_value(s[i], radix),
        ) {
            (Some(h), Some(d)) => Some(h * radix + d),
            _ => None::<nat>,
        },
{
    assert(s.take(i + 1).drop_last() =~= s.take(i));
}

/// The digit value of one byte.
fn digit_of(b: u8, radix: u64) -> (r: Option<u64>)
    requires
        radix <= 36,
    ensures
        match digit_value(b, radix as nat) {
            Some(v) => r == Some(v as u64),
            None => r is None,
        },
{
    let v: u64 = if 0x30 <= b && b <= 0x39 {
        (b - 0x30) as u64
    } else if 0x61 <= b && b <= 0x7A {
        (b - 0x61 + 10) as u64
    } else if 0x41 <= b && b <= 0x5A {
        (b - 0x41 + 10) as u64
    } else {
        36
    };
    if v < radix {
        Some(v)
    } else {
        None
    }
}

/// Parse `bytes[start..end]` as an unsigned integer in `radix` that is at
/// most `max`.
pub fn parse_unsigned_range(bytes: &[u8], start: usize, end: usize, radix: u64, max: u64) -> (r:
    Option<u64>)
    requires
        start <= end <= bytes@.len(),
        2 <= radix <= 36,
    ensures
        match parse_unsigned(bytes@.subrange(start as int, end as int), radix as nat, max as nat) {
            Some(v) => r == Some(v as u64),
            None => r is None,
        },
{
    let ghost s = bytes@.subrange(start as int, end as int);
    let mut first = start;
    if start < end && bytes[start] == 0x2B {
        first = start + 1;
    }
    let ghost d = unsigned_digits(s);
    assert(d =~= bytes@.subrange(first as int, end as int));
    if first == end {
        return None;
    }
    let mut acc: u64 = 0;
    let mut i = first;
    while i < end
        invariant
            start <= first <= i <= end <= bytes@.len(),
            d =~= bytes@.subrange(first as int, end as int),
            s == bytes@.subrange(start as int, end as int),
            d == unsigned_digits(s),
            first < end,
            2 <= radix <= 36,
            digits_value(d.take(i - first), radix as nat) == Some(acc as nat),
            acc <= max,
        decreases end - i,
    {
        proof {
            lemma_push_digit(d, radix as nat, i - first);
            assert(d[i - first] == bytes@[i as int]);
        }
        let dig = digit_of(bytes[i], radix);
        match dig {
            None => {
                proof {
                    assert(digits_value(d.take(i - first + 1), radix as nat) is None);
                    if digits_value(d, radix as nat) is Some {
                        lemma_prefix_value(d, radix as nat, i - first + 1);
                    }
                    assert(digits_value(d, radix as nat) is None);
                }
                return None;
            },
            Some(dv) => {
                if dv > max {
                    proof {
                        assert(acc * radix + dv > max) by (nonlinear_arith)
                            requires
                                dv > max,
                                radix >= 2,
                        ;
                        if digits_value(d, radix as nat) is Some {
                            lemma_prefix_value(d, radix as nat, i - first + 1);
                        }
                    }
                    return None;
                }
                let room: u64 = max - dv;
                let q: u64 = room / radix;
                if acc > q {
                    proof {
                        assert(acc * radix + dv > max) by (nonlinear_arith)
                            requires
                                acc > q,
                                q == room / radix,
                                room == max - dv,
                                radix >= 2,
                        ;
                        if digits_value(d, radix as nat) is Some {
                            lemma_prefix_value(d, radix as nat, i - first + 1);
                        }
                    }
                    return None;
                }
                proof {
                    assert(acc * radix + dv <= max) by (nonlinear_arith)
                        requires
                            acc <= q,
                            q == room / radix,
                            room == max - dv,
                            radix >= 2,
                    ;
                }
                acc = acc * radix + dv;
                i = i + 1;
            },
        }
    }
    assert(d.take(i - first) =~= d);
    Some(acc)
}

/// The `i64` that `s` spells in decimal, as `i64::from_str` reads it: an
/// optional `+` or `-`, then at least one decimal digit, and a value in the
/// range of `i64`.
pub open spec fn parse_i64(s: Seq<u8>) -> Option<i64> {
    if s.len() > 0 && s[0] == 0x2D {
        let d = s.skip(1);
        if d.len() == 0 {
            None
        } else {
            match digits_value(d, 10) {
                Some(v) => if v <= 0x8000_0000_0000_0000 {
                    Some((-v) as i64)
                } else {
                    None
                },
                None => None,
            }
        }
    } else {
        match parse_unsigned(s, 10, 0x7FFF_FFFF_FFFF_FFFF) {
            Some(v) => Some(v as i64),
            None => None,
        }
    }
}

/// Parse `bytes[start..end]` as a decimal `i64` (see [`parse_i64`]).
pub fn parse_i64_range(bytes: &[u8], start: usize, end: usize) -> (r: Option<i64>)
    requires
        start <= end <= bytes@.len(),
    ensures
        r == parse_i64(bytes@.subrange(start as int, end as int)),
{
    let ghost s = bytes@.subrange(start as int, end as int);
    if start < end && bytes[start] == 0x2D {
        let ghost d = s.skip(1);
        assert(d =~= bytes@.subrange(start + 1, end as int));
        if start + 1 < end && bytes[start + 1] == 0x2B {
            proof {
                assert(d[0] == 0x2B);
                assert(digit_value(d[0], 10) is None);
                lemma_digits_first(d, 10nat);
            }
            return None;
        }
        if start + 1 < end {
            assert(unsigned_digits(d) == d);
        }
        match parse_unsigned_range(bytes, start + 1, end, 10, 0x8000_0000_0000_0000) {
            None => None,
            Some(v) => {
                if v == 0x8000_0000_0000_0000 {
                    Some(i64::MIN)
                } else {
                    Some(0i64 - (v as i64))
                }
            },
        }
    } else {
        match parse_unsigned_range(bytes, start, end, 10, 0x7FFF_FFFF_FFFF_FFFF) {
            None => None,
            Some(v) => Some(v as i64),
        }
    }
}

/// A digit sequence whose first byte is not a digit has no value.
proof fn lemma_digits_first(d: Seq<u8>, radix: nat)
    requires
        d.len() > 0,
        radix >= 1,
        digit_value(d[0], radix) is None,
    ensures
        digits_value(d, radix) is None,
{
    if digits_value(d, radix) is Some {
        lemma_prefix_value(d, radix, 1);
        assert(d.take(1).drop_last() =~= Seq::<u8>::empty());
        assert(d.take(1).last() == d[0]);
    }
}

} // verus!
