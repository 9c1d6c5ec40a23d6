//! Pad mappings from the SDL game controller database.
//!
//! A mapping of an SDL line pairs an SDL name (`a`, `leftx`, `dpup`, ...)
//! with an input (`b0`, `a1~`, `h0.4`, `+a2`, ...). Each such pair becomes
//! an entry of a pad mapping file: a button, an axis, a trigger or one side
//! of a three-way switch, labelled with the name of a pad event.

use vstd::prelude::*;
use vstd::string::StringSliceAdditionalSpecFns;
use vstd::utf8::{decode_utf8, encode_utf8, pop_first_scalar, valid_first_scalar, valid_utf8};
use crate::digits::{parse_unsigned, parse_unsigned_range};
use crate::sdb::str_eq;
use crate::text::{cuts_at, find_first, find_in, is_byte, lemma_find_first, substr};

verus! {

broadcast use vstd::utf8::encode_utf8_decode_utf8, vstd::utf8::encode_utf8_valid_utf8;

/// Whether an event name starts with `Trigger`.
pub open spec fn starts_with_trigger(e: Seq<char>) -> bool {
    e.len() >= 7 && e.take(7) == "Trigger"@
}

/// The pad event that an SDL name stands for.
pub open spec fn relabel_of(name: Seq<char>) -> Option<Seq<char>> {
    if name == "a"@ {
        Some("ActA"@)
    } else if name == "b"@ {
        Some("ActB"@)
    } else if name == "x"@ {
        Some("ActH"@)
    } else if name == "y"@ {
        Some("ActV"@)
    } else if name == "back"@ {
        Some("Prev"@)
    } else if name == "start"@ {
        Some("Next"@)
    } else if name == "guide"@ {
        Some("Cmd"@)
    } else if name == "leftshoulder"@ {
        Some("ShoulderL"@)
    } else if name == "lefttrigger"@ {
        Some("TriggerL"@)
    } else if name == "leftx"@ {
        Some("StickHor"@)
    } else if name == "lefty"@ {
        Some("StickVer"@)
    } else if name == "rightx"@ {
        Some("CStickHor"@)
    } else if name == "righty"@ {
        Some("CStickVer"@)
    } else if name == "rightshoulder"@ {
        Some("ShoulderR"@)
    } else if name == "righttrigger"@ {
        Some("TriggerR"@)
    } else if name == "leftstick"@ {
        Some("Stick"@)
    } else if name == "rightstick"@ {
        Some("CStick"@)
    } else if name == "dpleft"@ {
        Some("DirLeft"@)
    } else if name == "dpright"@ {
        Some("DirRight"@)
    } else if name == "dpup"@ {
        Some("DirUp"@)
    } else if name == "dpdown"@ {
        Some("DirDown"@)
    } else {
        None
    }
}

/// The pad event that the SDL name `name` stands for, if it has one.
pub fn relabel(name: &str) -> (r: Option<&'static str>)
    ensures
        match relabel_of(name@) {
            Some(e) => r matches Some(t) && t@ == e,
            None => r is None,
        },
{
    if str_eq(name, "a") {
        return Some("ActA");
    }
    if str_eq(name, "b") {
        return Some("ActB");
    }
    if str_eq(name, "x") {
        return Some("ActH");
    }
    if str_eq(name, "y") {
        return Some("ActV");
    }
    if str_eq(name, "back") {
        return Some("Prev");
    }
    if str_eq(name, "start") {
        return Some("Next");
    }
    if str_eq(name, "guide") {
        return Some("Cmd");
    }
    if str_eq(name, "leftshoulder") {
        return Some("ShoulderL");
    }
    if str_eq(name, "lefttrigger") {
        return Some("TriggerL");
    }
    if str_eq(name, "leftx") {
        return Some("StickHor");
    }
    if str_eq(name, "lefty") {
        return Some("StickVer");
    }
    if str_eq(name, "rightx") {
        return Some("CStickHor");
    }
    if str_eq(name, "righty") {
        return Some("CStickVer");
    }
    if str_eq(name, "rightshoulder") {
        return Some("ShoulderR");
    }
    if str_eq(name, "righttrigger") {
        return Some("TriggerR");
    }
    if str_eq(name, "leftstick") {
        return Some("Stick");
    }
    if str_eq(name, "rightstick") {
        return Some("CStick");
    }
    if str_eq(name, "dpleft") {
        return Some("DirLeft");
    }
    if str_eq(name, "dpright") {
        return Some("DirRight");
    }
    if str_eq(name, "dpup") {
        return Some("DirUp");
    }
    if str_eq(name, "dpdown") {
        return Some("DirDown");
    }
    None
}

/// Of the SDL names with an event, exactly `lefttrigger` and `righttrigger`
/// stand for an event whose name starts with `Trigger`.
proof fn lemma_trigger_labels(name: Seq<char>)
    requires
        relabel_of(name) is Some,
    ensures
        starts_with_trigger(relabel_of(name).unwrap()) <==> (name == "lefttrigger"@ || name
            == "righttrigger"@),
{
    reveal_strlit("Trigger");
    reveal_strlit("a");
    reveal_strlit("ActA");
    reveal_strlit("b");
    reveal_strlit("ActB");
    reveal_strlit("x");
    reveal_strlit("ActH");
    reveal_strlit("y");
    reveal_strlit("ActV");
    reveal_strlit("back");
    reveal_strlit("Prev");
    reveal_strlit("start");
    reveal_strlit("Next");
    reveal_strlit("guide");
    reveal_strlit("Cmd");
    reveal_strlit("leftshoulder");
    reveal_strlit("ShoulderL");
    reveal_strlit("lefttrigger");
    reveal_strlit("TriggerL");
    reveal_strlit("leftx");
    reveal_strlit("StickHor");
    reveal_strlit("lefty");
    reveal_strlit("StickVer");
    reveal_strlit("rightx");
    reveal_strlit("CStickHor");
    reveal_strlit("righty");
    reveal_strlit("CStickVer");
    reveal_strlit("rightshoulder");
    reveal_strlit("ShoulderR");
    reveal_strlit("righttrigger");
    reveal_strlit("TriggerR");
    reveal_strlit("leftstick");
    reveal_strlit("Stick");
    reveal_strlit("rightstick");
    reveal_strlit("CStick");
    reveal_strlit("dpleft");
    reveal_strlit("DirLeft");
    reveal_strlit("dpright");
    reveal_strlit("DirRight");
    reveal_strlit("dpup");
    reveal_strlit("DirUp");
    reveal_strlit("dpdown");
    reveal_strlit("DirDown");
    assert("ActA"@.len() < 7);
    assert("ActB"@.len() < 7);
    assert("ActH"@.len() < 7);
    assert("ActV"@.len() < 7);
    assert("Prev"@.len() < 7);
    assert("Next"@.len() < 7);
    assert("Cmd"@.len() < 7);
    assert("ShoulderL"@.take(7)[0] == "ShoulderL"@[0] && "ShoulderL"@[0] != "Trigger"@[0]);
    assert("TriggerL"@.take(7) =~= "Trigger"@);
    assert("StickHor"@.take(7)[0] == "StickHor"@[0] && "StickHor"@[0] != "Trigger"@[0]);
    assert("StickVer"@.take(7)[0] == "StickVer"@[0] && "StickVer"@[0] != "Trigger"@[0]);
    assert("CStickHor"@.take(7)[0] == "CStickHor"@[0] && "CStickHor"@[0] != "Trigger"@[0]);
    assert("CStickVer"@.take(7)[0] == "CStickVer"@[0] && "CStickVer"@[0] != "Trigger"@[0]);
    assert("ShoulderR"@.take(7)[0] == "ShoulderR"@[0] && "ShoulderR"@[0] != "Trigger"@[0]);
    assert("TriggerR"@.take(7) =~= "Trigger"@);
    assert("Stick"@.len() < 7);
    assert("CStick"@.len() < 7);
    assert("DirLeft"@.take(7)[0] == "DirLeft"@[0] && "DirLeft"@[0] != "Trigger"@[0]);
    assert("DirRight"@.take(7)[0] == "DirRight"@[0] && "DirRight"@[0] != "Trigger"@[0]);
    assert("DirUp"@.len() < 7);
    assert("DirDown"@.take(7)[0] == "DirDown"@[0] && "DirDown"@[0] != "Trigger"@[0]);
    assert("a"@.len() != "lefttrigger"@.len());
    assert("b"@.len() != "lefttrigger"@.len());
    assert("x"@.len() != "lefttrigger"@.len());
    assert("y"@.len() != "lefttrigger"@.len());
    assert("back"@.len() != "lefttrigger"@.len());
    assert("start"@.len() != "lefttrigger"@.len());
    assert("guide"@.len() != "lefttrigger"@.len());
    assert("leftshoulder"@.len() != "lefttrigger"@.len());
    assert("leftx"@.len() != "lefttrigger"@.len());
    assert("lefty"@.len() != "lefttrigger"@.len());
    assert("rightx"@.len() != "lefttrigger"@.len());
    assert("righty"@.len() != "lefttrigger"@.len());
    assert("rightshoulder"@.len() != "lefttrigger"@.len());
    assert("righttrigger"@.len() != "lefttrigger"@.len());
    assert("leftstick"@.len() != "lefttrigger"@.len());
    assert("rightstick"@.len() != "lefttrigger"@.len());
    assert("dpleft"@.len() != "lefttrigger"@.len());
    assert("dpright"@.len() != "lefttrigger"@.len());
    assert("dpup"@.len() != "lefttrigger"@.len());
    assert("dpdown"@.len() != "lefttrigger"@.len());
    assert("a"@.len() != "righttrigger"@.len());
    assert("b"@.len() != "righttrigger"@.len());
    assert("x"@.len() != "righttrigger"@.len());
    assert("y"@.len() != "righttrigger"@.len());
    assert("back"@.len() != "righttrigger"@.len());
    assert("start"@.len() != "righttrigger"@.len());
    assert("guide"@.len() != "righttrigger"@.len());
    assert("leftshoulder"@[0] != "righttrigger"@[0]);
    assert("lefttrigger"@.len() != "righttrigger"@.len());
    assert("leftx"@.len() != "righttrigger"@.len());
    assert("lefty"@.len() != "righttrigger"@.len());
    assert("rightx"@.len() != "righttrigger"@.len());
    assert("righty"@.len() != "righttrigger"@.len());
    assert("rightshoulder"@.len() != "righttrigger"@.len());
    assert("leftstick"@.len() != "righttrigger"@.len());
    assert("rightstick"@.len() != "righttrigger"@.len());
    assert("dpleft"@.len() != "righttrigger"@.len());
    assert("dpright"@.len() != "righttrigger"@.len());
    assert("dpup"@.len() != "righttrigger"@.len());
    assert("dpdown"@.len() != "righttrigger"@.len());
}

/// An entry of a pad mapping file made from one SDL mapping.
#[derive(Clone, Copy, Debug)]
pub enum PadEntry {
    Button { code: u8, event: &'static str },
    Axis { code: u8, event: &'static str },
    Trigger { code: u8, event: &'static str },
    ThreeWay { code: u8, neg: &'static str, pos: &'static str },
}

/// A [`PadEntry`] with its event names as characters.
pub enum EntryView {
    Button(u8, Seq<char>),
    Axis(u8, Seq<char>),
    Trigger(u8, Seq<char>),
    ThreeWay(u8, Seq<char>, Seq<char>),
}

impl View for PadEntry {
    type V = EntryView;

    open spec fn view(&self) -> EntryView {
        match *self {
            PadEntry::Button { code, event } => EntryView::Button(code, event@),
            PadEntry::Axis { code, event } => EntryView::Axis(code, event@),
            PadEntry::Trigger { code, event } => EntryView::Trigger(code, event@),
            PadEntry::ThreeWay { code, neg, pos } => EntryView::ThreeWay(code, neg@, pos@),
        }
    }
}

/// The code written in decimal in `k` from byte `from` on.
pub open spec fn code_from(k: Seq<u8>, from: int) -> Option<u8> {
    match parse_unsigned(k.skip(from), 10, 255) {
        Some(v) => Some(v as u8),
        None => None,
    }
}

/// The hat directions `1`, `2`, `4` and `8` (up, right, down, left): the code
/// of the hat's axis and whether the direction is its negative side.
pub open spec fn hat_direction(d: Seq<u8>) -> Option<(u8, bool)> {
    if d.len() != 1 {
        None
    } else if d[0] == 0x31 {
        Some((0x11u8, true))
    } else if d[0] == 0x32 {
        Some((0x10u8, false))
    } else if d[0] == 0x34 {
        Some((0x11u8, false))
    } else if d[0] == 0x38 {
        Some((0x10u8, true))
    } else {
        None
    }
}

/// An axis input without what follows its first `~`.
pub open spec fn axis_key(k: Seq<u8>) -> Seq<u8> {
    k.take(find_first(k, is_byte(0x7E)))
}

/// Whether `k` begins with the bytes of `p`.
pub open spec fn begins(k: Seq<u8>, p: Seq<u8>) -> bool {
    k.len() >= p.len() && k.take(p.len() as int) == p
}

/// The entry for the input `k` mapped to the SDL name `v` (both as bytes):
/// `b<n>` is a button, `a<n>` an axis (a trigger when its event starts with
/// `Trigger`), `h0.<d>` a hat direction (an axis side when the name carries
/// a sign), `+a<n>` and `-a<n>` the two sides of a three-way switch; `None`
/// for any other input, a code that is not a `u8` in decimal, an unknown
/// direction or a name without an event.
pub open spec fn pad_entry_of(k: Seq<u8>, v: Seq<u8>) -> Option<EntryView> {
    let name = decode_utf8(v);
    if begins(k, seq![0x62u8]) {
        match (code_from(k, 1), relabel_of(name)) {
            (Some(c), Some(e)) => Some(EntryView::Button(c, e)),
            _ => None,
        }
    } else if begins(k, seq![0x61u8]) {
        match (code_from(axis_key(k), 1), relabel_of(name)) {
            (Some(c), Some(e)) => if starts_with_trigger(e) {
                Some(EntryView::Trigger(c, e))
            } else {
                Some(EntryView::Axis(c, e))
            },
            _ => None,
        }
    } else if begins(k, seq![0x68u8, 0x30u8, 0x2Eu8]) {
        match hat_direction(k.skip(3)) {
            None => None,
            Some((c, neg)) => if begins(v, seq![0x2Bu8]) || begins(v, seq![0x2Du8]) {
                match relabel_of(decode_utf8(v.skip(1))) {
                    Some(e) => Some(EntryView::Axis(c, e)),
                    None => None,
                }
            } else {
                match relabel_of(name) {
                    Some(e) => if neg {
                        Some(EntryView::ThreeWay(c, e, Seq::empty()))
                    } else {
                        Some(EntryView::ThreeWay(c, Seq::empty(), e))
                    },
                    None => None,
                }
            },
        }
    } else if begins(k, seq![0x2Bu8, 0x61u8]) {
        match (code_from(k, 2), relabel_of(name)) {
            (Some(c), Some(e)) => Some(EntryView::ThreeWay(c, Seq::empty(), e)),
            _ => None,
        }
    } else if begins(k, seq![0x2Du8, 0x61u8]) {
        match (code_from(k, 2), relabel_of(name)) {
            (Some(c), Some(e)) => Some(EntryView::ThreeWay(c, e, Seq::empty())),
            _ => None,
        }
    } else {
        None
    }
}

/// A valid UTF-8 text that begins with an ASCII byte can be cut after it.
proof fn lemma_cut_after_ascii(s: Seq<u8>)
    requires
        valid_utf8(s),
        s.len() > 0,
        s[0] < 0x80,
    ensures
        cuts_at(s, 1),
{
    if s.len() > 1 {
        let rest = pop_first_scalar(s);
        assert(rest =~= s.subrange(1, s.len() as int));
        assert(valid_utf8(rest));
        assert(rest[0] == s[1]);
        assert(valid_first_scalar(rest));
    }
}

fn code_in(k: &[u8], from: usize, to: usize) -> (r: Option<u8>)
    requires
        from <= to <= k@.len(),
    ensures
        r == code_from(k@.take(to as int), from as int),
{
    assert(k@.subrange(from as int, to as int) == k@.take(to as int).skip(from as int));
    match parse_unsigned_range(k, from, to, 10, 255) {
        Some(v) => Some(v as u8),
        None => None,
    }
}

fn is_trigger_event(name: &str) -> (r: bool)
    requires
        relabel_of(name@) is Some,
    ensures
        r == starts_with_trigger(relabel_of(name@).unwrap()),
{
    proof {
        lemma_trigger_labels(name@);
    }
    str_eq(name, "lefttrigger") || str_eq(name, "righttrigger")
}

/// The entry for the input `key` mapped to the SDL name `value`; `None`
/// where the mapping cannot be converted.
pub fn pad_entry(key: &str, value: &str) -> (r: Option<PadEntry>)
    ensures
        match pad_entry_of(key.spec_bytes(), value.spec_bytes()) {
            Some(e) => r matches Some(x) && x@ == e,
            None => r is None,
        },
{
    let k = key.as_bytes();
    let v = value.as_bytes();
    let kn = k.len();
    let vn = v.len();
    let ghost ks = k@;
    let ghost vs = v@;
    proof {
        reveal_strlit("");
        assert(""@ =~= Seq::<char>::empty());
        assert(ks.take(kn as int) == ks);
        assert(vs == encode_utf8(value@));
        assert(decode_utf8(encode_utf8(value@)) == value@);
    }
    if kn >= 1 && k[0] == 0x62 {
        proof {
            assert(ks.take(1) =~= seq![0x62u8]);
        }
        let code = code_in(k, 1, kn);
        match (code, relabel(value)) {
            (Some(c), Some(e)) => Some(PadEntry::Button { code: c, event: e }),
            _ => None,
        }
    } else if kn >= 1 && k[0] == 0x61 {
        proof {
            assert(ks.take(1) =~= seq![0x61u8]);
            assert(ks.take(1)[0] == ks[0]);
            lemma_find_first(ks, is_byte(0x7E));
        }
        let tilde = find_in(k, 0, kn, 0x7E);
        proof {
            assert(ks.subrange(0, kn as int) == ks);
            assert(axis_key(ks) == ks.take(tilde as int));
        }
        if tilde < 1 {
            proof {
                assert(ks[0] != 0x7Eu8);
            }
            return None;
        }
        let code = code_in(k, 1, tilde);
        match (code, relabel(value)) {
            (Some(c), Some(e)) => {
                if is_trigger_event(value) {
                    Some(PadEntry::Trigger { code: c, event: e })
                } else {
                    Some(PadEntry::Axis { code: c, event: e })
                }
            },
            _ => None,
        }
    } else if kn >= 3 && k[0] == 0x68 && k[1] == 0x30 && k[2] == 0x2E {
        proof {
            assert(ks.take(3) =~= seq![0x68u8, 0x30u8, 0x2Eu8]);
            assert(ks.take(1)[0] == ks[0]);
        }
        let dir: Option<(u8, bool)> = if kn == 4 && k[3] == 0x31 {
            Some((0x11, true))
        } else if kn == 4 && k[3] == 0x32 {
            Some((0x10, false))
        } else if kn == 4 && k[3] == 0x34 {
            Some((0x11, false))
        } else if kn == 4 && k[3] == 0x38 {
            Some((0x10, true))
        } else {
            None
        };
        proof {
            let d = ks.skip(3);
            if kn == 4 {
                assert(d[0] == ks[3]);
            }
            assert(dir == hat_direction(d));
        }
        match dir {
            None => None,
            Some((c, neg)) => {
                if vn >= 1 && (v[0] == 0x2B || v[0] == 0x2D) {
                    proof {
                        assert(vs.take(1) =~= seq![vs[0]]);
                        lemma_cut_after_ascii(vs);
                        assert(cuts_at(vs, vn as int));
                        assert(vs.subrange(1, vn as int) == vs.skip(1));
                    }
                    let rest = substr(value, 1, vn);
                    match relabel(rest) {
                        Some(e) => Some(PadEntry::Axis { code: c, event: e }),
                        None => None,
                    }
                } else {
                    proof {
                        if vn >= 1 {
                            assert(vs.take(1)[0] == vs[0]);
                        }
                    }
                    match relabel(value) {
                        Some(e) => if neg {
                            Some(PadEntry::ThreeWay { code: c, neg: e, pos: "" })
                        } else {
                            Some(PadEntry::ThreeWay { code: c, neg: "", pos: e })
                        },
                        None => None,
                    }
                }
            },
        }
    } else if kn >= 2 && k[0] == 0x2B && k[1] == 0x61 {
        proof {
            assert(ks.take(2) =~= seq![0x2Bu8, 0x61u8]);
            assert(ks.take(1)[0] == ks[0]);
            assert(kn >= 3 ==> ks.take(3)[0] == ks[0]);
        }
        let code = code_in(k, 2, kn);
        match (code, relabel(value)) {
            (Some(c), Some(e)) => Some(PadEntry::ThreeWay { code: c, neg: "", pos: e }),
            _ => None,
        }
    } else if kn >= 2 && k[0] == 0x2D && k[1] == 0x61 {
        proof {
            assert(ks.take(2) =~= seq![0x2Du8, 0x61u8]);
            assert(ks.take(1)[0] == ks[0]);
            assert(ks.take(2)[0] == ks[0]);
            assert(kn >= 3 ==> ks.take(3)[0] == ks[0]);
        }
        let code = code_in(k, 2, kn);
        match (code, relabel(value)) {
            (Some(c), Some(e)) => Some(PadEntry::ThreeWay { code: c, neg: e, pos: "" }),
            _ => None,
        }
    } else {
        proof {
            if kn >= 1 {
                assert(ks.take(1)[0] == ks[0]);
            }
            if kn >= 2 {
                assert(ks.take(2)[0] == ks[0] && ks.take(2)[1] == ks[1]);
            }
            if kn >= 3 {
                assert(ks.take(3)[0] == ks[0] && ks.take(3)[1] == ks[1] && ks.take(3)[2] == ks[2]);
            }
            if begins(ks, seq![0x62u8]) {
                assert(ks[0] == 0x62u8);
            }
            if begins(ks, seq![0x61u8]) {
                assert(ks[0] == 0x61u8);
            }
            if begins(ks, seq![0x68u8, 0x30u8, 0x2Eu8]) {
                assert(ks[0] == 0x68u8 && ks[1] == 0x30u8 && ks[2] == 0x2Eu8);
            }
            if begins(ks, seq![0x2Bu8, 0x61u8]) {
                assert(ks[0] == 0x2Bu8 && ks[1] == 0x61u8);
            }
            if begins(ks, seq![0x2Du8, 0x61u8]) {
                assert(ks[0] == 0x2Du8 && ks[1] == 0x61u8);
            }
        }
        None
    }
}

} // verus!
