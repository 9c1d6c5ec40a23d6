//! Mapping files of the pad database, and putting their entries in order.
//!
//! A mapping file lists a controller's buttons, axes, triggers, three-way
//! switches, wheels and throttles, each entry with the code the hardware
//! reports. Formatting a file sorts each list by that code, keeping entries
//! with equal codes in the order they had.
use vstd::prelude::*;

verus! {

/// An entry that carries a hardware code.
pub trait Coded {
    /// The entry's code.
    spec fn code_of(&self) -> int;

    fn code(&self) -> (c: i32)
        ensures
            c == self.code_of(),
    ;
}

/// A button entry.
pub struct ButtonEntry {
    pub code: i16,
    pub event: String,
}

/// An axis entry; `max` holds the bits of a 64-bit float.
pub struct AxisEntry {
    pub code: u8,
    pub event: String,
    pub max: Option<u64>,
}

/// A trigger entry; `max` and `deadzone` hold the bits of 64-bit floats.
pub struct TriggerEntry {
    pub code: u8,
    pub event: String,
    pub max: Option<u64>,
    pub deadzone: Option<u64>,
    pub invert: Option<bool>,
}

/// A three-way switch entry, with the events of its two directions.
pub struct ThreeWayEntry {
    pub code: i16,
    pub neg: String,
    pub pos: String,
}

/// A wheel entry.
pub struct WheelEntry {
    pub code: u8,
    pub event: String,
}

/// A throttle entry.
pub struct ThrottleEntry {
    pub code: i16,
    pub event: String,
}

impl Coded for ButtonEntry {
    open spec fn code_of(&self) -> int {
        self.code as int
    }

    fn code(&self) -> (c: i32) {
        self.code as i32
    }
}

impl Coded for AxisEntry {
    open spec fn code_of(&self) -> int {
        self.code as int
    }

    fn code(&self) -> (c: i32) {
        self.code as i32
    }
}

impl Coded for TriggerEntry {
    open spec fn code_of(&self) -> int {
        self.code as int
    }

    fn code(&self) -> (c: i32) {
        self.code as i32
    }
}

impl Coded for ThreeWayEntry {
    open spec fn code_of(&self) -> int {
        self.code as int
    }

    fn code(&self) -> (c: i32) {
        self.code as i32
    }
}

impl Coded for WheelEntry {
    open spec fn code_of(&self) -> int {
        self.code as int
    }

    fn code(&self) -> (c: i32) {
        self.code as i32
    }
}

impl Coded for ThrottleEntry {
    open spec fn code_of(&self) -> int {
        self.code as int
    }

    fn code(&self) -> (c: i32) {
        self.code as i32
    }
}

/// `x` placed into `s` after the last entry whose code is at most its own.
pub open spec fn insert_by_code<T: Coded>(s: Seq<T>, x: T) -> Seq<T>
    decreases s.len(),
{
    if s.len() == 0 {
        seq![x]
    } else if s.last().code_of() <= x.code_of() {
        s.push(x)
    } else {
        insert_by_code(s.drop_last(), x).push(s.last())
    }
}

/// The stable sort of `s` by code.
pub open spec fn sorted_by_code<T: Coded>(s: Seq<T>) -> Seq<T>
    decreases s.len(),
{
    if s.len() == 0 {
        Seq::empty()
    } else {
        insert_by_code(sorted_by_code(s.drop_last()), s.last())
    }
}

/// Codes never decrease along `s`.
pub open spec fn codes_ascending<T: Coded>(s: Seq<T>) -> bool {
    forall|i: int, j: int| 0 <= i <= j < s.len() ==> s[i].code_of() <= s[j].code_of()
}

proof fn lemma_insert_split<T: Coded>(s: Seq<T>, x: T, j: int)
    requires
        0 < j <= s.len(),
        s[j - 1].code_of() > x.code_of(),
    ensures
        insert_by_code(s.take(j), x) + s.skip(j) == insert_by_code(s.take(j - 1), x) + s.skip(
            j - 1,
        ),
{
    let t = s.take(j);
    assert(t.drop_last() == s.take(j - 1));
    assert(t.last() == s[j - 1]);
    assert(insert_by_code(t, x) == insert_by_code(s.take(j - 1), x).push(s[j - 1]));
    assert(s.skip(j - 1) == seq![s[j - 1]] + s.skip(j));
    assert(insert_by_code(s.take(j - 1), x).push(s[j - 1]) + s.skip(j) == insert_by_code(
        s.take(j - 1),
        x,
    ) + (seq![s[j - 1]] + s.skip(j)));
}

fn insert_coded<T: Coded>(out: &mut Vec<T>, x: T)
    ensures
        final(out)@ == insert_by_code(old(out)@, x),
{
    let ghost s = out@;
    let xc = x.code();
    let mut j: usize = out.len();
    assert(s.take(j as int) == s);
    assert(s.skip(j as int) == Seq::<T>::empty());
    loop
        invariant
            out@ == s,
            j <= s.len(),
            xc == x.code_of(),
            insert_by_code(s, x) == insert_by_code(s.take(j as int), x) + s.skip(j as int),
        ensures
            out@ == s,
            j <= s.len(),
            insert_by_code(s, x) == insert_by_code(s.take(j as int), x) + s.skip(j as int),
            j == 0 || s[j - 1].code_of() <= x.code_of(),
        decreases j,
    {
        if j == 0 {
            break;
        }
        let c = out[j - 1].code();
        if c <= xc {
            break;
        }
        proof {
            lemma_insert_split(s, x, j as int);
        }
        j = j - 1;
    }
    proof {
        let t = s.take(j as int);
        if j == 0 {
            assert(t == Seq::<T>::empty());
        } else {
            assert(t.last() == s[j - 1]);
        }
        assert(insert_by_code(t, x) == t.push(x));
        assert(s.insert(j as int, x) == t.push(x) + s.skip(j as int));
    }
    out.insert(j, x);
}

/// Sorts `v` by code, keeping entries with equal codes in their order.
pub fn sort_by_code<T: Coded>(v: &mut Vec<T>)
    ensures
        final(v)@ == sorted_by_code(old(v)@),
{
    let ghost orig = v@;
    let mut out: Vec<T> = Vec::new();
    let ghost mut k: int = 0;
    assert(orig.skip(0) == orig);
    assert(orig.take(0) == Seq::<T>::empty());
    while v.len() > 0
        invariant
            0 <= k <= orig.len(),
            v@ == orig.skip(k),
            out@ == sorted_by_code(orig.take(k)),
        decreases v@.len(),
    {
        let x = v.remove(0);
        proof {
            assert(orig.take(k + 1).drop_last() == orig.take(k));
            assert(orig.take(k + 1).last() == x);
            assert(orig.skip(k).remove(0) == orig.skip(k + 1));
        }
        insert_coded(&mut out, x);
        proof {
            k = k + 1;
        }
    }
    proof {
        assert(orig.take(k) == orig);
    }
    *v = out;
}

proof fn lemma_insert_ascending<T: Coded>(s: Seq<T>, x: T)
    requires
        codes_ascending(s),
    ensures
        codes_ascending(insert_by_code(s, x)),
        insert_by_code(s, x).to_multiset() == s.to_multiset().insert(x),
        insert_by_code(s, x).len() == s.len() + 1,
    decreases s.len(),
{
    if s.len() == 0 {
        assert(seq![x] == Seq::<T>::empty().push(x));
        broadcast use vstd::seq_lib::group_seq_properties;
        broadcast use vstd::multiset::group_multiset_properties;
    } else if s.last().code_of() <= x.code_of() {
        broadcast use vstd::seq_lib::group_seq_properties;
        let r = s.push(x);
        assert forall|i: int, j: int| 0 <= i <= j < r.len() implies r[i].code_of()
            <= r[j].code_of() by {
            if j == s.len() && i < s.len() {
                assert(s[i].code_of() <= s[s.len() - 1].code_of());
            }
        }
    } else {
        let p = s.drop_last();
        assert(codes_ascending(p));
        lemma_insert_ascending(p, x);
        let q = insert_by_code(p, x);
        let r = q.push(s.last());
        broadcast use vstd::seq_lib::group_seq_properties;
        assert(s == p.push(s.last()));
        // every code in q is at most the last code of s
        assert forall|i: int| 0 <= i < q.len() implies q[i].code_of() <= s.last().code_of() by {
            if q[i] != x {
                assert(q.to_multiset().count(q[i]) > 0);
                assert(p.to_multiset().insert(x).count(q[i]) > 0);
                assert(p.to_multiset().count(q[i]) > 0);
                assert(p.contains(q[i]));
                let m = choose|m: int| 0 <= m < p.len() && p[m] == q[i];
                assert(s[m].code_of() <= s[s.len() - 1].code_of());
            }
        }
        assert forall|i: int, j: int| 0 <= i <= j < r.len() implies r[i].code_of()
            <= r[j].code_of() by {
            if j == q.len() {
                if i < q.len() {
                    assert(q[i].code_of() <= s.last().code_of());
                }
            }
        }
        broadcast use vstd::multiset::group_multiset_properties;
        assert(r.to_multiset() == q.to_multiset().insert(s.last()));
        assert(s.to_multiset() == p.to_multiset().insert(s.last()));
    }
}

/// Sorting by code yields entries whose codes never decrease, and the same
/// entries as before, each as often.
pub proof fn lemma_sorted_by_code<T: Coded>(s: Seq<T>)
    ensures
        codes_ascending(sorted_by_code(s)),
        sorted_by_code(s).to_multiset() == s.to_multiset(),
        sorted_by_code(s).len() == s.len(),
    decreases s.len(),
{
    broadcast use vstd::seq_lib::group_seq_properties;
    broadcast use vstd::multiset::group_multiset_properties;
    if s.len() > 0 {
        lemma_sorted_by_code(s.drop_last());
        lemma_insert_ascending(sorted_by_code(s.drop_last()), s.last());
        assert(s == s.drop_last().push(s.last()));
    }
}

/// Sorting entries that are already in order of their codes leaves them as
/// they are.
pub proof fn lemma_sort_keeps_ascending<T: Coded>(s: Seq<T>)
    requires
        codes_ascending(s),
    ensures
        sorted_by_code(s) == s,
    decreases s.len(),
{
    if s.len() > 0 {
        let p = s.drop_last();
        assert(codes_ascending(p));
        lemma_sort_keeps_ascending(p);
        if p.len() > 0 {
            assert(p.last().code_of() <= s.last().code_of());
        }
        assert(p.push(s.last()) == s);
    }
}

/// Sorting twice gives what sorting once gave.
pub proof fn lemma_sort_idempotent<T: Coded>(s: Seq<T>)
    ensures
        sorted_by_code(sorted_by_code(s)) == sorted_by_code(s),
{
    lemma_sorted_by_code(s);
    lemma_sort_keeps_ascending(sorted_by_code(s));
}

/// A mapping file of the pad database. `deadzone` holds the bits of a 64-bit
/// float.
pub struct PadMappingFile {
    pub name: String,
    pub type_: String,
    pub deadzone: Option<u64>,
    pub button: Option<Vec<ButtonEntry>>,
    pub axis: Option<Vec<AxisEntry>>,
    pub trigger: Option<Vec<TriggerEntry>>,
    pub three_way: Option<Vec<ThreeWayEntry>>,
    pub wheel: Option<Vec<WheelEntry>>,
    pub throttle: Option<Vec<ThrottleEntry>>,
}

/// `after` is the list `before`, sorted by code; an absent list stays absent.
pub open spec fn sorted_list<T: Coded>(before: Option<Vec<T>>, after: Option<Vec<T>>) -> bool {
    match before {
        Some(v) => after matches Some(w) && w@ == sorted_by_code(v@),
        None => after is None,
    }
}

fn sort_list<T: Coded>(list: &mut Option<Vec<T>>)
    ensures
        sorted_list(*old(list), *final(list)),
{
    match list.take() {
        Some(mut v) => {
            sort_by_code(&mut v);
            *list = Some(v);
        },
        None => {},
    }
}

impl PadMappingFile {
    /// Sorts every list of entries by code.
    pub fn sort_by_code(&mut self)
        ensures
            final(self).name == old(self).name,
            final(self).type_ == old(self).type_,
            final(self).deadzone == old(self).deadzone,
            sorted_list(old(self).button, final(self).button),
            sorted_list(old(self).axis, final(self).axis),
            sorted_list(old(self).trigger, final(self).trigger),
            sorted_list(old(self).three_way, final(self).three_way),
            sorted_list(old(self).wheel, final(self).wheel),
            sorted_list(old(self).throttle, final(self).throttle),
    {
        self.sort_by_code_button();
        self.sort_by_code_axis();
        self.sort_by_code_three_way();
        self.sort_by_code_trigger();
        self.sort_by_code_throttle();
        self.sort_by_code_wheel();
    }

    /// Sorts the buttons by code.
    pub fn sort_by_code_button(&mut self)
        ensures
            sorted_list(old(self).button, final(self).button),
            *final(self) == (PadMappingFile { button: final(self).button, ..*old(self) }),
    {
        sort_list(&mut self.button);
    }

    /// Sorts the axes by code.
    pub fn sort_by_code_axis(&mut self)
        ensures
            sorted_list(old(self).axis, final(self).axis),
            *final(self) == (PadMappingFile { axis: final(self).axis, ..*old(self) }),
    {
        sort_list(&mut self.axis);
    }

    /// Sorts the triggers by code.
    pub fn sort_by_code_trigger(&mut self)
        ensures
            sorted_list(old(self).trigger, final(self).trigger),
            *final(self) == (PadMappingFile { trigger: final(self).trigger, ..*old(self) }),
    {
        sort_list(&mut self.trigger);
    }

    /// Sorts the three-way switches by code.
    pub fn sort_by_code_three_way(&mut self)
        ensures
            sorted_list(old(self).three_way, final(self).three_way),
            *final(self) == (PadMappingFile { three_way: final(self).three_way, ..*old(self) }),
    {
        sort_list(&mut self.three_way);
    }

    /// Sorts the wheels by code.
    pub fn sort_by_code_wheel(&mut self)
        ensures
            sorted_list(old(self).wheel, final(self).wheel),
            *final(self) == (PadMappingFile { wheel: final(self).wheel, ..*old(self) }),
    {
        sort_list(&mut self.wheel);
    }

    /// Sorts the throttles by code.
    pub fn sort_by_code_throttle(&mut self)
        ensures
            sorted_list(old(self).throttle, final(self).throttle),
            *final(self) == (PadMappingFile { throttle: final(self).throttle, ..*old(self) }),
    {
        sort_list(&mut self.throttle);
    }
}

} // verus!
