//! What one poll of a controller reports for each of its buttons, and how
//! the steps after a scan end.

use vstd::prelude::*;
use crate::manager::{
    analog_inputs, bit32, button_inputs, button_states, edge_inputs, lr_inputs, report, reports,
    ButtonName, Input, PadState, button_input, spec_next, queue_in_range, ManagerView, Step,
};

verus! {

/// The button that input `inp` reports, if it reports one.
pub open spec fn input_button(inp: Input) -> Option<ButtonName> {
    match inp {
        Input::Accept(_) => Some(ButtonName::Accept),
        Input::Cancel(_) => Some(ButtonName::Cancel),
        Input::Execute(_) => Some(ButtonName::Execute),
        Input::Action(_) => Some(ButtonName::Action),
        Input::Menu(_) => Some(ButtonName::Menu),
        Input::Left(_) => Some(ButtonName::Left),
        Input::Right(_) => Some(ButtonName::Right),
        Input::Up(_) => Some(ButtonName::Up),
        Input::Down(_) => Some(ButtonName::Down),
        Input::MoveStick(_) => Some(ButtonName::MoveStick),
        Input::CamStick(_) => Some(ButtonName::CamStick),
        Input::Controls => Some(ButtonName::Controls),
        Input::Exit => Some(ButtonName::Exit),
        Input::L(n, _) => Some(ButtonName::L(n)),
        Input::R(n, _) => Some(ButtonName::R(n)),
        _ => None,
    }
}

/// Whether a queued input is one of button `b`'s.
pub open spec fn of_button(b: ButtonName) -> spec_fn((usize, Input)) -> bool {
    |x: (usize, Input)| input_button(x.1) == Some(b)
}

/// Whether a button state belongs to button `b`.
pub open spec fn named(b: ButtonName) -> spec_fn((ButtonName, bool, bool)) -> bool {
    |t: (ButtonName, bool, bool)| t.0 == b
}

/// The state of button `b` in `s` (left and right buttons by number).
pub open spec fn button_state(s: PadState, b: ButtonName) -> bool {
    match b {
        ButtonName::L(n) => bit32(s.l, n as int),
        ButtonName::R(n) => bit32(s.r, n as int),
        _ => named_state(s, b),
    }
}

/// The state of a named button `b` in `s`.
pub open spec fn named_state(s: PadState, b: ButtonName) -> bool {
    match b {
        ButtonName::Accept => s.accept,
        ButtonName::Cancel => s.cancel,
        ButtonName::Execute => s.execute,
        ButtonName::Action => s.trigger,
        ButtonName::Menu => s.menu,
        ButtonName::Left => s.left,
        ButtonName::Right => s.right,
        ButtonName::Up => s.up,
        ButtonName::Down => s.down,
        ButtonName::MoveStick => s.move_stick,
        ButtonName::CamStick => s.cam_stick,
        ButtonName::Controls => s.controls,
        _ => s.exit,
    }
}

/// Position of a named button among [`button_states`].
pub open spec fn named_index(b: ButtonName) -> int {
    match b {
        ButtonName::Accept => 0,
        ButtonName::Cancel => 1,
        ButtonName::Execute => 2,
        ButtonName::Action => 3,
        ButtonName::Menu => 4,
        ButtonName::Left => 5,
        ButtonName::Right => 6,
        ButtonName::Up => 7,
        ButtonName::Down => 8,
        ButtonName::Controls => 9,
        ButtonName::MoveStick => 10,
        ButtonName::CamStick => 11,
        ButtonName::Exit => 12,
        _ => -1,
    }
}

proof fn lemma_filter_one<A>(s: Seq<A>, pred: spec_fn(A) -> bool, j: int)
    requires
        0 <= j < s.len(),
        pred(s[j]),
        forall|k: int| 0 <= k < s.len() && k != j ==> !pred(#[trigger] s[k]),
    ensures
        s.filter(pred) == seq![s[j]],
    decreases s.len(),
{
    reveal(Seq::filter);
    let d = s.drop_last();
    if j == s.len() - 1 {
        lemma_filter_none(d, pred);
        assert(d.filter(pred).push(s.last()) =~= seq![s[j]]);
    } else {
        assert forall|k: int| 0 <= k < d.len() && k != j implies !pred(#[trigger] d[k]) by {
            assert(d[k] == s[k]);
        }
        lemma_filter_one(d, pred, j);
        assert(!pred(s[s.len() - 1]));
    }
}

proof fn lemma_filter_none<A>(s: Seq<A>, pred: spec_fn(A) -> bool)
    requires
        forall|k: int| 0 <= k < s.len() ==> !pred(#[trigger] s[k]),
    ensures
        s.filter(pred) == Seq::<A>::empty(),
    decreases s.len(),
{
    reveal(Seq::filter);
    if s.len() > 0 {
        let d = s.drop_last();
        assert forall|k: int| 0 <= k < d.len() implies !pred(#[trigger] d[k]) by {
            assert(d[k] == s[k]);
        }
        lemma_filter_none(d, pred);
        assert(!pred(s[s.len() - 1]));
    }
}

proof fn lemma_filter_report(i: usize, b2: ButtonName, now: bool, before: bool, b: ButtonName)
    ensures
        report(i, b2, now, before).filter(of_button(b)) == if b2 == b {
            report(i, b2, now, before)
        } else {
            Seq::<(usize, Input)>::empty()
        },
{
    reveal(report);
    let r = report(i, b2, now, before);
    assert(forall|x: Option<bool>| input_button(#[trigger] button_input(b2, x)) == Some(b2));
    if b2 == b {
        if r.len() == 1 {
            lemma_filter_one(r, of_button(b), 0);
            assert(r =~= seq![r[0]]);
        } else {
            lemma_filter_none(r, of_button(b));
        }
    } else {
        lemma_filter_none(r, of_button(b));
    }
}

proof fn lemma_filter_reports(i: usize, items: Seq<(ButtonName, bool, bool)>, b: ButtonName)
    ensures
        reports(i, items).filter(of_button(b)) == reports(i, items.filter(named(b))),
    decreases items.len(),
{
    reveal(Seq::filter);
    if items.len() > 0 {
        let d = items.drop_last();
        let l = items.last();
        lemma_filter_reports(i, d, b);
        Seq::filter_distributes_over_add(reports(i, d), report(i, l.0, l.1, l.2), of_button(b));
        lemma_filter_report(i, l.0, l.1, l.2, b);
        let fd = d.filter(named(b));
        if l.0 == b {
            assert(fd.push(l).drop_last() =~= fd);
            assert(reports(i, fd.push(l)) == reports(i, fd) + report(i, l.0, l.1, l.2));
        } else {
            assert(reports(i, fd) + Seq::<(usize, Input)>::empty() =~= reports(i, fd));
        }
    } else {
        assert(reports(i, items) == Seq::<(usize, Input)>::empty());
    }
}

proof fn lemma_filter_lr(i: usize, before: PadState, now: PadState, k: nat, b: ButtonName)
    requires
        k <= 32,
    ensures
        lr_inputs(i, before, now, k).filter(of_button(b)) == match b {
            ButtonName::L(n) => if n < k {
                report(i, b, bit32(now.l, n as int), bit32(before.l, n as int))
            } else {
                Seq::<(usize, Input)>::empty()
            },
            ButtonName::R(n) => if n < k {
                report(i, b, bit32(now.r, n as int), bit32(before.r, n as int))
            } else {
                Seq::<(usize, Input)>::empty()
            },
            _ => Seq::<(usize, Input)>::empty(),
        },
    decreases k,
{
    reveal(Seq::filter);
    if k > 0 {
        let c = (k - 1) as int;
        let x = lr_inputs(i, before, now, (k - 1) as nat);
        let y = report(i, ButtonName::L(c as u8), bit32(now.l, c), bit32(before.l, c));
        let z = report(i, ButtonName::R(c as u8), bit32(now.r, c), bit32(before.r, c));
        lemma_filter_lr(i, before, now, (k - 1) as nat, b);
        Seq::filter_distributes_over_add(x + y, z, of_button(b));
        Seq::filter_distributes_over_add(x, y, of_button(b));
        lemma_filter_report(i, ButtonName::L(c as u8), bit32(now.l, c), bit32(before.l, c), b);
        lemma_filter_report(i, ButtonName::R(c as u8), bit32(now.r, c), bit32(before.r, c), b);
        assert(k <= 32 ==> (c as u8) as int == c);
        let e = Seq::<(usize, Input)>::empty();
        assert(x.filter(of_button(b)) + e =~= x.filter(of_button(b)));
        assert(e + y.filter(of_button(b)) =~= y.filter(of_button(b)));
        assert(e + z.filter(of_button(b)) =~= z.filter(of_button(b)));
        assert(e + e =~= e);
    } else {
        assert(lr_inputs(i, before, now, 0) == Seq::<(usize, Input)>::empty());
    }
}

proof fn lemma_analog_of(i: usize, now: PadState, b: ButtonName)
    ensures
        analog_inputs(i, now).filter(of_button(b)) == Seq::<(usize, Input)>::empty(),
{
    let a = analog_inputs(i, now);
    assert forall|k: int| 0 <= k < a.len() implies !(of_button(b))(#[trigger] a[k]) by {
        assert(input_button(a[k].1) is None);
    }
    lemma_filter_none(a, of_button(b));
}

#[verifier::spinoff_prover]
#[verifier::rlimit(40)]
proof fn lemma_named_of(i: usize, before: PadState, now: PadState, b: ButtonName)
    ensures
        button_inputs(i, before, now).filter(of_button(b)) == if named_index(b) >= 0 {
            report(i, b, button_state(now, b), button_state(before, b))
        } else {
            Seq::<(usize, Input)>::empty()
        },
{
    let e = Seq::<(usize, Input)>::empty();
    let items = button_states(before, now);
    assert(items.len() == 13);
    assert(items[0].0 == ButtonName::Accept);
    assert(items[1].0 == ButtonName::Cancel);
    assert(items[2].0 == ButtonName::Execute);
    assert(items[3].0 == ButtonName::Action);
    assert(items[4].0 == ButtonName::Menu);
    assert(items[5].0 == ButtonName::Left);
    assert(items[6].0 == ButtonName::Right);
    assert(items[7].0 == ButtonName::Up);
    assert(items[8].0 == ButtonName::Down);
    assert(items[9].0 == ButtonName::Controls);
    assert(items[10].0 == ButtonName::MoveStick);
    assert(items[11].0 == ButtonName::CamStick);
    assert(items[12].0 == ButtonName::Exit);
    assert(forall|k: int| 0 <= k < 13 ==> named_index(#[trigger] items[k].0) == k);
    lemma_filter_reports(i, items, b);
    let j = named_index(b);
    assert(reports(i, Seq::<(ButtonName, bool, bool)>::empty()) == e);
    if j >= 0 {
        lemma_named_item(before, now, b);
        assert(button_state(now, b) == named_state(now, b));
        assert(button_state(before, b) == named_state(before, b));
        assert forall|k: int| 0 <= k < items.len() && k != j implies !(named(b))(#[trigger] items[k]) by {
            assert(named_index(items[k].0) == k);
        }
        lemma_filter_one(items, named(b), j);
        let x = seq![items[j]];
        assert(x.drop_last() =~= Seq::<(ButtonName, bool, bool)>::empty());
        let r = report(i, b, button_state(now, b), button_state(before, b));
        assert(reports(i, x) == reports(i, x.drop_last()) + r);
        assert(e + r =~= r);
    } else {
        assert forall|k: int| 0 <= k < items.len() implies !(named(b))(#[trigger] items[k]) by {
            assert(named_index(items[k].0) == k);
        }
        lemma_filter_none(items, named(b));
    }
}

#[verifier::spinoff_prover]
#[verifier::rlimit(80)]
proof fn lemma_named_item(before: PadState, now: PadState, b: ButtonName)
    requires
        named_index(b) >= 0,
    ensures
        button_states(before, now)[named_index(b)] == (b, named_state(now, b), named_state(before, b)),
{
    let items = button_states(before, now);
    match b {
        ButtonName::Accept => {
            assert(named_index(b) == 0);
            assert(items[0] == (b, now.accept, before.accept));
        },
        ButtonName::Cancel => {
            assert(named_index(b) == 1);
            assert(items[1] == (b, now.cancel, before.cancel));
        },
        ButtonName::Execute => {
            assert(named_index(b) == 2);
            assert(items[2] == (b, now.execute, before.execute));
        },
        ButtonName::Action => {
            assert(named_index(b) == 3);
            assert(items[3] == (b, now.trigger, before.trigger));
        },
        ButtonName::Menu => {
            assert(named_index(b) == 4);
            assert(items[4] == (b, now.menu, before.menu));
        },
        ButtonName::Left => {
            assert(named_index(b) == 5);
            assert(items[5] == (b, now.left, before.left));
        },
        ButtonName::Right => {
            assert(named_index(b) == 6);
            assert(items[6] == (b, now.right, before.right));
        },
        ButtonName::Up => {
            assert(named_index(b) == 7);
            assert(items[7] == (b, now.up, before.up));
        },
        ButtonName::Down => {
            assert(named_index(b) == 8);
            assert(items[8] == (b, now.down, before.down));
        },
        ButtonName::Controls => {
            assert(named_index(b) == 9);
            assert(items[9] == (b, now.controls, before.controls));
        },
        ButtonName::MoveStick => {
            assert(named_index(b) == 10);
            assert(items[10] == (b, now.move_stick, before.move_stick));
        },
        ButtonName::CamStick => {
            assert(named_index(b) == 11);
            assert(items[11] == (b, now.cam_stick, before.cam_stick));
        },
        ButtonName::Exit => {
            assert(named_index(b) == 12);
            assert(items[12] == (b, now.exit, before.exit));
        },
        ButtonName::L(_) => {},
        ButtonName::R(_) => {},
    }
}

/// In one poll of controller `i`, the inputs queued for button `b` are
/// exactly what [`report`] gives for its state now and as last reported:
/// pressed when it went down, released when it went up, held while it stays
/// down, nothing while it stays up, and for the controls and exit buttons
/// only going down (see [`crate::manager::lemma_button_report`]).  After the
/// poll the button is remembered as it now is (see
/// [`crate::manager::lemma_poll_remembers`]).
#[verifier::spinoff_prover]
#[verifier::rlimit(80)]
pub proof fn lemma_poll_reports_button(i: usize, before: PadState, now: PadState, b: ButtonName)
    requires
        b matches ButtonName::L(n) ==> n < 32,
        b matches ButtonName::R(n) ==> n < 32,
    ensures
        edge_inputs(i, before, now).filter(of_button(b)) == report(
            i,
            b,
            button_state(now, b),
            button_state(before, b),
        ),
{
    let a = analog_inputs(i, now);
    let bi = button_inputs(i, before, now);
    let lr = lr_inputs(i, before, now, 32);
    let e = Seq::<(usize, Input)>::empty();
    let r = report(i, b, button_state(now, b), button_state(before, b));
    Seq::filter_distributes_over_add(a + bi, lr, of_button(b));
    Seq::filter_distributes_over_add(a, bi, of_button(b));
    lemma_analog_of(i, now, b);
    lemma_named_of(i, before, now, b);
    lemma_filter_lr(i, before, now, 32, b);
    assert(e + e =~= e);
    assert(e + r =~= r);
    assert(r + e =~= r);
    assert(e + r + e =~= r);
    assert(e + e + r =~= r);
}

/// The manager after `k` more steps with no new input.
pub open spec fn steps(m: ManagerView, k: nat) -> ManagerView
    decreases k,
{
    if k == 0 {
        m
    } else {
        steps(spec_next(m).0, (k - 1) as nat)
    }
}

proof fn lemma_steps_drain(m: ManagerView, k: nat)
    requires
        k <= m.input.len(),
    ensures
        steps(m, k) == (ManagerView { input: m.input.take(m.input.len() - k), ..m }),
    decreases k,
{
    if k > 0 {
        let m1 = spec_next(m).0;
        assert(m1 == (ManagerView { input: m.input.drop_last(), ..m }));
        lemma_steps_drain(m1, (k - 1) as nat);
        assert(m1.input.take(m1.input.len() - (k - 1)) =~= m.input.take(m.input.len() - k));
    } else {
        assert(m.input.take(m.input.len() as int) =~= m.input);
    }
}

/// Once a scan has queued its inputs (`reset` set), the steps that follow
/// hand them out one by one, the last queued first, each naming a
/// controller that the manager has; the step after the last one ends the
/// poll and clears `reset`, so a loop that takes steps until the end stops.
pub proof fn lemma_poll_ends(m: ManagerView)
    requires
        m.reset,
        queue_in_range(m),
    ensures
        forall|k: nat|
            k < m.input.len() ==> #[trigger] spec_next(steps(m, k)).1 == Step::Input(
                m.input[m.input.len() - 1 - k].0,
                m.input[m.input.len() - 1 - k].1,
            ) && m.input[m.input.len() - 1 - k].0 < m.controllers.len(),
        spec_next(steps(m, m.input.len())).1 is Done,
        !spec_next(steps(m, m.input.len())).0.reset,
{
    assert forall|k: nat| k < m.input.len() implies #[trigger] spec_next(steps(m, k)).1 == Step::Input(
        m.input[m.input.len() - 1 - k].0,
        m.input[m.input.len() - 1 - k].1,
    ) && m.input[m.input.len() - 1 - k].0 < m.controllers.len() by {
        lemma_steps_drain(m, k);
        let t = m.input.take(m.input.len() - k);
        assert(t.last() == m.input[m.input.len() - 1 - k]);
        assert(m.input[m.input.len() - 1 - k] == m.input[m.input.len() - 1 - k]);
    }
    lemma_steps_drain(m, m.input.len());
    assert(m.input.take(0) =~= Seq::<(usize, Input)>::empty());
}

} // verus!
