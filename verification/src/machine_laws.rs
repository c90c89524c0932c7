//! What holds of every run of the machine.

use vstd::prelude::*;
use crate::builtins::slot_value;
use crate::interpreter::{
    after, caught, deliver, enter, error_number, fetch, resume, shaped, start, step, unwind,
    ActionView, ControlView, FrameView, MachineView, ProgramView, SignalView,
};
use crate::parser::{ExprView, FunView, ValueView};

verus! {

/// The machine after `n` transitions, whatever the embedder was asked to do in between.
pub open spec fn steps(p: ProgramView, m: MachineView, n: nat) -> MachineView
    decreases n,
{
    if n == 0 {
        m
    } else {
        steps(p, step(p, m).0, (n - 1) as nat)
    }
}

/// A run starts in shape.
pub proof fn lemma_start_is_shaped(p: ProgramView)
    ensures
        shaped(p, start()),
{
}

/// A transition keeps the machine in shape.
pub proof fn lemma_step_keeps_shape(p: ProgramView, m: MachineView)
    requires
        shaped(p, m),
    ensures
        shaped(p, step(p, m).0),
{
    let next = step(p, m).0;
    match m.control {
        ControlView::Fetch(i) => {
            assert(next == fetch(p, m, i));
            assert forall|k: int| 0 <= k < next.stack.len() implies match #[trigger] next.stack[k] {
                FrameView::Loop(j) => j < p.instrs.len(),
                _ => k > 0,
            } by {
                if k < m.stack.len() {
                    assert(next.stack[k] == m.stack[k]);
                }
            }
        },
        ControlView::Enter(f) => {
            assert(next == enter(m, f));
            assert forall|k: int| 0 <= k < next.stack.len() implies match #[trigger] next.stack[k] {
                FrameView::Loop(j) => j < p.instrs.len(),
                _ => k > 0,
            } by {
                if k < m.stack.len() {
                    assert(next.stack[k] == m.stack[k]);
                }
            }
        },
        ControlView::Yield(v) => {
            assert(next == deliver(p, m, v).0);
            if m.stack.len() > 0 {
                let top = m.stack.last();
                assert(m.stack[m.stack.len() - 1] == top);
                assert forall|k: int| 0 <= k < next.stack.len() implies match #[trigger] next.stack[k] {
                    FrameView::Loop(j) => j < p.instrs.len(),
                    _ => k > 0,
                } by {
                    if k < m.stack.len() - 1 {
                        assert(next.stack[k] == m.stack[k]);
                    }
                }
            }
        },
        ControlView::Unwind(s) => {
            assert(next == unwind(p, m, s));
            if m.stack.len() > 0 {
                let top = m.stack.last();
                assert(m.stack[m.stack.len() - 1] == top);
                assert forall|k: int| 0 <= k < next.stack.len() implies match #[trigger] next.stack[k] {
                    FrameView::Loop(j) => j < p.instrs.len(),
                    _ => k > 0,
                } by {
                    assert(next.stack[k] == m.stack[k]);
                }
            }
        },
        _ => {},
    }
}

/// To enter a call while something waits keeps the machine in shape.
pub proof fn lemma_enter_keeps_shape(p: ProgramView, m: MachineView, f: FunView)
    requires
        shaped(p, m),
        m.stack.len() > 0,
    ensures
        shaped(p, enter(m, f)),
{
    let next = enter(m, f);
    assert forall|k: int| 0 <= k < next.stack.len() implies match #[trigger] next.stack[k] {
        FrameView::Loop(j) => j < p.instrs.len(),
        _ => k > 0,
    } by {
        if k < m.stack.len() {
            assert(next.stack[k] == m.stack[k]);
        }
    }
}

/// A line of input keeps the machine in shape.
pub proof fn lemma_resume_keeps_shape(p: ProgramView, m: MachineView, input: Result<Seq<char>, ()>)
    requires
        shaped(p, m),
    ensures
        shaped(p, resume(m, input)),
{
}

/// Any number of transitions keeps the machine in shape.
pub proof fn lemma_run_keeps_shape(p: ProgramView, m: MachineView, n: nat)
    requires
        shaped(p, m),
    ensures
        shaped(p, steps(p, m, n)),
    decreases n,
{
    if n > 0 {
        lemma_step_keeps_shape(p, m);
        lemma_run_keeps_shape(p, step(p, m).0, (n - 1) as nat);
    }
}

/// In a machine in shape, a signal that finds nothing waiting is a located error, and the
/// run that an error ends is at an instruction of the program: the program's result is that
/// error, with that instruction.
pub proof fn lemma_errors_are_located(p: ProgramView, m: MachineView, s: SignalView)
    requires
        shaped(p, m),
        m.control == ControlView::Unwind(s),
    ensures
        m.stack.len() == 0 ==> (s matches SignalView::InterpreterError(e) && unwind(
            p,
            m,
            s,
        ).control == ControlView::Finished(Err(e))),
        m.stack.len() > 0 ==> (m.stack.last() matches FrameView::Loop(i) ==> i
            < p.instrs.len()),
{
    if m.stack.len() > 0 {
        assert(m.stack[m.stack.len() - 1] == m.stack.last());
    }
}

/// A transition changes a slot only where a value reaches the store that waits for it, or,
/// for slot `-1`, where an error reaches a guard.
pub proof fn lemma_slots_change_by_store_or_catch(p: ProgramView, m: MachineView, k: isize)
    ensures
        ({
            let next = step(p, m).0;
            let stored = m.control is Yield && m.stack.len() > 0 && m.stack.last()
                == FrameView::Store(k);
            let intercepted = k == -1 && m.stack.len() > 0 && m.stack.last() is Guard && (
            m.control matches ControlView::Unwind(s) && caught(s) is Some);
            !stored && !intercepted ==> next.slots.contains_key(k) == m.slots.contains_key(k)
                && next.slots[k] == m.slots[k]
        }),
{
}

/// A value that reaches the store for slot `k` is what slot `k` holds afterwards, and no
/// other slot changes.
pub proof fn lemma_store_sets_the_slot(p: ProgramView, m: MachineView, k: isize, v: ValueView)
    requires
        m.control == ControlView::Yield(v),
        m.stack.len() > 0,
        m.stack.last() == FrameView::Store(k),
    ensures
        step(p, m).0.slots == m.slots.insert(k, v),
        slot_value(step(p, m).0.slots, k) == v,
        step(p, m).0.stack == m.stack.drop_last(),
        step(p, m).0.control == ControlView::Yield(ValueView::Nil),
        step(p, m).1 == ActionView::Continue,
{
}

/// A read of slot `k` has the value that the slot holds, and the absent value where it
/// holds none; it is never an error, and it changes no slot.
pub proof fn lemma_get_reads_the_slot(p: ProgramView, m: MachineView, e: ExprView, k: isize)
    requires
        m.control == ControlView::Yield(ValueView::Int(k)),
        m.stack.len() > 0,
        m.stack.last() == FrameView::First(FunView::Get(e)),
    ensures
        step(p, m).0.control == ControlView::Yield(slot_value(m.slots, k)),
        !m.slots.contains_key(k) ==> step(p, m).0.control == ControlView::Yield(ValueView::Nil),
        step(p, m).0.slots == m.slots,
        step(p, m).0.stack == m.stack.drop_last(),
{
}

/// An error that reaches a guard leaves the code of its kind in slot `-1` and goes on as a
/// jump to the guard's label.
pub proof fn lemma_guard_stores_the_code(
    p: ProgramView,
    m: MachineView,
    s: SignalView,
    target: usize,
)
    requires
        m.control == ControlView::Unwind(s),
        m.stack.len() > 0,
        m.stack.last() == FrameView::Guard(target),
        caught(s) is Some,
    ensures
        step(p, m).0.slots == m.slots.insert(
            -1isize,
            ValueView::Int(error_number(caught(s)->0) as isize),
        ),
        step(p, m).0.control == ControlView::Unwind(SignalView::Jump(target)),
        step(p, m).0.stack == m.stack.drop_last(),
        400 <= error_number(caught(s)->0) <= 404,
{
}

/// A jump that reaches a run continues the run after the jump's target.
pub proof fn lemma_jump_continues_after_target(p: ProgramView, m: MachineView, target: usize, i: usize)
    requires
        m.control == ControlView::Unwind(SignalView::Jump(target)),
        m.stack.len() > 0,
        m.stack.last() == FrameView::Loop(i),
    ensures
        step(p, m).0.control == ControlView::Fetch(after(target, p.instrs.len())),
        step(p, m).0.stack == m.stack.drop_last(),
        step(p, m).0.slots == m.slots,
{
}

} // verus!
