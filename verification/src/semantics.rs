//! The meaning of a program, by recursion over its calls, and the proof that the machine
//! computes it.

use vstd::prelude::*;
use crate::builtins::{
    binary, fail, first_free, slot_value, truthy, type_error, unary, OutcomeView,
};
use crate::interpreter::{
    after, begin, caught, error_number, start, ControlView, ErrorInfoView, ErrorView, FrameView,
    InterpreterErrorView, MachineView, ProgramView, SignalView,
};
use crate::session::{drive, lemma_over_is_over, lines_left, next_line, serve, Session};
use crate::parser::{ExprView, FunView, InstrView, ValueView};
use crate::text::trim;

verus! {

/// What a script acts on: the slots, what it has written so far, and the lines that it
/// will be given when it asks for input, each a line or a failure to read.
pub struct World {
    pub slots: Map<isize, ValueView>,
    pub written: Seq<Seq<char>>,
    pub inputs: Seq<Result<Seq<char>, ()>>,
}

/// How the evaluation of a call ends.
pub enum Ending {
    /// With a value.
    Value(ValueView),
    /// With a signal for the calls and runs around it.
    Signal(SignalView),
    /// With the end of the process.
    Exit,
    /// Not within the depth that was allowed.
    Unfinished,
}

/// The value of an argument: a literal is its value, a call is evaluated.
pub open spec fn arg(p: ProgramView, e: ExprView, w: World, depth: nat) -> (Ending, World)
    decreases depth, e, 0nat,
{
    match e {
        ExprView::Value(v) => (Ending::Value(v), w),
        ExprView::FunCall(f) => eval(p, *f, w, depth),
    }
}

/// The evaluation of the call `f` in the world `w`, with calls of `f:` nested no deeper
/// than `depth` and no run longer than `depth` instructions.
///
/// A call without arguments ends at once. Any other call evaluates its first argument; if
/// that ends with a value the call goes on with it, and otherwise the call ends as its
/// argument did.
pub open spec fn eval(p: ProgramView, f: FunView, w: World, depth: nat) -> (Ending, World)
    decreases depth, f, 2nat,
{
    match f {
        FunView::Input => match next_line(w.inputs) {
            Ok(line) => (
                Ending::Value(ValueView::Str(trim(line))),
                World { inputs: lines_left(w.inputs), ..w },
            ),
            Err(_) => (
                Ending::Signal(
                    SignalView::Error(
                        ErrorInfoView {
                            error: ErrorView::Error("Failed to receive an input"@),
                            fun: FunView::Input,
                            note: None,
                        },
                    ),
                ),
                World { inputs: lines_left(w.inputs), ..w },
            ),
        },
        FunView::KeyChar => (Ending::Value(ValueView::Nil), w),
        FunView::EmptySlot => match first_free(w.slots) {
            Some(n) => (Ending::Value(ValueView::Int(n)), w),
            None => (
                Ending::Signal(
                    SignalView::Error(
                        ErrorInfoView {
                            error: ErrorView::NoSlotError,
                            fun: f,
                            note: Some("At this point, you better use a known number"@),
                        },
                    ),
                ),
                w,
            ),
        },
        FunView::Exit => (Ending::Exit, w),
        FunView::SetSlot(a, _)
        | FunView::Add(a, _)
        | FunView::Equal(a, _)
        | FunView::Extract(a, _)
        | FunView::If(a, _)
        | FunView::CatchError(a, _)
        | FunView::Get(a)
        | FunView::Write(a)
        | FunView::Print(a)
        | FunView::Jump(a)
        | FunView::Convert(a)
        | FunView::Text(a)
        | FunView::Number(a)
        | FunView::ThrowError(a)
        | FunView::Return(a)
        | FunView::FunJump(a) => {
            let (first, w1) = arg(p, a, w, depth);
            match first {
                Ending::Value(v) => eval_rest(p, f, v, w1, depth),
                _ => (first, w1),
            }
        },
    }
}

/// How a guard ends what it guards: an error becomes a jump to the guard's label and leaves
/// its code in slot `-1`; any other ending passes.
pub open spec fn guarded(target: usize, r: (Ending, World)) -> (Ending, World) {
    match r.0 {
        Ending::Signal(s) => match caught(s) {
            Some(e) => (
                Ending::Signal(SignalView::Jump(target)),
                World {
                    slots: r.1.slots.insert(-1isize, ValueView::Int(error_number(e) as isize)),
                    ..r.1
                },
            ),
            None => r,
        },
        _ => r,
    }
}

/// The call `f` goes on with the value `v` of its first argument.
///
/// - `s:` wants an integer for the slot, evaluates its second argument and stores its value.
/// - `?:` has the value of its second argument where `v` is truthy, and none otherwise,
///   without evaluating it.
/// - `#:` wants a text that names a label and evaluates its second argument under a guard.
/// - `a:`, `=:` and `x:` evaluate their second argument and combine the two values.
/// - `f:` runs the instructions from its label on and has the value that they return.
/// - `p:` and `w:` write.
/// - Any other call is a function of `v` alone.
pub open spec fn eval_rest(p: ProgramView, f: FunView, v: ValueView, w: World, depth: nat) -> (
    Ending,
    World,
)
    decreases depth, f, 1nat,
{
    match f {
        FunView::SetSlot(_, e) => match v {
            ValueView::Int(k) => {
                let (second, w2) = arg(p, e, w, depth);
                match second {
                    Ending::Value(x) => (
                        Ending::Value(ValueView::Nil),
                        World { slots: w2.slots.insert(k, x), ..w2 },
                    ),
                    _ => (second, w2),
                }
            },
            _ => outcome(type_error(f, ValueView::Int(0), v), w),
        },
        FunView::If(_, e) => if truthy(v) {
            arg(p, e, w, depth)
        } else {
            (Ending::Value(ValueView::Nil), w)
        },
        FunView::CatchError(_, e) => match v {
            ValueView::Str(name) => if p.labels.contains_key(name) {
                guarded(p.labels[name], arg(p, e, w, depth))
            } else {
                outcome(fail(f, ErrorView::LabelError(name), None), w)
            },
            _ => outcome(type_error(f, ValueView::Str(Seq::empty()), v), w),
        },
        FunView::Add(_, e) | FunView::Equal(_, e) | FunView::Extract(_, e) => {
            let (second, w2) = arg(p, e, w, depth);
            match second {
                Ending::Value(x) => outcome(binary(f, v, x), w2),
                _ => (second, w2),
            }
        },
        _ => match unary(p.labels, w.slots, f, v) {
            OutcomeView::Run(i) => if depth == 0 {
                (Ending::Unfinished, w)
            } else {
                run_from(p, i, w, (depth - 1) as nat)
            },
            o => outcome(o, w),
        },
    }
}

/// How a call ends that comes to the outcome `o`: with its value, with its signal, or with
/// no value after it has written its text. A run of instructions is the outcome of `f:`
/// alone, which [`eval_rest`] treats by itself.
pub open spec fn outcome(o: OutcomeView, w: World) -> (Ending, World) {
    match o {
        OutcomeView::Yield(v) => (Ending::Value(v), w),
        OutcomeView::Raise(s) => (Ending::Signal(s), w),
        OutcomeView::Emit(text) => (
            Ending::Value(ValueView::Nil),
            World { written: w.written.push(text), ..w },
        ),
        OutcomeView::Run(_) => (Ending::Unfinished, w),
    }
}

/// The run of the instructions from index `i` on.
///
/// Past the last instruction the run ends without a value. A label's line does nothing.
/// After a call that ends with a value the run goes to the next instruction; after a jump
/// it goes to the instruction after the target; a return ends the run with its value; an
/// error ends it, and from there on carries the instruction that raised it.
pub open spec fn run_from(p: ProgramView, i: usize, w: World, depth: nat) -> (Ending, World)
    decreases depth, FunView::Exit, 0nat,
{
    if i >= p.instrs.len() {
        (Ending::Value(ValueView::Nil), w)
    } else if depth == 0 {
        (Ending::Unfinished, w)
    } else {
        match p.instrs[i as int].instr {
            InstrView::FunCall(f) => {
                let (r, w1) = eval(p, f, w, (depth - 1) as nat);
                match r {
                    Ending::Value(_) => run_from(p, (i + 1) as usize, w1, (depth - 1) as nat),
                    Ending::Signal(SignalView::Jump(target)) => run_from(
                        p,
                        after(target, p.instrs.len()),
                        w1,
                        (depth - 1) as nat,
                    ),
                    Ending::Signal(SignalView::Return(v)) => (Ending::Value(v), w1),
                    Ending::Signal(SignalView::Error(info)) => (
                        Ending::Signal(
                            SignalView::InterpreterError(
                                InterpreterErrorView {
                                    error_info: info,
                                    instr_info: p.instrs[i as int],
                                },
                            ),
                        ),
                        w1,
                    ),
                    _ => (r, w1),
                }
            },
            _ => run_from(p, (i + 1) as usize, w, (depth - 1) as nat),
        }
    }
}

/// How a program ends, run from its first instruction in a world without slots: well, with
/// an error, or with the end of the process.
pub open spec fn run_program(p: ProgramView, inputs: Seq<Result<Seq<char>, ()>>, depth: nat) -> (
    Ending,
    World,
) {
    run_from(p, 0, World { slots: Map::empty(), written: Seq::empty(), inputs }, depth)
}

/// The session of a machine in the world `w`.
pub open spec fn session(control: ControlView, stack: Seq<FrameView>, w: World) -> Session {
    Session {
        machine: MachineView { slots: w.slots, stack, control },
        written: w.written,
        inputs: w.inputs,
    }
}

/// True where the session `s` is where an evaluation that ends with `r` in the world `w`
/// leaves the machine: about to hand the value or the signal to the frames in `stack`, or
/// at the end of the process.
pub open spec fn ended(r: Ending, stack: Seq<FrameView>, w: World, s: Session) -> bool {
    match r {
        Ending::Value(v) => s == session(ControlView::Yield(v), stack, w),
        Ending::Signal(sig) => s == session(ControlView::Unwind(sig), stack, w),
        Ending::Exit => s.machine.control == ControlView::Exited && s.machine.slots == w.slots
            && s.written == w.written && s.inputs == w.inputs,
        Ending::Unfinished => true,
    }
}

proof fn lemma_drive_then(p: ProgramView, s: Session, a: nat, b: nat)
    ensures
        drive(p, s, a + b) == drive(p, drive(p, s, a), b),
    decreases a,
{
    if a > 0 {
        lemma_drive_then(p, serve(p, s), (a - 1) as nat, b);
        assert(drive(p, s, a + b) == drive(p, serve(p, s), (a + b - 1) as nat));
    }
}

proof fn lemma_drive_once(p: ProgramView, s: Session)
    ensures
        drive(p, s, 1) == serve(p, s),
{
    reveal_with_fuel(drive, 2);
}

proof fn lemma_popped(stack: Seq<FrameView>, top: FrameView)
    ensures
        stack.push(top).len() > 0,
        stack.push(top).last() == top,
        stack.push(top).drop_last() == stack,
{
    assert(stack.push(top).drop_last() =~= stack);
}

proof fn lemma_arg_runs(p: ProgramView, e: ExprView, w: World, depth: nat, stack: Seq<FrameView>) -> (n:
    nat)
    requires
        stack.len() > 0,
    ensures
        ended(
            arg(p, e, w, depth).0,
            stack,
            arg(p, e, w, depth).1,
            drive(p, session(begin(e), stack, w), n),
        ),
    decreases depth, e, 0nat,
{
    match e {
        ExprView::Value(v) => 0,
        ExprView::FunCall(f) => lemma_eval_runs(p, *f, w, depth, stack),
    }
}

proof fn lemma_eval_runs(p: ProgramView, f: FunView, w: World, depth: nat, stack: Seq<FrameView>) -> (n:
    nat)
    requires
        stack.len() > 0,
    ensures
        ended(
            eval(p, f, w, depth).0,
            stack,
            eval(p, f, w, depth).1,
            drive(p, session(ControlView::Enter(f), stack, w), n),
        ),
    decreases depth, f, 2nat,
{
    let s0 = session(ControlView::Enter(f), stack, w);
    lemma_drive_once(p, s0);
    match f {
        FunView::Input | FunView::KeyChar | FunView::EmptySlot | FunView::Exit => 1,
        FunView::SetSlot(a, _)
        | FunView::Add(a, _)
        | FunView::Equal(a, _)
        | FunView::Extract(a, _)
        | FunView::If(a, _)
        | FunView::CatchError(a, _)
        | FunView::Get(a)
        | FunView::Write(a)
        | FunView::Print(a)
        | FunView::Jump(a)
        | FunView::Convert(a)
        | FunView::Text(a)
        | FunView::Number(a)
        | FunView::ThrowError(a)
        | FunView::Return(a)
        | FunView::FunJump(a) => {
            let inner = stack.push(FrameView::First(f));
            let s1 = session(begin(a), inner, w);
            assert(serve(p, s0) == s1);
            let n1 = lemma_arg_runs(p, a, w, depth, inner);
            let (first, w1) = arg(p, a, w, depth);
            let s2 = drive(p, s1, n1);
            lemma_drive_then(p, s0, 1, n1);
            match first {
                Ending::Value(v) => {
                    let n2 = lemma_rest_runs(p, f, v, w1, depth, stack);
                    lemma_drive_then(p, s0, 1 + n1, n2);
                    1 + n1 + n2
                },
                Ending::Signal(sig) => {
                    lemma_popped(stack, FrameView::First(f));
                    lemma_drive_once(p, s2);
                    lemma_drive_then(p, s0, 1 + n1, 1);
                    assert(serve(p, s2) == session(ControlView::Unwind(sig), stack, w1));
                    1 + n1 + 1
                },
                _ => 1 + n1,
            }
        },
    }
}

proof fn lemma_rest_runs(
    p: ProgramView,
    f: FunView,
    v: ValueView,
    w: World,
    depth: nat,
    stack: Seq<FrameView>,
) -> (n: nat)
    requires
        stack.len() > 0,
        !(f is Input || f is KeyChar || f is EmptySlot || f is Exit),
    ensures
        ended(
            eval_rest(p, f, v, w, depth).0,
            stack,
            eval_rest(p, f, v, w, depth).1,
            drive(p, session(ControlView::Yield(v), stack.push(FrameView::First(f)), w), n),
        ),
    decreases depth, f, 1nat,
{
    let s0 = session(ControlView::Yield(v), stack.push(FrameView::First(f)), w);
    lemma_popped(stack, FrameView::First(f));
    lemma_drive_once(p, s0);
    let s1 = serve(p, s0);
    match f {
        FunView::SetSlot(_, e) => match v {
            ValueView::Int(k) => {
                let inner = stack.push(FrameView::Store(k));
                assert(s1 == session(begin(e), inner, w));
                let n1 = lemma_arg_runs(p, e, w, depth, inner);
                let (second, w2) = arg(p, e, w, depth);
                let s2 = drive(p, s1, n1);
                lemma_drive_then(p, s0, 1, n1);
                lemma_popped(stack, FrameView::Store(k));
                lemma_drive_once(p, s2);
                lemma_drive_then(p, s0, 1 + n1, 1);
                match second {
                    Ending::Value(x) => 1 + n1 + 1,
                    Ending::Signal(sig) => 1 + n1 + 1,
                    _ => 1 + n1,
                }
            },
            _ => 1,
        },
        FunView::If(_, e) => {
            if truthy(v) {
                assert(s1 == session(begin(e), stack, w));
                let n1 = lemma_arg_runs(p, e, w, depth, stack);
                lemma_drive_then(p, s0, 1, n1);
                1 + n1
            } else {
                1
            }
        },
        FunView::CatchError(_, e) => match v {
            ValueView::Str(name) => {
                if p.labels.contains_key(name) {
                    let target = p.labels[name];
                    let inner = stack.push(FrameView::Guard(target));
                    assert(s1 == session(begin(e), inner, w));
                    let n1 = lemma_arg_runs(p, e, w, depth, inner);
                    let (second, w2) = arg(p, e, w, depth);
                    let s2 = drive(p, s1, n1);
                    lemma_drive_then(p, s0, 1, n1);
                    lemma_popped(stack, FrameView::Guard(target));
                    lemma_drive_once(p, s2);
                    lemma_drive_then(p, s0, 1 + n1, 1);
                    match second {
                        Ending::Value(x) => 1 + n1 + 1,
                        Ending::Signal(sig) => 1 + n1 + 1,
                        _ => 1 + n1,
                    }
                } else {
                    1
                }
            },
            _ => 1,
        },
        FunView::Add(_, e) | FunView::Equal(_, e) | FunView::Extract(_, e) => {
            let inner = stack.push(FrameView::Second(f, v));
            assert(s1 == session(begin(e), inner, w));
            let n1 = lemma_arg_runs(p, e, w, depth, inner);
            let (second, w2) = arg(p, e, w, depth);
            let s2 = drive(p, s1, n1);
            lemma_drive_then(p, s0, 1, n1);
            lemma_popped(stack, FrameView::Second(f, v));
            lemma_drive_once(p, s2);
            lemma_drive_then(p, s0, 1 + n1, 1);
            match second {
                Ending::Value(x) => 1 + n1 + 1,
                Ending::Signal(sig) => 1 + n1 + 1,
                _ => 1 + n1,
            }
        },
        _ => match unary(p.labels, w.slots, f, v) {
            OutcomeView::Run(i) => {
                if depth == 0 {
                    0
                } else {
                    assert(s1 == session(ControlView::Fetch(i), stack, w));
                    let n1 = lemma_run_runs(p, i, w, (depth - 1) as nat, stack);
                    lemma_drive_then(p, s0, 1, n1);
                    1 + n1
                }
            },
            _ => 1,
        },
    }
}

proof fn lemma_run_runs(p: ProgramView, i: usize, w: World, depth: nat, stack: Seq<FrameView>) -> (n:
    nat)
    requires
        stack.len() > 0,
    ensures
        ended(
            run_from(p, i, w, depth).0,
            stack,
            run_from(p, i, w, depth).1,
            drive(p, session(ControlView::Fetch(i), stack, w), n),
        ),
    decreases depth, FunView::Exit, 0nat,
{
    let s0 = session(ControlView::Fetch(i), stack, w);
    lemma_drive_once(p, s0);
    let s1 = serve(p, s0);
    if i >= p.instrs.len() {
        1
    } else if depth == 0 {
        0
    } else {
        let less = (depth - 1) as nat;
        match p.instrs[i as int].instr {
            InstrView::FunCall(f) => {
                let inner = stack.push(FrameView::Loop(i));
                assert(s1 == session(ControlView::Enter(f), inner, w));
                let n1 = lemma_eval_runs(p, f, w, less, inner);
                let (r, w1) = eval(p, f, w, less);
                let s2 = drive(p, s1, n1);
                lemma_drive_then(p, s0, 1, n1);
                lemma_popped(stack, FrameView::Loop(i));
                lemma_drive_once(p, s2);
                lemma_drive_then(p, s0, 1 + n1, 1);
                let s3 = serve(p, s2);
                match r {
                    Ending::Value(_) => {
                        assert(s3 == session(ControlView::Fetch((i + 1) as usize), stack, w1));
                        let n3 = lemma_run_runs(p, (i + 1) as usize, w1, less, stack);
                        lemma_drive_then(p, s0, 1 + n1 + 1, n3);
                        1 + n1 + 1 + n3
                    },
                    Ending::Signal(SignalView::Jump(target)) => {
                        let to = after(target, p.instrs.len());
                        assert(s3 == session(ControlView::Fetch(to), stack, w1));
                        let n3 = lemma_run_runs(p, to, w1, less, stack);
                        lemma_drive_then(p, s0, 1 + n1 + 1, n3);
                        1 + n1 + 1 + n3
                    },
                    Ending::Signal(_) => 1 + n1 + 1,
                    _ => 1 + n1,
                }
            },
            _ => {
                assert(s1 == session(ControlView::Fetch((i + 1) as usize), stack, w));
                let n1 = lemma_run_runs(p, (i + 1) as usize, w, less, stack);
                lemma_drive_then(p, s0, 1, n1);
                1 + n1
            },
        }
    }
}

/// The machine computes the evaluation of a call: from the point where it enters the call
/// `f`, with something waiting for the call's result, it comes in `n` transitions to where
/// the evaluation of `f` ends, in the same world, unless the evaluation takes more than the
/// depth allowed.
pub proof fn lemma_machine_evaluates_calls(
    p: ProgramView,
    f: FunView,
    w: World,
    depth: nat,
    stack: Seq<FrameView>,
) -> (n: nat)
    requires
        stack.len() > 0,
    ensures
        ended(
            eval(p, f, w, depth).0,
            stack,
            eval(p, f, w, depth).1,
            drive(p, session(ControlView::Enter(f), stack, w), n),
        ),
{
    lemma_eval_runs(p, f, w, depth, stack)
}

/// True where the session `s` is where a program that ends with `r` in the world `w`
/// leaves the machine: finished well after a clean end or a return, finished with the
/// error that stopped it, or at the end of the process.
pub open spec fn finished(r: Ending, w: World, s: Session) -> bool {
    &&& r !is Unfinished ==> s.machine.slots == w.slots && s.written == w.written && s.inputs
        == w.inputs
    &&& match r {
        Ending::Value(_) => s.machine.control == ControlView::Finished(Ok(())),
        Ending::Signal(SignalView::InterpreterError(e)) => s.machine.control
            == ControlView::Finished(Err(e)),
        Ending::Signal(_) => false,
        Ending::Exit => s.machine.control == ControlView::Exited,
        Ending::Unfinished => true,
    }
}

proof fn lemma_top_runs(p: ProgramView, i: usize, w: World, depth: nat) -> (n: nat)
    ensures
        finished(
            run_from(p, i, w, depth).0,
            run_from(p, i, w, depth).1,
            drive(p, session(ControlView::Fetch(i), Seq::empty(), w), n),
        ),
    decreases depth,
{
    let none = Seq::<FrameView>::empty();
    let s0 = session(ControlView::Fetch(i), none, w);
    lemma_drive_once(p, s0);
    let s1 = serve(p, s0);
    if i >= p.instrs.len() {
        1
    } else if depth == 0 {
        0
    } else {
        let less = (depth - 1) as nat;
        match p.instrs[i as int].instr {
            InstrView::FunCall(f) => {
                let inner = none.push(FrameView::Loop(i));
                assert(s1 == session(ControlView::Enter(f), inner, w));
                let n1 = lemma_eval_runs(p, f, w, less, inner);
                let (r, w1) = eval(p, f, w, less);
                let s2 = drive(p, s1, n1);
                lemma_drive_then(p, s0, 1, n1);
                lemma_popped(none, FrameView::Loop(i));
                lemma_drive_once(p, s2);
                lemma_drive_then(p, s0, 1 + n1, 1);
                let s3 = serve(p, s2);
                match r {
                    Ending::Value(_) => {
                        assert(s3 == session(ControlView::Fetch((i + 1) as usize), none, w1));
                        let n3 = lemma_top_runs(p, (i + 1) as usize, w1, less);
                        lemma_drive_then(p, s0, 1 + n1 + 1, n3);
                        1 + n1 + 1 + n3
                    },
                    Ending::Signal(SignalView::Jump(target)) => {
                        let to = after(target, p.instrs.len());
                        assert(s3 == session(ControlView::Fetch(to), none, w1));
                        let n3 = lemma_top_runs(p, to, w1, less);
                        lemma_drive_then(p, s0, 1 + n1 + 1, n3);
                        1 + n1 + 1 + n3
                    },
                    Ending::Signal(_) => {
                        lemma_drive_once(p, s3);
                        lemma_drive_then(p, s0, 1 + n1 + 1, 1);
                        1 + n1 + 1 + 1
                    },
                    _ => 1 + n1,
                }
            },
            _ => {
                assert(s1 == session(ControlView::Fetch((i + 1) as usize), none, w));
                let n1 = lemma_top_runs(p, (i + 1) as usize, w, less);
                lemma_drive_then(p, s0, 1, n1);
                1 + n1
            },
        }
    }
}

/// The machine computes the run of a program: from its start, served by an embedder that
/// gives it the lines `inputs`, it comes in `n` transitions to where the program ends,
/// with the slots, the output and the lines left that the program ends with, and stays
/// there, unless the program takes more than the depth allowed.
pub proof fn lemma_machine_runs_programs(
    p: ProgramView,
    inputs: Seq<Result<Seq<char>, ()>>,
    depth: nat,
) -> (n: nat)
    ensures
        forall|more: nat|
            finished(
                run_program(p, inputs, depth).0,
                run_program(p, inputs, depth).1,
                #[trigger] drive(
                    p,
                    Session { machine: start(), written: Seq::empty(), inputs },
                    n + more,
                ),
            ),
{
    let w = World { slots: Map::empty(), written: Seq::empty(), inputs };
    let s0 = Session { machine: start(), written: Seq::empty(), inputs };
    assert(session(ControlView::Fetch(0), Seq::empty(), w) == s0);
    let n = lemma_top_runs(p, 0, w, depth);
    assert forall|more: nat|
        finished(
            run_program(p, inputs, depth).0,
            run_program(p, inputs, depth).1,
            #[trigger] drive(p, s0, n + more),
        ) by {
        lemma_drive_then(p, s0, n, more);
        if !(run_program(p, inputs, depth).0 is Unfinished) {
            lemma_over_is_over(p, drive(p, s0, n), more);
        }
    }
    n
}

/// `s:` stores: where the first argument has the integer `k` as its value and the second
/// then has the value `v`, the call has no value and leaves `v` in slot `k` of the world
/// that its arguments left.
pub proof fn lemma_set_stores(
    p: ProgramView,
    a: ExprView,
    b: ExprView,
    w: World,
    depth: nat,
    k: isize,
    v: ValueView,
)
    requires
        arg(p, a, w, depth).0 == Ending::Value(ValueView::Int(k)),
        arg(p, b, arg(p, a, w, depth).1, depth).0 == Ending::Value(v),
    ensures
        eval(p, FunView::SetSlot(a, b), w, depth).0 == Ending::Value(ValueView::Nil),
        eval(p, FunView::SetSlot(a, b), w, depth).1 == (World {
            slots: arg(p, b, arg(p, a, w, depth).1, depth).1.slots.insert(k, v),
            ..arg(p, b, arg(p, a, w, depth).1, depth).1
        }),
        slot_value(eval(p, FunView::SetSlot(a, b), w, depth).1.slots, k) == v,
{
}

/// `g:` reads: where the argument has the integer `k` as its value, the call has the value
/// that slot `k` holds, and the absent value where it holds none. It is never an error, and
/// it leaves the world as its argument left it.
pub proof fn lemma_get_reads(p: ProgramView, a: ExprView, w: World, depth: nat, k: isize)
    requires
        arg(p, a, w, depth).0 == Ending::Value(ValueView::Int(k)),
    ensures
        eval(p, FunView::Get(a), w, depth) == (
            Ending::Value(slot_value(arg(p, a, w, depth).1.slots, k)),
            arg(p, a, w, depth).1,
        ),
        !arg(p, a, w, depth).1.slots.contains_key(k) ==> eval(p, FunView::Get(a), w, depth).0
            == Ending::Value(ValueView::Nil),
{
}

/// After `s:k v`, the call `g:k` has the value `v` in every world in which slot `k` still
/// holds what the store left there.
pub proof fn lemma_set_then_get(
    p: ProgramView,
    w: World,
    later: World,
    depth: nat,
    k: isize,
    v: ValueView,
)
    requires
        slot_value(later.slots, k) == slot_value(
            eval(
                p,
                FunView::SetSlot(ExprView::Value(ValueView::Int(k)), ExprView::Value(v)),
                w,
                depth,
            ).1.slots,
            k,
        ),
    ensures
        eval(p, FunView::Get(ExprView::Value(ValueView::Int(k))), later, depth) == (
            Ending::Value(v),
            later,
        ),
{
    let at = ExprView::Value(ValueView::Int(k));
    lemma_set_stores(p, at, ExprView::Value(v), w, depth, k, v);
    lemma_get_reads(p, at, later, depth, k);
}

/// `#:` catches: where the first argument names a label and the guarded argument ends
/// with an error, the call ends with a jump to the label and leaves the code of the error's
/// kind in slot `-1`.
pub proof fn lemma_catch_stores_the_code(
    p: ProgramView,
    a: ExprView,
    g: ExprView,
    w: World,
    depth: nat,
    name: Seq<char>,
    s: SignalView,
)
    requires
        arg(p, a, w, depth).0 == Ending::Value(ValueView::Str(name)),
        p.labels.contains_key(name),
        arg(p, g, arg(p, a, w, depth).1, depth).0 == Ending::Signal(s),
        caught(s) is Some,
    ensures
        eval(p, FunView::CatchError(a, g), w, depth).0 == Ending::Signal(
            SignalView::Jump(p.labels[name]),
        ),
        eval(p, FunView::CatchError(a, g), w, depth).1.slots == arg(
            p,
            g,
            arg(p, a, w, depth).1,
            depth,
        ).1.slots.insert(-1isize, ValueView::Int(error_number(caught(s)->0) as isize)),
        slot_value(eval(p, FunView::CatchError(a, g), w, depth).1.slots, -1isize)
            == ValueView::Int(error_number(caught(s)->0) as isize),
{
}

/// A thrown error that is caught leaves 400 in slot `-1`, and a type error 401.
pub proof fn lemma_catch_of_throw_and_type_error(
    p: ProgramView,
    w: World,
    depth: nat,
    name: Seq<char>,
    v: ValueView,
    x: Seq<char>,
)
    requires
        p.labels.contains_key(name),
    ensures
        ({
            let label = ExprView::Value(ValueView::Str(name));
            let throw = ExprView::FunCall(Box::new(FunView::ThrowError(ExprView::Value(v))));
            let get = ExprView::FunCall(
                Box::new(FunView::Get(ExprView::Value(ValueView::Str(x)))),
            );
            &&& eval(p, FunView::CatchError(label, throw), w, depth) == (
                Ending::Signal(SignalView::Jump(p.labels[name])),
                World { slots: w.slots.insert(-1isize, ValueView::Int(400)), ..w },
            )
            &&& eval(p, FunView::CatchError(label, get), w, depth) == (
                Ending::Signal(SignalView::Jump(p.labels[name])),
                World { slots: w.slots.insert(-1isize, ValueView::Int(401)), ..w },
            )
        }),
{
    let label = ExprView::Value(ValueView::Str(name));
    let thrown = FunView::ThrowError(ExprView::Value(v));
    let read = FunView::Get(ExprView::Value(ValueView::Str(x)));
    assert(arg(p, label, w, depth) == (Ending::Value(ValueView::Str(name)), w));
    assert(eval(p, thrown, w, depth).0 is Signal && eval(p, thrown, w, depth).1 == w);
    assert(eval(p, read, w, depth).0 is Signal && eval(p, read, w, depth).1 == w);
    lemma_catch_stores_the_code(
        p,
        label,
        ExprView::FunCall(Box::new(thrown)),
        w,
        depth,
        name,
        eval(p, thrown, w, depth).0->Signal_0,
    );
    lemma_catch_stores_the_code(
        p,
        label,
        ExprView::FunCall(Box::new(read)),
        w,
        depth,
        name,
        eval(p, read, w, depth).0->Signal_0,
    );
}

/// A jump continues the run after its target: where the call of instruction `i` ends with a
/// jump, the run from `i` on is the run from the instruction after the target on.
pub proof fn lemma_jump_continues_after_target(
    p: ProgramView,
    i: usize,
    w: World,
    depth: nat,
    f: FunView,
    target: usize,
)
    requires
        i < p.instrs.len() <= usize::MAX,
        depth > 0,
        p.instrs[i as int].instr == InstrView::FunCall(f),
        eval(p, f, w, (depth - 1) as nat).0 == Ending::Signal(SignalView::Jump(target)),
    ensures
        run_from(p, i, w, depth) == run_from(
            p,
            after(target, p.instrs.len()),
            eval(p, f, w, (depth - 1) as nat).1,
            (depth - 1) as nat,
        ),
        target < p.instrs.len() ==> after(target, p.instrs.len()) == target + 1,
{
}

} // verus!
