//! Run-time errors, control signals, and the machine that executes a program.

use vstd::prelude::*;
use crate::builtins::{
    apply_binary, apply_unary, binary, fail, failure, first_free, type_error, unary, Outcome,
    OutcomeView, SlotTable,
};
use crate::errors::Code;
use crate::parser::{
    Expr, ExprView, Fun, FunView, Instr, InstrInfo, InstrInfoView, InstrView, LabelTable, Value,
    ValueView,
};
use crate::text::{trim, trimmed};

verus! {

/// What went wrong while a call was evaluated.
#[derive(Debug, PartialEq)]
pub enum Error {
    /// An argument has the wrong type; `expected` is a sample of the right one.
    TypeError { expected: Value, got: Value },
    /// A jump names a label that the program does not define.
    LabelError(String),
    /// An argument has the right type and a value that the call cannot use.
    ValueError(Value),
    /// Every slot from zero up is taken.
    NoSlotError,
    /// Any other failure, with its message.
    Error(String),
}

/// What an [`Error`] stands for.
pub enum ErrorView {
    TypeError { expected: ValueView, got: ValueView },
    LabelError(Seq<char>),
    ValueError(ValueView),
    NoSlotError,
    Error(Seq<char>),
}

impl View for Error {
    type V = ErrorView;

    open spec fn view(&self) -> ErrorView {
        match self {
            Error::TypeError { expected, got } => ErrorView::TypeError {
                expected: expected@,
                got: got@,
            },
            Error::LabelError(name) => ErrorView::LabelError(name@),
            Error::ValueError(value) => ErrorView::ValueError(value@),
            Error::NoSlotError => ErrorView::NoSlotError,
            Error::Error(message) => ErrorView::Error(message@),
        }
    }
}

impl Clone for Error {
    fn clone(&self) -> (r: Self)
        ensures
            r@ == self@,
    {
        match self {
            Error::TypeError { expected, got } => Error::TypeError {
                expected: expected.clone(),
                got: got.clone(),
            },
            Error::LabelError(name) => Error::LabelError(name.clone()),
            Error::ValueError(value) => Error::ValueError(value.clone()),
            Error::NoSlotError => Error::NoSlotError,
            Error::Error(message) => Error::Error(message.clone()),
        }
    }
}

/// The number of an error kind: 401 for a type error, 402 for a label error, 403 for a
/// value error, 404 where no slot is free, 400 for any other.
pub open spec fn error_number(e: ErrorView) -> usize {
    match e {
        ErrorView::TypeError { .. } => 401,
        ErrorView::LabelError(_) => 402,
        ErrorView::ValueError(_) => 403,
        ErrorView::NoSlotError => 404,
        ErrorView::Error(_) => 400,
    }
}

/// The name of an error kind, as a diagnostic's headline shows it.
pub open spec fn error_name(e: ErrorView) -> Seq<char> {
    match e {
        ErrorView::TypeError { .. } => "TypeError"@,
        ErrorView::LabelError(_) => "LabelError"@,
        ErrorView::ValueError(_) => "ValueError"@,
        ErrorView::NoSlotError => "NoSlotError"@,
        ErrorView::Error(_) => "Error"@,
    }
}

impl Error {
    /// The code of this error's kind.
    pub fn error_code(&self) -> (r: Code)
        ensures
            r == Code::ErrCode(error_number(self@)),
    {
        Code::ErrCode(
            match self {
                Error::TypeError { .. } => 401,
                Error::LabelError(..) => 402,
                Error::ValueError(..) => 403,
                Error::NoSlotError => 404,
                Error::Error(..) => 400,
            },
        )
    }

    /// The name of this error's kind.
    pub fn to_string(&self) -> (r: String)
        ensures
            r@ == error_name(self@),
    {
        match self {
            Error::TypeError { .. } => String::from_str("TypeError"),
            Error::LabelError(..) => String::from_str("LabelError"),
            Error::ValueError(..) => String::from_str("ValueError"),
            Error::NoSlotError => String::from_str("NoSlotError"),
            Error::Error(..) => String::from_str("Error"),
        }
    }
}

/// An error with the call that raised it and an optional hint.
#[derive(Debug, PartialEq)]
pub struct ErrorInfo {
    pub error: Error,
    pub fun: Fun,
    pub note: Option<String>,
}

/// What an [`ErrorInfo`] stands for.
pub struct ErrorInfoView {
    pub error: ErrorView,
    pub fun: FunView,
    pub note: Option<Seq<char>>,
}

impl View for ErrorInfo {
    type V = ErrorInfoView;

    open spec fn view(&self) -> ErrorInfoView {
        ErrorInfoView { error: self.error@, fun: self.fun@, note: self.note.deep_view() }
    }
}

fn clone_note(note: &Option<String>) -> (r: Option<String>)
    ensures
        r.deep_view() == note.deep_view(),
{
    match note {
        Some(text) => Some(text.clone()),
        None => None,
    }
}

impl Clone for ErrorInfo {
    fn clone(&self) -> (r: Self)
        ensures
            r@ == self@,
    {
        ErrorInfo { error: self.error.clone(), fun: self.fun.clone(), note: clone_note(&self.note) }
    }
}

impl ErrorInfo {
    /// An error raised by `fun`.
    pub fn new(error: Error, fun: Fun, note: Option<String>) -> (r: Self)
        ensures
            r == (ErrorInfo { error, fun, note }),
    {
        Self { error, fun, note }
    }
}

/// An error that crossed an instruction boundary: it carries the instruction whose span a
/// diagnostic should show.
#[derive(Debug, PartialEq)]
pub struct InterpreterError {
    pub error_info: ErrorInfo,
    pub instr_info: InstrInfo,
}

/// What an [`InterpreterError`] stands for.
pub struct InterpreterErrorView {
    pub error_info: ErrorInfoView,
    pub instr_info: InstrInfoView,
}

impl View for InterpreterError {
    type V = InterpreterErrorView;

    open spec fn view(&self) -> InterpreterErrorView {
        InterpreterErrorView { error_info: self.error_info@, instr_info: self.instr_info@ }
    }
}

impl DeepView for InterpreterError {
    type V = InterpreterErrorView;

    open spec fn deep_view(&self) -> InterpreterErrorView {
        self@
    }
}

impl Clone for InterpreterError {
    fn clone(&self) -> (r: Self)
        ensures
            r@ == self@,
    {
        InterpreterError {
            error_info: self.error_info.clone(),
            instr_info: self.instr_info.clone(),
        }
    }
}

impl InterpreterError {
    /// An error located at an instruction.
    pub fn new(error_info: ErrorInfo, instr_info: InstrInfo) -> (r: Self)
        ensures
            r == (InterpreterError { error_info, instr_info }),
    {
        Self { error_info, instr_info }
    }
}

/// What a call hands up instead of a value.
#[derive(Debug, PartialEq)]
pub enum Signal {
    /// An error that no instruction boundary has seen yet.
    Error(ErrorInfo),
    /// An error that ended a run of instructions.
    InterpreterError(InterpreterError),
    /// Continue after the instruction with this index.
    Jump(usize),
    /// End the innermost run of instructions with this value.
    Return(Value),
}

/// What a [`Signal`] stands for.
pub enum SignalView {
    Error(ErrorInfoView),
    InterpreterError(InterpreterErrorView),
    Jump(usize),
    Return(ValueView),
}

impl View for Signal {
    type V = SignalView;

    open spec fn view(&self) -> SignalView {
        match self {
            Signal::Error(info) => SignalView::Error(info@),
            Signal::InterpreterError(error) => SignalView::InterpreterError(error@),
            Signal::Jump(target) => SignalView::Jump(*target),
            Signal::Return(value) => SignalView::Return(value@),
        }
    }
}

impl Clone for Signal {
    fn clone(&self) -> (r: Self)
        ensures
            r@ == self@,
    {
        match self {
            Signal::Error(info) => Signal::Error(info.clone()),
            Signal::InterpreterError(error) => Signal::InterpreterError(error.clone()),
            Signal::Jump(target) => Signal::Jump(*target),
            Signal::Return(value) => Signal::Return(value.clone()),
        }
    }
}

/// What the embedder read: a line, or nothing where the read failed.
pub open spec fn input_view(input: Result<String, ()>) -> Result<Seq<char>, ()> {
    match input {
        Ok(line) => Ok(line@),
        Err(_) => Err(()),
    }
}

/// How a run ended: well, or with the error that stopped it.
pub open spec fn result_view(r: Result<(), InterpreterError>) -> Result<(), InterpreterErrorView> {
    match r {
        Ok(_) => Ok(()),
        Err(e) => Err(e@),
    }
}

fn clone_result(r: &Result<(), InterpreterError>) -> (c: Result<(), InterpreterError>)
    ensures
        result_view(c) == result_view(*r),
{
    match r {
        Ok(_) => Ok(()),
        Err(e) => Err(e.clone()),
    }
}

/// A program as the machine reads it: the label table and the instructions.
pub struct ProgramView {
    pub labels: Map<Seq<char>, usize>,
    pub instrs: Seq<InstrInfoView>,
}

/// What the machine keeps of a call or a run that waits for a result.
pub enum FrameView {
    /// The call waits for its first argument.
    First(FunView),
    /// The call has its first argument and waits for its second.
    Second(FunView, ValueView),
    /// A `s:` waits for the value that goes into this slot.
    Store(isize),
    /// A `#:` guards what is evaluated above it: an error there continues after this line.
    Guard(usize),
    /// A run of instructions waits for the call of the instruction with this index.
    Loop(usize),
}

/// What the machine does next.
pub enum ControlView {
    /// Take up the instruction with this index in the innermost run.
    Fetch(usize),
    /// Evaluate this call.
    Enter(FunView),
    /// Hand this value to the frame on top.
    Yield(ValueView),
    /// Hand this signal down the stack.
    Unwind(SignalView),
    /// Wait for a line of input.
    Await,
    /// The script has asked for the process to end.
    Exited,
    /// The run is over.
    Finished(Result<(), InterpreterErrorView>),
}

/// The state of the machine.
pub struct MachineView {
    pub slots: Map<isize, ValueView>,
    pub stack: Seq<FrameView>,
    pub control: ControlView,
}

/// What the embedder has to do after a transition.
pub enum ActionView {
    /// Nothing: take the next transition.
    Continue,
    /// Write this text to the output, then take the next transition.
    Write(Seq<char>),
    /// Read a line of input and hand it to the machine.
    Read,
    /// End the process with success.
    Exit,
    /// Stop: the run is over, with this result.
    Finished(Result<(), InterpreterErrorView>),
}

/// The state in which a run starts: no slot set, nothing waiting, the first instruction next.
pub open spec fn start() -> MachineView {
    MachineView { slots: Map::empty(), stack: Seq::empty(), control: ControlView::Fetch(0) }
}

/// The shape of every machine that a run reaches: each run on the stack is at an
/// instruction of the program, the frame at the bottom is a run, and a call, a wait for
/// input or a signal that is no located error has a run below it.
pub open spec fn shaped(p: ProgramView, m: MachineView) -> bool {
    &&& forall|k: int|
        0 <= k < m.stack.len() ==> match #[trigger] m.stack[k] {
            FrameView::Loop(i) => i < p.instrs.len(),
            _ => k > 0,
        }
    &&& match m.control {
        ControlView::Enter(_) | ControlView::Await => m.stack.len() > 0,
        ControlView::Unwind(s) => s is InterpreterError || m.stack.len() > 0,
        _ => true,
    }
}

/// The index at which a run continues after the instruction `at`: the next one, and the end
/// of the program where `at` lies outside it.
pub open spec fn after(at: usize, len: nat) -> usize {
    if at < len {
        (at + 1) as usize
    } else {
        len as usize
    }
}

/// How the evaluation of an argument starts: a literal is its value, a call is entered.
pub open spec fn begin(e: ExprView) -> ControlView {
    match e {
        ExprView::Value(v) => ControlView::Yield(v),
        ExprView::FunCall(f) => ControlView::Enter(*f),
    }
}

/// The first argument of a call; for a call without arguments, the absent value.
pub open spec fn first_arg(f: FunView) -> ExprView {
    match f {
        FunView::SetSlot(a, _) => a,
        FunView::Get(a) => a,
        FunView::Write(a) => a,
        FunView::Print(a) => a,
        FunView::Add(a, _) => a,
        FunView::Jump(a) => a,
        FunView::Equal(a, _) => a,
        FunView::Convert(a) => a,
        FunView::Extract(a, _) => a,
        FunView::If(a, _) => a,
        FunView::Text(a) => a,
        FunView::Number(a) => a,
        FunView::CatchError(a, _) => a,
        FunView::ThrowError(a) => a,
        FunView::Return(a) => a,
        FunView::FunJump(a) => a,
        _ => ExprView::Value(ValueView::Nil),
    }
}

/// What the action is that a state asks of the embedder.
pub open spec fn pending(c: ControlView) -> ActionView {
    match c {
        ControlView::Await => ActionView::Read,
        ControlView::Exited => ActionView::Exit,
        ControlView::Finished(r) => ActionView::Finished(r),
        _ => ActionView::Continue,
    }
}

/// The control loop takes up instruction `i`.
///
/// Past the last instruction the run is over: the outermost run finishes the program, an
/// inner one has the absent value. A label's line does nothing. A call is entered, with a
/// frame that remembers its line.
pub open spec fn fetch(p: ProgramView, m: MachineView, i: usize) -> MachineView {
    if i >= p.instrs.len() {
        if m.stack.len() == 0 {
            MachineView { control: ControlView::Finished(Ok(())), ..m }
        } else {
            MachineView { control: ControlView::Yield(ValueView::Nil), ..m }
        }
    } else {
        match p.instrs[i as int].instr {
            InstrView::FunCall(f) => MachineView {
                stack: m.stack.push(FrameView::Loop(i)),
                control: ControlView::Enter(f),
                ..m
            },
            _ => MachineView { control: ControlView::Fetch((i + 1) as usize), ..m },
        }
    }
}

/// The machine enters the call `f`.
///
/// `i` asks for input, `k` has no value, `~` is the first free slot or fails where none is
/// free, `$` ends the process. Any other call waits for its first argument.
pub open spec fn enter(m: MachineView, f: FunView) -> MachineView {
    match f {
        FunView::Input => MachineView { control: ControlView::Await, ..m },
        FunView::KeyChar => MachineView { control: ControlView::Yield(ValueView::Nil), ..m },
        FunView::EmptySlot => match first_free(m.slots) {
            Some(n) => MachineView { control: ControlView::Yield(ValueView::Int(n)), ..m },
            None => MachineView {
                control: ControlView::Unwind(
                    SignalView::Error(
                        ErrorInfoView {
                            error: ErrorView::NoSlotError,
                            fun: f,
                            note: Some("At this point, you better use a known number"@),
                        },
                    ),
                ),
                ..m
            },
        },
        FunView::Exit => MachineView { control: ControlView::Exited, ..m },
        _ => MachineView {
            stack: m.stack.push(FrameView::First(f)),
            control: begin(first_arg(f)),
            ..m
        },
    }
}

/// The machine goes on with the outcome of a call.
pub open spec fn settle(m: MachineView, o: OutcomeView) -> (MachineView, ActionView) {
    match o {
        OutcomeView::Yield(v) => (
            MachineView { control: ControlView::Yield(v), ..m },
            ActionView::Continue,
        ),
        OutcomeView::Raise(s) => (
            MachineView { control: ControlView::Unwind(s), ..m },
            ActionView::Continue,
        ),
        OutcomeView::Emit(text) => (
            MachineView { control: ControlView::Yield(ValueView::Nil), ..m },
            ActionView::Write(text),
        ),
        OutcomeView::Run(i) => (
            MachineView { control: ControlView::Fetch(i), ..m },
            ActionView::Continue,
        ),
    }
}

/// The call `f` has its first argument, `v`; `m` is the machine without the call's frame.
///
/// - `s:` wants an integer for the slot and then evaluates the value to store.
/// - `?:` evaluates its second argument where `v` is truthy, and has no value otherwise.
/// - `#:` wants a text that names a label and then evaluates its second argument under a
///   guard.
/// - `a:`, `=:` and `x:` evaluate their second argument.
/// - Any other call is complete.
pub open spec fn first_done(p: ProgramView, m: MachineView, f: FunView, v: ValueView) -> (
    MachineView,
    ActionView,
) {
    match f {
        FunView::SetSlot(_, e) => match v {
            ValueView::Int(k) => (
                MachineView { stack: m.stack.push(FrameView::Store(k)), control: begin(e), ..m },
                ActionView::Continue,
            ),
            _ => settle(m, type_error(f, ValueView::Int(0), v)),
        },
        FunView::If(_, e) => if crate::builtins::truthy(v) {
            (MachineView { control: begin(e), ..m }, ActionView::Continue)
        } else {
            (MachineView { control: ControlView::Yield(ValueView::Nil), ..m }, ActionView::Continue)
        },
        FunView::CatchError(_, e) => match v {
            ValueView::Str(name) => if p.labels.contains_key(name) {
                (
                    MachineView {
                        stack: m.stack.push(FrameView::Guard(p.labels[name])),
                        control: begin(e),
                        ..m
                    },
                    ActionView::Continue,
                )
            } else {
                settle(m, fail(f, ErrorView::LabelError(name), None))
            },
            _ => settle(m, type_error(f, ValueView::Str(Seq::empty()), v)),
        },
        FunView::Add(_, e) | FunView::Equal(_, e) | FunView::Extract(_, e) => (
            MachineView { stack: m.stack.push(FrameView::Second(f, v)), control: begin(e), ..m },
            ActionView::Continue,
        ),
        _ => settle(m, unary(p.labels, m.slots, f, v)),
    }
}

/// The value `v` reaches the frame on top of the stack.
///
/// With nothing waiting the program is over. A run drops the value of an instruction's call
/// and goes to the next instruction. A guard hands the value on. A call takes it as the
/// argument it waited for. A store puts it in its slot and has no value.
pub open spec fn deliver(p: ProgramView, m: MachineView, v: ValueView) -> (
    MachineView,
    ActionView,
) {
    if m.stack.len() == 0 {
        (MachineView { control: ControlView::Finished(Ok(())), ..m }, ActionView::Finished(Ok(())))
    } else {
        let rest = MachineView { stack: m.stack.drop_last(), ..m };
        match m.stack.last() {
            FrameView::Loop(i) => (
                MachineView { control: ControlView::Fetch(after(i, p.instrs.len())), ..rest },
                ActionView::Continue,
            ),
            FrameView::Guard(_) => (
                MachineView { control: ControlView::Yield(v), ..rest },
                ActionView::Continue,
            ),
            FrameView::First(f) => first_done(p, rest, f, v),
            FrameView::Second(f, a) => settle(rest, binary(f, a, v)),
            FrameView::Store(k) => (
                MachineView {
                    slots: m.slots.insert(k, v),
                    control: ControlView::Yield(ValueView::Nil),
                    ..rest
                },
                ActionView::Continue,
            ),
        }
    }
}

/// The error that a guard intercepts in a signal.
pub open spec fn caught(s: SignalView) -> Option<ErrorView> {
    match s {
        SignalView::Error(info) => Some(info.error),
        SignalView::InterpreterError(e) => Some(e.error_info.error),
        _ => None,
    }
}

/// The signal `s` passes the frame on top of the stack.
///
/// - A call that waits for an argument is given up.
/// - A guard turns an error into a jump to its label and stores the error's code in slot
///   `-1`; it lets a jump or a return pass.
/// - A run ends on a return, whose value goes to the frame below; it continues after the
///   target of a jump; it ends on an error, which from there on carries the instruction that
///   was running.
/// - With nothing waiting the program is over, with the error if the signal is one.
pub open spec fn unwind(p: ProgramView, m: MachineView, s: SignalView) -> MachineView {
    if m.stack.len() == 0 {
        match s {
            SignalView::InterpreterError(e) => MachineView {
                control: ControlView::Finished(Err(e)),
                ..m
            },
            _ => MachineView { control: ControlView::Finished(Ok(())), ..m },
        }
    } else {
        let rest = MachineView {
            stack: m.stack.drop_last(),
            control: ControlView::Unwind(s),
            ..m
        };
        match m.stack.last() {
            FrameView::Guard(target) => match caught(s) {
                Some(e) => MachineView {
                    slots: m.slots.insert(-1isize, ValueView::Int(error_number(e) as isize)),
                    control: ControlView::Unwind(SignalView::Jump(target)),
                    ..rest
                },
                None => rest,
            },
            FrameView::Loop(i) => match s {
                SignalView::Error(info) => if i < p.instrs.len() {
                    MachineView {
                        control: ControlView::Unwind(
                            SignalView::InterpreterError(
                                InterpreterErrorView {
                                    error_info: info,
                                    instr_info: p.instrs[i as int],
                                },
                            ),
                        ),
                        ..rest
                    }
                } else {
                    rest
                },
                SignalView::InterpreterError(_) => rest,
                SignalView::Return(v) => MachineView { control: ControlView::Yield(v), ..rest },
                SignalView::Jump(target) => MachineView {
                    control: ControlView::Fetch(after(target, p.instrs.len())),
                    ..rest
                },
            },
            _ => rest,
        }
    }
}

/// One transition of the machine, and what the embedder has to do after it.
pub open spec fn step(p: ProgramView, m: MachineView) -> (MachineView, ActionView) {
    match m.control {
        ControlView::Fetch(i) => {
            let next = fetch(p, m, i);
            (next, pending(next.control))
        },
        ControlView::Enter(f) => {
            let next = enter(m, f);
            (next, pending(next.control))
        },
        ControlView::Yield(v) => deliver(p, m, v),
        ControlView::Unwind(s) => {
            let next = unwind(p, m, s);
            (next, pending(next.control))
        },
        _ => (m, pending(m.control)),
    }
}

/// The machine takes a line of input, or the failure to read one.
///
/// A machine that waits for input goes on with the line, trimmed, as the value of `i`, or
/// with an error where the read failed. Any other machine stays as it is.
pub open spec fn resume(m: MachineView, input: Result<Seq<char>, ()>) -> MachineView {
    match m.control {
        ControlView::Await => match input {
            Ok(line) => MachineView { control: ControlView::Yield(ValueView::Str(trim(line))), ..m },
            Err(_) => MachineView {
                control: ControlView::Unwind(
                    SignalView::Error(
                        ErrorInfoView {
                            error: ErrorView::Error("Failed to receive an input"@),
                            fun: FunView::Input,
                            note: None,
                        },
                    ),
                ),
                ..m
            },
        },
        _ => m,
    }
}

/// A call or a run that waits for a result.
enum Frame<'a> {
    First(&'a Fun),
    Second(&'a Fun, Value),
    Store(isize),
    Guard(usize),
    Loop(usize),
}

impl<'a> DeepView for Frame<'a> {
    type V = FrameView;

    closed spec fn deep_view(&self) -> FrameView {
        match self {
            Frame::First(f) => FrameView::First(f@),
            Frame::Second(f, a) => FrameView::Second(f@, a@),
            Frame::Store(k) => FrameView::Store(*k),
            Frame::Guard(target) => FrameView::Guard(*target),
            Frame::Loop(i) => FrameView::Loop(*i),
        }
    }
}

/// What the machine does next.
enum Control<'a> {
    Fetch(usize),
    Enter(&'a Fun),
    Yield(Value),
    Unwind(Signal),
    Await,
    Exited,
    Finished(Result<(), InterpreterError>),
}

impl<'a> View for Control<'a> {
    type V = ControlView;

    closed spec fn view(&self) -> ControlView {
        match self {
            Control::Fetch(i) => ControlView::Fetch(*i),
            Control::Enter(f) => ControlView::Enter(f@),
            Control::Yield(v) => ControlView::Yield(v@),
            Control::Unwind(s) => ControlView::Unwind(s@),
            Control::Await => ControlView::Await,
            Control::Exited => ControlView::Exited,
            Control::Finished(r) => ControlView::Finished(result_view(*r)),
        }
    }
}

/// What the embedder has to do after a transition of the machine.
#[derive(Debug, PartialEq)]
pub enum Action {
    /// Nothing: take the next transition.
    Continue,
    /// Write this text to the output, then take the next transition. A failure to write is
    /// of no concern to the machine.
    Write(String),
    /// Read a line of input and hand it, or the failure to read, to [`Machine::resume`].
    Read,
    /// End the process with success.
    Exit,
    /// Stop: the run is over, with this result.
    Finished(Result<(), InterpreterError>),
}

impl View for Action {
    type V = ActionView;

    open spec fn view(&self) -> ActionView {
        match self {
            Action::Continue => ActionView::Continue,
            Action::Write(text) => ActionView::Write(text@),
            Action::Read => ActionView::Read,
            Action::Exit => ActionView::Exit,
            Action::Finished(r) => ActionView::Finished(result_view(*r)),
        }
    }
}

/// The interpreter as a state machine over a program that it borrows.
///
/// The machine never blocks and never runs on by itself: [`interpret_instrs`] takes one
/// transition and says what the embedder has to do before the next, so that output, input
/// and the end of the process stay with the embedder. A script that never ends is a
/// machine that never says that it has finished.
pub struct Machine<'a> {
    labels: &'a LabelTable,
    instrs: &'a Vec<InstrInfo>,
    slots: SlotTable,
    stack: Vec<Frame<'a>>,
    control: Control<'a>,
}

impl<'a> View for Machine<'a> {
    type V = MachineView;

    closed spec fn view(&self) -> MachineView {
        MachineView {
            slots: self.slots@,
            stack: self.stack.deep_view(),
            control: self.control@,
        }
    }
}

fn start_arg<'a>(e: &'a Expr) -> (c: Control<'a>)
    ensures
        c@ == begin(e@),
{
    match e {
        Expr::Value(v) => Control::Yield(v.clone()),
        Expr::FunCall(f) => Control::Enter(&**f),
    }
}

impl<'a> Machine<'a> {
    /// The program that the machine runs.
    pub closed spec fn program(&self) -> ProgramView {
        ProgramView { labels: self.labels@, instrs: self.instrs.deep_view() }
    }

    fn push(&mut self, frame: Frame<'a>)
        ensures
            final(self)@ == (MachineView {
                stack: old(self)@.stack.push(frame.deep_view()),
                ..old(self)@
            }),
            final(self).program() == old(self).program(),
    {
        self.stack.push(frame);
        assert(final(self).stack.deep_view() =~= old(self).stack.deep_view().push(
            frame.deep_view(),
        ));
    }

    fn pop(&mut self) -> (top: Option<Frame<'a>>)
        ensures
            final(self).program() == old(self).program(),
            match top {
                Some(frame) => {
                    &&& old(self)@.stack.len() > 0
                    &&& frame.deep_view() == old(self)@.stack.last()
                    &&& final(self)@ == (MachineView {
                        stack: old(self)@.stack.drop_last(),
                        ..old(self)@
                    })
                },
                None => old(self)@.stack.len() == 0 && final(self)@ == old(self)@,
            },
    {
        let top = self.stack.pop();
        assert(top is Some ==> final(self).stack.deep_view() =~= old(
            self,
        ).stack.deep_view().drop_last());
        top
    }

    fn go(&mut self, control: Control<'a>)
        ensures
            final(self)@ == (MachineView { control: control@, ..old(self)@ }),
            final(self).program() == old(self).program(),
    {
        self.control = control;
    }

    pub(crate) fn pending(&self) -> (action: Action)
        ensures
            action@ == pending(self@.control),
    {
        match &self.control {
            Control::Await => Action::Read,
            Control::Exited => Action::Exit,
            Control::Finished(r) => Action::Finished(clone_result(r)),
            _ => Action::Continue,
        }
    }

    fn fetch(&mut self, i: usize)
        ensures
            final(self)@ == fetch(old(self).program(), old(self)@, i),
            final(self).program() == old(self).program(),
    {
        let instrs: &'a Vec<InstrInfo> = self.instrs;
        if i >= instrs.len() {
            if self.stack.len() == 0 {
                self.go(Control::Finished(Ok(())));
            } else {
                self.go(Control::Yield(Value::Nil));
            }
        } else {
            match &instrs[i].instr {
                Instr::FunCall(f) => {
                    self.push(Frame::Loop(i));
                    self.go(Control::Enter(&**f));
                },
                _ => {
                    self.go(Control::Fetch(i + 1));
                },
            }
        }
    }

    fn enter(&mut self, fun: &'a Fun)
        ensures
            final(self)@ == enter(old(self)@, fun@),
            final(self).program() == old(self).program(),
    {
        match fun {
            Fun::Input => self.go(Control::Await),
            Fun::KeyChar => self.go(Control::Yield(Value::Nil)),
            Fun::EmptySlot => match self.slots.first_free() {
                Some(n) => self.go(Control::Yield(Value::Int(n))),
                None => self.go(
                    Control::Unwind(
                        Signal::Error(
                            ErrorInfo::new(
                                Error::NoSlotError,
                                fun.clone(),
                                Some(
                                    String::from_str("At this point, you better use a known number"),
                                ),
                            ),
                        ),
                    ),
                ),
            },
            Fun::Exit => self.go(Control::Exited),
            Fun::SetSlot(a, _)
            | Fun::Add(a, _)
            | Fun::Equal(a, _)
            | Fun::Extract(a, _)
            | Fun::If(a, _)
            | Fun::CatchError(a, _)
            | Fun::Get(a)
            | Fun::Write(a)
            | Fun::Print(a)
            | Fun::Jump(a)
            | Fun::Convert(a)
            | Fun::Text(a)
            | Fun::Number(a)
            | Fun::ThrowError(a)
            | Fun::Return(a)
            | Fun::FunJump(a) => {
                self.push(Frame::First(fun));
                self.go(start_arg(a));
            },
        }
    }

    fn settle(&mut self, outcome: Outcome) -> (action: Action)
        ensures
            (final(self)@, action@) == settle(old(self)@, outcome@),
            final(self).program() == old(self).program(),
    {
        match outcome {
            Outcome::Yield(v) => {
                self.go(Control::Yield(v));
                Action::Continue
            },
            Outcome::Raise(s) => {
                self.go(Control::Unwind(s));
                Action::Continue
            },
            Outcome::Emit(text) => {
                self.go(Control::Yield(Value::Nil));
                Action::Write(text)
            },
            Outcome::Run(i) => {
                self.go(Control::Fetch(i));
                Action::Continue
            },
        }
    }

    fn first_done(&mut self, fun: &'a Fun, v: Value) -> (action: Action)
        ensures
            (final(self)@, action@) == first_done(old(self).program(), old(self)@, fun@, v@),
            final(self).program() == old(self).program(),
    {
        match fun {
            Fun::SetSlot(_, e) => match v {
                Value::Int(k) => {
                    self.push(Frame::Store(k));
                    self.go(start_arg(e));
                    Action::Continue
                },
                _ => {
                    let outcome = failure(
                        fun,
                        Error::TypeError { expected: Value::Int(0), got: v },
                        None,
                    );
                    self.settle(outcome)
                },
            },
            Fun::If(_, e) => {
                let holds = match &v {
                    Value::Str(s) => s.as_str().unicode_len() > 0,
                    Value::Int(n) => *n != 0,
                    Value::Nil => false,
                };
                if holds {
                    self.go(start_arg(e));
                } else {
                    self.go(Control::Yield(Value::Nil));
                }
                Action::Continue
            },
            Fun::CatchError(_, e) => match v {
                Value::Str(name) => match self.labels.get(name.as_str()) {
                    Some(target) => {
                        self.push(Frame::Guard(target));
                        self.go(start_arg(e));
                        Action::Continue
                    },
                    None => {
                        let outcome = failure(fun, Error::LabelError(name), None);
                        self.settle(outcome)
                    },
                },
                _ => {
                    let outcome = failure(
                        fun,
                        Error::TypeError { expected: Value::Str(String::new()), got: v },
                        None,
                    );
                    self.settle(outcome)
                },
            },
            Fun::Add(_, e) | Fun::Equal(_, e) | Fun::Extract(_, e) => {
                self.push(Frame::Second(fun, v));
                self.go(start_arg(e));
                Action::Continue
            },
            _ => {
                let outcome = apply_unary(self.labels, &self.slots, fun, v);
                self.settle(outcome)
            },
        }
    }

    fn deliver(&mut self, v: Value) -> (action: Action)
        ensures
            (final(self)@, action@) == deliver(old(self).program(), old(self)@, v@),
            final(self).program() == old(self).program(),
    {
        match self.pop() {
            None => {
                self.go(Control::Finished(Ok(())));
                Action::Finished(Ok(()))
            },
            Some(Frame::Loop(i)) => {
                let len = self.instrs.len();
                let next = if i < len {
                    i + 1
                } else {
                    len
                };
                self.go(Control::Fetch(next));
                Action::Continue
            },
            Some(Frame::Guard(_)) => {
                self.go(Control::Yield(v));
                Action::Continue
            },
            Some(Frame::First(fun)) => self.first_done(fun, v),
            Some(Frame::Second(fun, a)) => {
                let outcome = apply_binary(fun, a, v);
                self.settle(outcome)
            },
            Some(Frame::Store(k)) => {
                self.slots.insert(k, v);
                self.go(Control::Yield(Value::Nil));
                Action::Continue
            },
        }
    }

    fn unwind(&mut self, s: Signal)
        ensures
            final(self)@ == unwind(old(self).program(), old(self)@, s@),
            final(self).program() == old(self).program(),
    {
        match self.pop() {
            None => match s {
                Signal::InterpreterError(e) => self.go(Control::Finished(Err(e))),
                _ => self.go(Control::Finished(Ok(()))),
            },
            Some(Frame::Guard(target)) => {
                let code: Option<isize> = match &s {
                    Signal::Error(info) => Some(info.error.error_code().as_isize()),
                    Signal::InterpreterError(e) => Some(
                        e.error_info.error.error_code().as_isize(),
                    ),
                    _ => None,
                };
                match code {
                    Some(number) => {
                        self.slots.insert(-1, Value::Int(number));
                        self.go(Control::Unwind(Signal::Jump(target)));
                    },
                    None => self.go(Control::Unwind(s)),
                }
            },
            Some(Frame::Loop(i)) => {
                let instrs: &'a Vec<InstrInfo> = self.instrs;
                let len = instrs.len();
                match s {
                    Signal::Error(info) => if i < len {
                        self.go(
                            Control::Unwind(
                                Signal::InterpreterError(
                                    InterpreterError::new(info, instrs[i].clone()),
                                ),
                            ),
                        );
                    } else {
                        self.go(Control::Unwind(Signal::Error(info)));
                    },
                    Signal::InterpreterError(e) => self.go(
                        Control::Unwind(Signal::InterpreterError(e)),
                    ),
                    Signal::Return(v) => self.go(Control::Yield(v)),
                    Signal::Jump(target) => {
                        let next = if target < len {
                            target + 1
                        } else {
                            len
                        };
                        self.go(Control::Fetch(next));
                    },
                }
            },
            Some(_) => self.go(Control::Unwind(s)),
        }
    }

    /// Hands the machine the line that the embedder read, or the failure to read one.
    pub fn resume(&mut self, input: Result<String, ()>)
        ensures
            final(self)@ == resume(old(self)@, input_view(input)),
            final(self).program() == old(self).program(),
            shaped(old(self).program(), old(self)@) ==> shaped(
                final(self).program(),
                final(self)@,
            ),
    {
        proof {
            if shaped(old(self).program(), old(self)@) {
                crate::machine_laws::lemma_resume_keeps_shape(
                    old(self).program(),
                    old(self)@,
                    input_view(input),
                );
            }
        }
        match &self.control {
            Control::Await => match input {
                Ok(line) => self.go(Control::Yield(Value::Str(trimmed(line.as_str())))),
                Err(_) => self.go(
                    Control::Unwind(
                        Signal::Error(
                            ErrorInfo::new(
                                Error::Error(String::from_str("Failed to receive an input")),
                                Fun::Input,
                                None,
                            ),
                        ),
                    ),
                ),
            },
            _ => {},
        }
    }

    /// Reads slot `k` of the machine's slot table.
    pub fn slot(&self, k: isize) -> (r: Value)
        ensures
            r@ == crate::builtins::slot_value(self@.slots, k),
    {
        self.slots.get(k)
    }
}

/// Sets a machine up for a program: no slot is set and the first instruction is next.
pub fn interpret<'a>(labels: &'a LabelTable, instr_infos: &'a Vec<InstrInfo>) -> (machine: Machine<
    'a,
>)
    ensures
        machine@ == start(),
        machine.program() == (ProgramView {
            labels: labels@,
            instrs: instr_infos.deep_view(),
        }),
        shaped(machine.program(), machine@),
{
    let machine = Machine {
        labels,
        instrs: instr_infos,
        slots: SlotTable::new(),
        stack: Vec::new(),
        control: Control::Fetch(0),
    };
    assert(machine.stack.deep_view() =~= Seq::empty());
    machine
}

/// Begins the evaluation of the call `fun` in place of what the machine was about to do.
/// The call is evaluated for the instruction that is running, so there must be one.
pub fn interpret_fun_call<'a>(machine: &mut Machine<'a>, fun: &'a Fun) -> (action: Action)
    requires
        old(machine)@.stack.len() > 0,
    ensures
        final(machine)@ == enter(old(machine)@, fun@),
        action@ == pending(final(machine)@.control),
        final(machine).program() == old(machine).program(),
        shaped(old(machine).program(), old(machine)@) ==> shaped(
            final(machine).program(),
            final(machine)@,
        ),
{
    proof {
        if shaped(old(machine).program(), old(machine)@) {
            crate::machine_laws::lemma_enter_keeps_shape(
                old(machine).program(),
                old(machine)@,
                fun@,
            );
        }
    }
    machine.enter(fun);
    machine.pending()
}

/// Takes one transition of the machine and says what the embedder has to do after it.
pub fn interpret_instrs<'a>(machine: &mut Machine<'a>) -> (action: Action)
    ensures
        (final(machine)@, action@) == step(old(machine).program(), old(machine)@),
        final(machine).program() == old(machine).program(),
        shaped(old(machine).program(), old(machine)@) ==> shaped(
            final(machine).program(),
            final(machine)@,
        ),
{
    proof {
        if shaped(old(machine).program(), old(machine)@) {
            crate::machine_laws::lemma_step_keeps_shape(old(machine).program(), old(machine)@);
        }
    }
    let mut control = Control::Exited;
    core::mem::swap(&mut machine.control, &mut control);
    match control {
        Control::Fetch(i) => {
            machine.fetch(i);
            machine.pending()
        },
        Control::Enter(fun) => {
            machine.enter(fun);
            machine.pending()
        },
        Control::Yield(v) => machine.deliver(v),
        Control::Unwind(s) => {
            machine.unwind(s);
            machine.pending()
        },
        other => {
            machine.go(other);
            machine.pending()
        },
    }
}

} // verus!
