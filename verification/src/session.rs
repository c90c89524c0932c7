//! A machine together with an embedder that serves it from lines given in advance.

use vstd::prelude::*;
use crate::interpreter::{
    input_view, interpret_instrs, pending, resume, step, Action, ActionView, ControlView, Machine,
    MachineView, ProgramView,
};

verus! {

/// What a read gives: the next line, and a failure where none is left.
pub open spec fn next_line(inputs: Seq<Result<Seq<char>, ()>>) -> Result<Seq<char>, ()> {
    if inputs.len() > 0 {
        inputs[0]
    } else {
        Err(())
    }
}

/// The lines that are left after a read.
pub open spec fn lines_left(inputs: Seq<Result<Seq<char>, ()>>) -> Seq<Result<Seq<char>, ()>> {
    if inputs.len() > 0 {
        inputs.drop_first()
    } else {
        inputs
    }
}

/// A machine with the embedder that serves it: what was written and what is left to read.
pub struct Session {
    pub machine: MachineView,
    pub written: Seq<Seq<char>>,
    pub inputs: Seq<Result<Seq<char>, ()>>,
}

/// One transition of the machine and what the embedder does for it: it writes what the
/// machine asks it to write, and hands the machine the next line when it asks for one.
pub open spec fn serve(p: ProgramView, s: Session) -> Session {
    let (m, action) = step(p, s.machine);
    match action {
        ActionView::Write(text) => Session { machine: m, written: s.written.push(text), ..s },
        ActionView::Read => Session {
            machine: resume(m, next_line(s.inputs)),
            inputs: lines_left(s.inputs),
            ..s
        },
        _ => Session { machine: m, ..s },
    }
}

/// The session after `n` transitions.
pub open spec fn drive(p: ProgramView, s: Session, n: nat) -> Session
    decreases n,
{
    if n == 0 {
        s
    } else {
        drive(p, serve(p, s), (n - 1) as nat)
    }
}

/// A session whose run is over stays as it is.
pub proof fn lemma_over_is_over(p: ProgramView, s: Session, n: nat)
    requires
        s.machine.control is Exited || s.machine.control is Finished,
    ensures
        drive(p, s, n) == s,
    decreases n,
{
    if n > 0 {
        assert(serve(p, s) == s);
        lemma_over_is_over(p, s, (n - 1) as nat);
    }
}

/// The lines that a script will be given, each a line or a failure to read.
pub open spec fn lines_view(lines: Seq<Result<String, ()>>) -> Seq<Result<Seq<char>, ()>> {
    Seq::new(lines.len(), |i: int| input_view(lines[i]))
}

/// An embedder that works from a script: it gives the machine the lines that it was made
/// with, one for each read and a failure when they are used up, and keeps what the machine
/// writes.
pub struct Console {
    lines: Vec<Result<String, ()>>,
    read: usize,
    written: Vec<String>,
}

impl Console {
    /// The lines that are left to read.
    pub closed spec fn inputs(&self) -> Seq<Result<Seq<char>, ()>> {
        if self.read <= self.lines.len() {
            lines_view(self.lines@).skip(self.read as int)
        } else {
            Seq::empty()
        }
    }

    /// The texts that were written, in order.
    pub closed spec fn output(&self) -> Seq<Seq<char>> {
        self.written.deep_view()
    }

    /// A console that will give `lines` and has nothing written.
    pub fn new(lines: Vec<Result<String, ()>>) -> (r: Self)
        ensures
            r.inputs() == lines_view(lines@),
            r.output() == Seq::<Seq<char>>::empty(),
    {
        let r = Console { lines, read: 0, written: Vec::new() };
        assert(r.inputs() =~= lines_view(lines@));
        assert(r.output() =~= Seq::<Seq<char>>::empty());
        r
    }

    /// What was written so far.
    pub fn written(&self) -> (r: &Vec<String>)
        ensures
            r.deep_view() == self.output(),
    {
        &self.written
    }

    fn write(&mut self, text: String)
        ensures
            final(self).output() == old(self).output().push(text@),
            final(self).inputs() == old(self).inputs(),
    {
        self.written.push(text);
        assert(final(self).written.deep_view() =~= old(self).written.deep_view().push(text@));
    }

    fn read(&mut self) -> (line: Result<String, ()>)
        ensures
            input_view(line) == next_line(old(self).inputs()),
            final(self).inputs() == lines_left(old(self).inputs()),
            final(self).output() == old(self).output(),
    {
        assert(lines_view(self.lines@).len() == self.lines.len());
        if self.read < self.lines.len() {
            let line = match &self.lines[self.read] {
                Ok(text) => Ok(text.clone()),
                Err(_) => Err(()),
            };
            assert(old(self).inputs()[0] == input_view(self.lines@[self.read as int]));
            self.read += 1;
            assert(final(self).inputs() =~= old(self).inputs().drop_first());
            line
        } else {
            assert(lines_view(self.lines@).len() == self.lines.len());
            assert(old(self).inputs().len() == 0);
            Err(())
        }
    }
}

/// The session of a machine and a console.
pub open spec fn session_of(machine: &Machine, console: &Console) -> Session {
    Session { machine: machine@, written: console.output(), inputs: console.inputs() }
}

/// Runs the machine against the console for `budget` transitions at most, and fewer where
/// the run is over before: the console takes what the machine writes and gives it a line
/// for each read. The result is what the machine asks for next: `Exit` or `Finished` where
/// the run is over, and `Continue` where the budget was used up first.
pub fn run(machine: &mut Machine, console: &mut Console, budget: usize) -> (action: Action)
    ensures
        session_of(final(machine), final(console)) == drive(
            old(machine).program(),
            session_of(old(machine), old(console)),
            budget as nat,
        ),
        action@ == pending(final(machine)@.control),
        final(machine).program() == old(machine).program(),
{
    let ghost p = machine.program();
    let ghost first = session_of(machine, console);
    let mut left = budget;
    while left > 0
        invariant
            machine.program() == p,
            p == old(machine).program(),
            first == session_of(old(machine), old(console)),
            drive(p, first, budget as nat) == drive(p, session_of(machine, console), left as nat),
        decreases left,
    {
        let ghost before = session_of(machine, console);
        let action = interpret_instrs(machine);
        match action {
            Action::Continue => {},
            Action::Write(text) => {
                console.write(text);
            },
            Action::Read => {
                let line = console.read();
                machine.resume(line);
            },
            Action::Exit => {
                proof {
                    assert(session_of(machine, console) == serve(p, before));
                    lemma_over_is_over(p, session_of(machine, console), (left - 1) as nat);
                }
                return Action::Exit;
            },
            Action::Finished(result) => {
                proof {
                    assert(session_of(machine, console) == serve(p, before));
                    lemma_over_is_over(p, session_of(machine, console), (left - 1) as nat);
                }
                return Action::Finished(result);
            },
        }
        assert(session_of(machine, console) == serve(p, before));
        left -= 1;
    }
    machine.pending()
}

} // verus!
