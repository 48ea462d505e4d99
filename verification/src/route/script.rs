//! Sequences of operations, each of which may fail.

use super::command::Command;
use vstd::prelude::*;

verus! {

/// An operation on the system.
#[derive(Debug)]
pub enum Op {
    /// Run a command.
    Run(Command),
    /// Back up the name servers, where that is needed.
    BackUpDns,
    /// Write the name servers.
    WriteDns,
    /// Put the backup of the name servers back.
    RestoreDns,
}

/// How a script goes on.
#[derive(Debug, Clone, Copy, PartialEq, Eq, Structural)]
pub enum After {
    /// With the next step.
    Next,
    /// With the step after the next.
    SkipOne,
    /// Not at all: the script has failed.
    Abort,
}

/// One step of a script.
#[derive(Debug)]
pub struct Step {
    pub op: Op,
    pub on_ok: After,
    pub on_fail: After,
}

/// A step that must succeed.
pub open spec fn must(op: Op) -> Step {
    Step { op, on_ok: After::Next, on_fail: After::Abort }
}

/// A step whose outcome does not matter.
pub open spec fn attempt(op: Op) -> Step {
    Step { op, on_ok: After::Next, on_fail: After::Next }
}

/// A step that makes the next one needless where it succeeds.
pub open spec fn or_else(op: Op) -> Step {
    Step { op, on_ok: After::SkipOne, on_fail: After::Next }
}

/// A command that must succeed.
pub fn must_run(command: Command) -> (r: Step)
    ensures
        r == must(Op::Run(command)),
{
    Step { op: Op::Run(command), on_ok: After::Next, on_fail: After::Abort }
}

/// A command whose outcome does not matter.
pub fn attempt_run(command: Command) -> (r: Step)
    ensures
        r == attempt(Op::Run(command)),
{
    Step { op: Op::Run(command), on_ok: After::Next, on_fail: After::Next }
}

/// A command that makes the next step needless where it succeeds.
pub fn run_or_else(command: Command) -> (r: Step)
    ensures
        r == or_else(Op::Run(command)),
{
    Step { op: Op::Run(command), on_ok: After::SkipOne, on_fail: After::Next }
}

/// How far a script is.
#[verifier::ext_equal]
pub struct ScriptView {
    pub steps: Seq<Step>,
    pub pos: nat,
    pub failed: bool,
    /// Some step has succeeded.
    pub begun: bool,
}

impl ScriptView {
    /// A script before its first step.
    pub open spec fn start(steps: Seq<Step>) -> ScriptView {
        ScriptView { steps, pos: 0, failed: false, begun: false }
    }

    /// Whether nothing is left to do.
    pub open spec fn over(self) -> bool {
        self.failed || self.pos >= self.steps.len()
    }

    /// The script after its current step succeeded or failed.
    pub open spec fn reported(self, ok: bool) -> ScriptView {
        let step = self.steps[self.pos as int];
        let begun = self.begun || ok;
        match if ok {
            step.on_ok
        } else {
            step.on_fail
        } {
            After::Next => ScriptView { pos: self.pos + 1, begun, ..self },
            After::SkipOne => ScriptView {
                pos: if self.pos + 1 < self.steps.len() {
                    self.pos + 2
                } else {
                    self.steps.len()
                },
                begun,
                ..self
            },
            After::Abort => ScriptView { failed: true, begun, ..self },
        }
    }

    /// The script after its steps had these outcomes; outcomes after its end
    /// count for nothing.
    pub open spec fn played(self, outcomes: Seq<bool>) -> ScriptView
        decreases outcomes.len(),
    {
        if outcomes.len() == 0 {
            self
        } else {
            let before = self.played(outcomes.drop_last());
            if before.over() {
                before
            } else {
                before.reported(outcomes.last())
            }
        }
    }

    /// Whether the step at `pos` was done with the outcome `ok`, in a script
    /// whose steps had these outcomes.
    pub open spec fn did(self, outcomes: Seq<bool>, pos: nat, ok: bool) -> bool {
        exists|k: int|
            0 <= k < outcomes.len() && outcomes[k] == ok && !(#[trigger] self.played(
                outcomes.take(k),
            )).over() && self.played(outcomes.take(k)).pos == pos
    }
}

/// A script and how far it is.
#[derive(Debug)]
pub struct Script {
    steps: Vec<Step>,
    pos: usize,
    failed: bool,
    begun: bool,
}

impl View for Script {
    type V = ScriptView;

    closed spec fn view(&self) -> ScriptView {
        ScriptView {
            steps: self.steps@,
            pos: self.pos as nat,
            failed: self.failed,
            begun: self.begun,
        }
    }
}

impl Script {
    /// A script before its first step.
    pub fn new(steps: Vec<Step>) -> (r: Self)
        ensures
            r@ == ScriptView::start(steps@),
    {
        Script { steps, pos: 0, failed: false, begun: false }
    }

    /// Whether nothing is left to do.
    pub fn is_over(&self) -> (r: bool)
        ensures
            r == self@.over(),
    {
        self.failed || self.pos >= self.steps.len()
    }

    /// Whether the script has failed.
    pub fn has_failed(&self) -> (r: bool)
        ensures
            r == self@.failed,
    {
        self.failed
    }

    /// Whether some step has succeeded.
    pub fn has_begun(&self) -> (r: bool)
        ensures
            r == self@.begun,
    {
        self.begun
    }

    /// Whether the script has no steps.
    pub fn is_empty(&self) -> (r: bool)
        ensures
            r == (self@.steps.len() == 0),
    {
        self.steps.len() == 0
    }

    /// What to do now.
    pub fn current(&self) -> (r: Option<&Op>)
        ensures
            r == if self@.over() {
                None
            } else {
                Some(&self@.steps[self@.pos as int].op)
            },
    {
        if self.is_over() {
            return None;
        }
        Some(&self.steps[self.pos].op)
    }

    /// Goes on after the current step.
    pub fn report(&mut self, ok: bool)
        requires
            !old(self)@.over(),
        ensures
            final(self)@ == old(self)@.reported(ok),
    {
        let len: usize = self.steps.len();
        self.begun = self.begun || ok;
        let after: After = if ok {
            self.steps[self.pos].on_ok
        } else {
            self.steps[self.pos].on_fail
        };
        match after {
            After::Next => {
                self.pos = self.pos + 1;
            },
            After::SkipOne => {
                self.pos = if self.pos + 1 < len {
                    self.pos + 2
                } else {
                    len
                };
            },
            After::Abort => {
                self.failed = true;
            },
        }
    }
}

} // verus!
