//! The model of one backend attempt: a planned external command, the plan a
//! backend variant produces for its input, and the outcome an executed
//! command hands back.

use std::rc::Rc;
use vstd::prelude::*;

use crate::error::Error;

verus! {

/// Relies on the standard library's Rc::clone: cloning a reference-counted
/// pointer yields the same value.
#[verifier::external_body]
pub fn rc_clone<T>(v: &Rc<T>) -> (res: Rc<T>)
    ensures
        res == *v,
{
    Rc::clone(v)
}

/// A planned invocation of an external privileged command. The command is
/// interpreted only by its exit status.
#[derive(Debug, Clone, PartialEq, Eq)]
pub struct Command {
    pub program: String,
    pub args: Vec<String>,
}

/// The mathematical value of a planned command.
pub ghost struct CommandView {
    pub program: Seq<char>,
    pub args: Seq<Seq<char>>,
}

impl View for Command {
    type V = CommandView;

    open spec fn view(&self) -> CommandView {
        CommandView { program: self.program@, args: self.args.deep_view() }
    }
}

/// What one backend variant decides to do for its input.
#[derive(Debug, Clone, PartialEq, Eq)]
pub enum Plan {
    /// The variant succeeds with no external command (test-only variants).
    Immediate,
    /// The variant rejects its input before any command is invoked.
    Rejected(Error),
    /// The variant's effect is the given external command.
    Invoke(Rc<Command>),
}

/// The mathematical value of a plan.
pub ghost enum PlanView {
    Immediate,
    Rejected(Error),
    Invoke(CommandView),
}

impl View for Plan {
    type V = PlanView;

    open spec fn view(&self) -> PlanView {
        match self {
            Plan::Immediate => PlanView::Immediate,
            Plan::Rejected(e) => PlanView::Rejected(*e),
            Plan::Invoke(c) => PlanView::Invoke(c@),
        }
    }
}

/// The outcome of executing a planned command, as the surroundings hand it
/// back: the exit status, or that the command could not be spawned at all.
#[derive(Debug, Clone, Copy, PartialEq, Eq, Structural)]
pub enum Outcome {
    Exited(i32),
    SpawnFailed,
}

/// A command outcome is a success exactly when the command exited with
/// status zero.
pub open spec fn outcome_succeeded(o: Outcome) -> bool {
    o == Outcome::Exited(0i32)
}

/// Judges an executed command by its outcome: exit status zero is success,
/// a non-zero exit is a subprocess failure carrying the command name and the
/// status, and a spawn failure carries the command name alone.
pub fn interpret_outcome(command: &String, o: &Outcome) -> (r: Result<(), Error>)
    ensures
        r is Ok <==> outcome_succeeded(*o),
        *o matches Outcome::Exited(s) ==> (s != 0 ==> r == Result::<(), Error>::Err(
            Error::SubprocessFailed { command: *command, status: s },
        )),
        *o is SpawnFailed ==> r == Result::<(), Error>::Err(
            Error::SpawnFailed { command: *command },
        ),
{
    match o {
        Outcome::Exited(s) => {
            if *s == 0 {
                Ok(())
            } else {
                Err(Error::SubprocessFailed { command: command.clone(), status: *s })
            }
        },
        Outcome::SpawnFailed => Err(Error::SpawnFailed { command: command.clone() }),
    }
}

/// The elements of a list of strings joined with commas between them.
pub open spec fn spec_join_comma(gs: Seq<Seq<char>>) -> Seq<char>
    decreases gs.len(),
{
    if gs.len() == 0 {
        Seq::empty()
    } else if gs.len() == 1 {
        gs[0]
    } else {
        spec_join_comma(gs.drop_last()) + ","@ + gs.last()
    }
}

/// Joins a list of strings with commas between them.
pub fn join_comma(gs: &Vec<String>) -> (r: String)
    ensures
        r@ == spec_join_comma(gs.deep_view()),
{
    let ghost dv = gs.deep_view();
    let mut out = String::new();
    let mut i: usize = 0;
    while i < gs.len()
        invariant
            i <= gs.len(),
            dv == gs.deep_view(),
            dv.len() == gs.len(),
            forall|j: int| 0 <= j < gs.len() ==> dv[j] == gs@[j]@,
            out@ == spec_join_comma(dv.take(i as int)),
        decreases gs.len() - i,
    {
        if i == 0 {
            out = gs[0].clone();
            proof {
                assert(dv.take(1) == seq![dv[0]]);
            }
        } else {
            out.append(",");
            out.append(gs[i].as_str());
            proof {
                assert(dv.take(i + 1).drop_last() == dv.take(i as int));
                assert(dv.take(i + 1).last() == dv[i as int]);
            }
        }
        i = i + 1;
    }
    proof {
        assert(dv.take(gs.len() as int) == dv);
    }
    out
}

} // verus!
