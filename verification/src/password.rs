//! The enumerable backends for password provisioning. The only supported
//! operation is disabling password authentication: a non-empty requested
//! password is rejected before any command is planned.

use std::rc::Rc;
use vstd::prelude::*;

use crate::backend::Command;
use crate::backend::CommandView;
use crate::backend::Plan;
use crate::backend::PlanView;
use crate::error::Error;

verus! {

/// The enumerable, ordered strategies for password provisioning.
#[derive(Debug, Clone, Copy, PartialEq, Eq, Structural)]
pub enum Provisioner {
    /// The real strategy, backed by the system password utility.
    Passwd,
    /// A no-op strategy that always succeeds, for exercising the fallback
    /// chain without touching the host.
    FakePasswd,
}

/// The default enumeration order of the password strategies: only the real
/// one. The no-op strategy is chosen explicitly where wanted.
pub fn default_password_provisioners() -> (v: Vec<Provisioner>)
    ensures
        v@ == seq![Provisioner::Passwd],
{
    let mut v: Vec<Provisioner> = Vec::new();
    v.push(Provisioner::Passwd);
    proof {
        assert(v@ =~= seq![Provisioner::Passwd]);
    }
    v
}

/// The command that disables password authentication for an account.
pub open spec fn spec_passwd_command(username: Seq<char>) -> CommandView {
    CommandView { program: "passwd"@, args: seq!["-d"@, username] }
}

/// The plan one password strategy produces. The real strategy plans the
/// password-delete command for an empty requested password and rejects a
/// non-empty one outright: creating a user with a preset password is
/// disallowed, so no command is ever planned for it.
pub open spec fn spec_set(b: Provisioner, username: Seq<char>, password: Seq<char>) -> PlanView {
    match b {
        Provisioner::Passwd => {
            if password.len() == 0 {
                PlanView::Invoke(spec_passwd_command(username))
            } else {
                PlanView::Rejected(Error::NonEmptyPassword)
            }
        },
        Provisioner::FakePasswd => PlanView::Immediate,
    }
}

impl Provisioner {
    /// Plans the password provisioning of an account through this strategy.
    pub fn set(&self, username: &str, password: &str) -> (p: Plan)
        ensures
            p@ == spec_set(*self, username@, password@),
    {
        match self {
            Provisioner::Passwd => {
                if password.unicode_len() == 0 {
                    let mut args: Vec<String> = Vec::new();
                    args.push(String::from_str("-d"));
                    args.push(String::from_str(username));
                    let c = Command { program: String::from_str("passwd"), args };
                    proof {
                        assert(c@.args =~= spec_passwd_command(username@).args);
                    }
                    Plan::Invoke(Rc::new(c))
                } else {
                    Plan::Rejected(Error::NonEmptyPassword)
                }
            },
            Provisioner::FakePasswd => Plan::Immediate,
        }
    }
}

/// A non-empty requested password never reaches a subprocess: the real
/// strategy rejects it at validation, and no strategy plans a command for it.
pub proof fn lemma_nonempty_password_never_invoked(
    b: Provisioner,
    username: Seq<char>,
    password: Seq<char>,
)
    requires
        password.len() > 0,
    ensures
        !(spec_set(b, username, password) is Invoke),
        b == Provisioner::Passwd ==> spec_set(b, username, password) == PlanView::Rejected(
            Error::NonEmptyPassword,
        ),
{
}

} // verus!
