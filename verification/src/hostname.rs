//! The enumerable backends for setting the virtual machine's hostname.

use std::rc::Rc;
use vstd::prelude::*;

use crate::backend::Command;
use crate::backend::CommandView;
use crate::backend::Plan;
use crate::backend::PlanView;

verus! {

/// The enumerable, ordered strategies for setting the hostname.
#[derive(Debug, Clone, Copy, PartialEq, Eq, Structural)]
pub enum Provisioner {
    /// The real strategy, backed by the system hostname utility.
    Hostnamectl,
    /// A no-op strategy that always succeeds, for exercising the fallback
    /// chain without touching the host.
    FakeHostnamectl,
}

/// The default enumeration order of the hostname strategies: only the real
/// one. The no-op strategy is chosen explicitly where wanted.
pub fn default_hostname_provisioners() -> (v: Vec<Provisioner>)
    ensures
        v@ == seq![Provisioner::Hostnamectl],
{
    let mut v: Vec<Provisioner> = Vec::new();
    v.push(Provisioner::Hostnamectl);
    proof {
        assert(v@ =~= seq![Provisioner::Hostnamectl]);
    }
    v
}

/// The command that sets the hostname: its one argument is the new hostname.
pub open spec fn spec_hostnamectl_command(hostname: Seq<char>) -> CommandView {
    CommandView { program: "hostnamectl"@, args: seq!["hostname"@, hostname] }
}

/// The plan one hostname strategy produces for the desired hostname.
pub open spec fn spec_set(b: Provisioner, hostname: Seq<char>) -> PlanView {
    match b {
        Provisioner::Hostnamectl => PlanView::Invoke(spec_hostnamectl_command(hostname)),
        Provisioner::FakeHostnamectl => PlanView::Immediate,
    }
}

impl Provisioner {
    /// Plans setting the hostname through this strategy.
    pub fn set(&self, hostname: &str) -> (p: Plan)
        ensures
            p@ == spec_set(*self, hostname@),
    {
        match self {
            Provisioner::Hostnamectl => {
                let mut args: Vec<String> = Vec::new();
                args.push(String::from_str("hostname"));
                args.push(String::from_str(hostname));
                let c = Command { program: String::from_str("hostnamectl"), args };
                proof {
                    assert(c@.args =~= spec_hostnamectl_command(hostname@).args);
                }
                Plan::Invoke(Rc::new(c))
            },
            Provisioner::FakeHostnamectl => Plan::Immediate,
        }
    }
}

} // verus!
