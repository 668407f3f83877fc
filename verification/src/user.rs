//! The user account to provision, and the enumerable backends that create it
//! on the host.

use std::rc::Rc;
use vstd::prelude::*;

use crate::backend::Command;
use crate::backend::CommandView;
use crate::backend::Plan;
use crate::backend::PlanView;
use crate::backend::join_comma;
use crate::backend::spec_join_comma;
use crate::imds::PublicKeys;
use crate::imds::PublicKeysView;

verus! {

/// Configuration for the provisioned user.
///
/// There is deliberately no derived debug output for this type: the optional
/// password must never be rendered in diagnostics.
#[derive(Clone)]
pub struct User {
    pub name: String,
    pub groups: Vec<String>,
    pub ssh_keys: Vec<PublicKeys>,
    pub password: Option<String>,
}

/// The mathematical value of a user configuration.
pub ghost struct UserView {
    pub name: Seq<char>,
    pub groups: Seq<Seq<char>>,
    pub ssh_keys: Seq<PublicKeysView>,
    pub password: Option<Seq<char>>,
}

impl View for User {
    type V = UserView;

    open spec fn view(&self) -> UserView {
        UserView {
            name: self.name@,
            groups: self.groups.deep_view(),
            ssh_keys: self.ssh_keys.deep_view(),
            password: self.password.deep_view(),
        }
    }
}

impl User {
    /// Configure the user being provisioned on the host. The user starts out
    /// in the administrative `wheel` group, with no password.
    pub fn new(name: &str, ssh_keys: Vec<PublicKeys>) -> (u: User)
        ensures
            u@.name == name@,
            u@.groups == seq!["wheel"@],
            u@.ssh_keys == ssh_keys.deep_view(),
            u@.password is None,
    {
        let mut groups: Vec<String> = Vec::new();
        groups.push(String::from_str("wheel"));
        proof {
            assert(groups.deep_view() =~= seq!["wheel"@]);
        }
        User { name: String::from_str(name), groups, ssh_keys, password: None }
    }

    /// Set a password for the user; this is optional.
    pub fn with_password(self, password: &str) -> (u: User)
        ensures
            u@ == (UserView { password: Some(password@), ..self@ }),
    {
        let u = User { password: Some(String::from_str(password)), ..self };
        proof {
            assert(u@.password == Option::Some(password@));
        }
        u
    }

    /// A list of supplemental group names to add the user to.
    ///
    /// If any of the groups do not exist on the host, provisioning will fail.
    pub fn with_groups(self, groups: Vec<String>) -> (u: User)
        ensures
            u@ == (UserView { groups: groups.deep_view(), ..self@ }),
    {
        User { groups, ..self }
    }
}

/// The enumerable, ordered strategies for creating the user on the host.
#[derive(Debug, Clone, Copy, PartialEq, Eq, Structural)]
pub enum Provisioner {
    /// The real strategy, backed by the system account-creation utility.
    Useradd,
    /// A no-op strategy that always succeeds, for exercising the fallback
    /// chain without touching the host.
    FakeUseradd,
}

/// The default enumeration order of the user-creation strategies: only the
/// real one. The no-op strategy is chosen explicitly where wanted.
pub fn default_user_provisioners() -> (v: Vec<Provisioner>)
    ensures
        v@ == seq![Provisioner::Useradd],
{
    let mut v: Vec<Provisioner> = Vec::new();
    v.push(Provisioner::Useradd);
    proof {
        assert(v@ =~= seq![Provisioner::Useradd]);
    }
    v
}

/// The fixed comment recorded on accounts this agent creates.
pub open spec fn useradd_comment() -> Seq<char> {
    "Provisioning agent created this user based on username provided in IMDS"@
}

/// The account-creation command for a user: the account name, the fixed
/// comment, the supplementary groups, the home directory, and the flag that
/// creates it.
pub open spec fn spec_useradd_command(u: UserView) -> CommandView {
    CommandView {
        program: "useradd"@,
        args: seq![
            u.name,
            "--comment"@,
            useradd_comment(),
            "--groups"@,
            spec_join_comma(u.groups),
            "-d"@,
            "/home/"@ + u.name,
            "-m"@,
        ],
    }
}

/// The plan one user-creation strategy produces for a user.
pub open spec fn spec_create(b: Provisioner, u: UserView) -> PlanView {
    match b {
        Provisioner::Useradd => PlanView::Invoke(spec_useradd_command(u)),
        Provisioner::FakeUseradd => PlanView::Immediate,
    }
}

impl Provisioner {
    /// Plans the creation of the user through this strategy.
    pub fn create(&self, user: &User) -> (p: Plan)
        ensures
            p@ == spec_create(*self, user@),
    {
        match self {
            Provisioner::Useradd => Plan::Invoke(Rc::new(useradd(user))),
            Provisioner::FakeUseradd => Plan::Immediate,
        }
    }
}

/// Builds the account-creation command for the user.
fn useradd(user: &User) -> (c: Command)
    ensures
        c@ == spec_useradd_command(user@),
{
    let mut home = String::from_str("/home/");
    home.append(user.name.as_str());
    let mut args: Vec<String> = Vec::new();
    args.push(user.name.clone());
    args.push(String::from_str("--comment"));
    args.push(String::from_str(
        "Provisioning agent created this user based on username provided in IMDS",
    ));
    args.push(String::from_str("--groups"));
    args.push(join_comma(&user.groups));
    args.push(String::from_str("-d"));
    args.push(home);
    args.push(String::from_str("-m"));
    let c = Command { program: String::from_str("useradd"), args };
    proof {
        assert(c@.args =~= spec_useradd_command(user@).args);
    }
    c
}

} // verus!
