//! The provisioning request and its orchestrator: a state machine that plans
//! each host mutation as an action, consumes the outcome as an event, and
//! tries the ordered backend variants of each resource in sequence until one
//! succeeds.
//!
//! The fixed execution order is: create the user, provision the password,
//! install SSH keys (only when keys were requested), set the hostname. Each
//! step is gated on the previous step's success, and the first terminal
//! failure stops the run.

use std::rc::Rc;
use vstd::prelude::*;

use crate::backend::Command;
use crate::backend::Outcome;
use crate::backend::Plan;
use crate::backend::PlanView;
use crate::backend::outcome_succeeded;
use crate::error::Error;
use crate::hostname;
use crate::password;
use crate::ssh::SysUser;
use crate::ssh::authorized_keys;
use crate::ssh::spec_authorized_keys;
use crate::user;
use crate::user::User;
use crate::user::UserView;

verus! {

/// Where the orchestrator stands: which resource is being provisioned, and
/// which of its backend variants is currently awaited.
#[derive(Debug, Clone, Copy, PartialEq, Eq, Structural)]
pub enum Phase {
    /// The user-creation command of the variant at this index is running.
    AwaitCreateUser { idx: usize },
    /// The password command of the variant at this index is running.
    AwaitSetPassword { idx: usize },
    /// The created account is being resolved on the host.
    ResolveAccount,
    /// The authorized-keys file is being written.
    InstallKeys,
    /// The hostname command of the variant at this index is running.
    AwaitSetHostname { idx: usize },
    /// Provisioning finished successfully.
    Done,
    /// Provisioning failed terminally.
    Failed,
}

/// What the surroundings hand back after performing the last action.
#[derive(Debug, Clone, PartialEq, Eq)]
pub enum Event {
    /// The outcome of the planned command that was run.
    Command(Outcome),
    /// The account lookup resolved the account.
    UserFound(SysUser),
    /// The account lookup found no such account.
    UserAbsent,
    /// The account lookup itself failed.
    LookupFailed,
    /// The authorized-keys file was written.
    KeysInstalled,
    /// The authorized-keys file could not be written.
    KeysFailed,
}

/// What the authorized-keys installation needs: the resolved account that is
/// to own the file, and the file's contents.
#[derive(Debug, Clone, PartialEq, Eq)]
pub struct KeysInstall {
    pub user: SysUser,
    pub content: String,
}

/// What the orchestrator asks the surroundings to do next.
#[derive(Debug, PartialEq, Eq)]
pub enum Action {
    /// Run this command and hand back its outcome.
    Run(Rc<Command>),
    /// Resolve this account on the host and hand back the outcome.
    Lookup(String),
    /// Write the authorized-keys file and hand back the outcome.
    WriteKeys(KeysInstall),
    /// Terminal: provisioning ended with this result.
    Stop(Result<(), Error>),
}

/// The orchestrator: the planned backend chains of the three resources, the
/// data the SSH-key step needs, and the current phase.
pub struct Flow {
    pub user_plans: Vec<Plan>,
    pub password_plans: Vec<Plan>,
    pub hostname_plans: Vec<Plan>,
    pub username: String,
    pub has_keys: bool,
    pub keys_content: String,
    pub phase: Phase,
}

/// How one fallback chain moves from a starting index: the first variant from
/// there that succeeds outright, the first whose command must be run, or
/// exhaustion of the chain. Variants that reject their input are recorded as
/// failures and skipped.
pub enum ChainMove {
    Succeeded,
    NeedRun { at: usize, cmd: Rc<Command> },
    Exhausted,
}

/// The first decision of the chain at or after index `idx`: skip rejected
/// plans, stop at an immediate success or at a command to run, fail on
/// exhaustion.
pub open spec fn spec_advance_chain(plans: Seq<Plan>, idx: int) -> ChainMove
    recommends
        0 <= idx,
    decreases plans.len() - idx,
    when 0 <= idx
{
    if idx >= plans.len() {
        ChainMove::Exhausted
    } else {
        match plans[idx] {
            Plan::Immediate => ChainMove::Succeeded,
            Plan::Rejected(_) => spec_advance_chain(plans, idx + 1),
            Plan::Invoke(cmd) => ChainMove::NeedRun { at: idx as usize, cmd },
        }
    }
}

/// Walks one fallback chain from `idx` to its first decision.
fn advance_chain(plans: &Vec<Plan>, idx: usize) -> (m: ChainMove)
    ensures
        m == spec_advance_chain(plans@, idx as int),
{
    let mut i: usize = idx;
    while i < plans.len()
        invariant
            idx <= i,
            spec_advance_chain(plans@, idx as int) == spec_advance_chain(plans@, i as int),
        decreases plans.len() - i,
    {
        match &plans[i] {
            Plan::Immediate => {
                return ChainMove::Succeeded;
            },
            Plan::Rejected(_) => {
                i = i + 1;
            },
            Plan::Invoke(cmd) => {
                return ChainMove::NeedRun { at: i, cmd: crate::backend::rc_clone(cmd) };
            },
        }
    }
    ChainMove::Exhausted
}

/// What the chain decision at `idx` guarantees when it names a command to
/// run: the command stands in the chain at its position, and everything
/// before it (from `idx`) was a rejection.
pub open spec fn chain_needrun_ok(plans: Seq<Plan>, idx: int, m: ChainMove) -> bool {
    m matches ChainMove::NeedRun { at, cmd } ==> {
        &&& idx <= at < plans.len()
        &&& plans[at as int] == Plan::Invoke(cmd)
        &&& forall|k: int| idx <= k < at ==> plans[k] is Rejected
    }
}

/// The chain decision names a real position: a command to run stands in the
/// chain at its index, everything skipped before it was a rejection, an
/// immediate success has a first immediately-succeeding variant, and an
/// exhausted chain rejected every remaining variant.
pub proof fn lemma_advance_chain(plans: Seq<Plan>, idx: int)
    requires
        0 <= idx,
        plans.len() <= usize::MAX,
    ensures
        chain_needrun_ok(plans, idx, spec_advance_chain(plans, idx)),
        spec_advance_chain(plans, idx) is Succeeded ==> exists|s: int|
            idx <= s < plans.len() && plans[s] is Immediate && (forall|k: int|
                idx <= k < s ==> plans[k] is Rejected),
        spec_advance_chain(plans, idx) is Exhausted ==> forall|k: int|
            idx <= k < plans.len() ==> plans[k] is Rejected,
    decreases plans.len() - idx,
{
    if idx >= plans.len() {
    } else {
        match plans[idx] {
            Plan::Immediate => {
                assert(idx <= idx < plans.len() && plans[idx] is Immediate && (forall|k: int|
                    idx <= k < idx ==> plans[k] is Rejected));
            },
            Plan::Rejected(_) => {
                lemma_advance_chain(plans, idx + 1);
                assert(spec_advance_chain(plans, idx) == spec_advance_chain(plans, idx + 1));
                if spec_advance_chain(plans, idx) is NeedRun {
                    let at = spec_advance_chain(plans, idx)->NeedRun_at;
                    let cmd = spec_advance_chain(plans, idx)->NeedRun_cmd;
                    assert(chain_needrun_ok(plans, idx + 1, spec_advance_chain(plans, idx + 1)));
                    assert(idx + 1 <= at < plans.len());
                    assert(plans[at as int] == Plan::Invoke(cmd));
                    assert forall|k: int| idx <= k < at implies plans[k] is Rejected by {
                        if k > idx {
                            assert(plans[k] is Rejected);
                        }
                    }
                }
                if spec_advance_chain(plans, idx) is Succeeded {
                    let s = choose|s: int|
                        idx + 1 <= s < plans.len() && plans[s] is Immediate && (forall|k: int|
                            idx + 1 <= k < s ==> plans[k] is Rejected);
                    assert(idx <= s < plans.len() && plans[s] is Immediate && (forall|k: int|
                        idx <= k < s ==> plans[k] is Rejected));
                }
            },
            Plan::Invoke(c) => {
                assert(spec_advance_chain(plans, idx) == (ChainMove::NeedRun {
                    at: idx as usize,
                    cmd: c,
                }));
            },
        }
    }
}

/// The orchestrator's well-formedness: whenever a command is awaited, the
/// awaited variant really stands in its chain and plans a command.
pub open spec fn wf(f: Flow) -> bool {
    match f.phase {
        Phase::AwaitCreateUser { idx } => idx < f.user_plans@.len() && f.user_plans@[idx as int]
            is Invoke,
        Phase::AwaitSetPassword { idx } => idx < f.password_plans@.len()
            && f.password_plans@[idx as int] is Invoke,
        Phase::AwaitSetHostname { idx } => idx < f.hostname_plans@.len()
            && f.hostname_plans@[idx as int] is Invoke,
        _ => true,
    }
}

/// Every step entered at a valid index leaves the orchestrator well-formed.
pub proof fn lemma_enter_wf(f: Flow, idx: int)
    requires
        0 <= idx,
    ensures
        wf(spec_enter_hostname(f, idx).0),
        wf(spec_enter_keys(f).0),
        wf(spec_enter_password(f, idx).0),
        wf(spec_enter_create_user(f, idx).0),
{
    assert(f.user_plans@.len() == f.user_plans.len());
    assert(f.password_plans@.len() == f.password_plans.len());
    assert(f.hostname_plans@.len() == f.hostname_plans.len());
    lemma_advance_chain(f.hostname_plans@, idx);
    lemma_advance_chain(f.hostname_plans@, 0);
    lemma_advance_chain(f.password_plans@, idx);
    lemma_advance_chain(f.password_plans@, 0);
    lemma_advance_chain(f.user_plans@, idx);
}

/// Enters the hostname step at the given variant index.
pub open spec fn spec_enter_hostname(f: Flow, idx: int) -> (Flow, Action)
    recommends
        0 <= idx,
{
    match spec_advance_chain(f.hostname_plans@, idx) {
        ChainMove::Succeeded => (
            Flow { phase: Phase::Done, ..f },
            Action::Stop(Result::<(), Error>::Ok(())),
        ),
        ChainMove::NeedRun { at, cmd } => (
            Flow { phase: Phase::AwaitSetHostname { idx: at }, ..f },
            Action::Run(cmd),
        ),
        ChainMove::Exhausted => (
            Flow { phase: Phase::Failed, ..f },
            Action::Stop(Result::<(), Error>::Err(Error::NoHostnameProvisioner)),
        ),
    }
}

/// Enters the SSH-key step: attempted exactly when keys were requested, and
/// otherwise skipped in favour of the hostname step with no account lookup.
pub open spec fn spec_enter_keys(f: Flow) -> (Flow, Action) {
    if f.has_keys {
        (Flow { phase: Phase::ResolveAccount, ..f }, Action::Lookup(f.username))
    } else {
        spec_enter_hostname(f, 0)
    }
}

/// Enters the password step at the given variant index.
pub open spec fn spec_enter_password(f: Flow, idx: int) -> (Flow, Action)
    recommends
        0 <= idx,
{
    match spec_advance_chain(f.password_plans@, idx) {
        ChainMove::Succeeded => spec_enter_keys(f),
        ChainMove::NeedRun { at, cmd } => (
            Flow { phase: Phase::AwaitSetPassword { idx: at }, ..f },
            Action::Run(cmd),
        ),
        ChainMove::Exhausted => (
            Flow { phase: Phase::Failed, ..f },
            Action::Stop(Result::<(), Error>::Err(Error::NoPasswordProvisioner)),
        ),
    }
}

/// Enters the user-creation step at the given variant index.
pub open spec fn spec_enter_create_user(f: Flow, idx: int) -> (Flow, Action)
    recommends
        0 <= idx,
{
    match spec_advance_chain(f.user_plans@, idx) {
        ChainMove::Succeeded => spec_enter_password(f, 0),
        ChainMove::NeedRun { at, cmd } => (
            Flow { phase: Phase::AwaitCreateUser { idx: at }, ..f },
            Action::Run(cmd),
        ),
        ChainMove::Exhausted => (
            Flow { phase: Phase::Failed, ..f },
            Action::Stop(Result::<(), Error>::Err(Error::NoUserProvisioner)),
        ),
    }
}

/// Which events the orchestrator can consume in its current phase.
pub open spec fn accepts(f: Flow, e: Event) -> bool {
    match f.phase {
        Phase::AwaitCreateUser { .. } => e is Command,
        Phase::AwaitSetPassword { .. } => e is Command,
        Phase::AwaitSetHostname { .. } => e is Command,
        Phase::ResolveAccount => e is UserFound || e is UserAbsent || e is LookupFailed,
        Phase::InstallKeys => e is KeysInstalled || e is KeysFailed,
        Phase::Done => false,
        Phase::Failed => false,
    }
}

/// One transition of the orchestrator: consume the outcome of the last
/// action, and decide the next one.
pub open spec fn spec_step(f: Flow, e: Event) -> (Flow, Action) {
    match f.phase {
        Phase::AwaitCreateUser { idx } => match e {
            Event::Command(o) => {
                if outcome_succeeded(o) {
                    spec_enter_password(f, 0)
                } else {
                    spec_enter_create_user(f, idx + 1)
                }
            },
            _ => (f, Action::Stop(Result::<(), Error>::Err(Error::Transport))),
        },
        Phase::AwaitSetPassword { idx } => match e {
            Event::Command(o) => {
                if outcome_succeeded(o) {
                    spec_enter_keys(f)
                } else {
                    spec_enter_password(f, idx + 1)
                }
            },
            _ => (f, Action::Stop(Result::<(), Error>::Err(Error::Transport))),
        },
        Phase::ResolveAccount => match e {
            Event::UserFound(u) => (
                Flow { phase: Phase::InstallKeys, ..f },
                Action::WriteKeys(KeysInstall { user: u, content: f.keys_content }),
            ),
            Event::UserAbsent => (
                Flow { phase: Phase::Failed, ..f },
                Action::Stop(Result::<(), Error>::Err(Error::UserMissing { user: f.username })),
            ),
            Event::LookupFailed => (
                Flow { phase: Phase::Failed, ..f },
                Action::Stop(Result::<(), Error>::Err(Error::UserLookupFailed)),
            ),
            _ => (f, Action::Stop(Result::<(), Error>::Err(Error::Transport))),
        },
        Phase::InstallKeys => match e {
            Event::KeysInstalled => spec_enter_hostname(f, 0),
            Event::KeysFailed => (
                Flow { phase: Phase::Failed, ..f },
                Action::Stop(Result::<(), Error>::Err(Error::SshInstallFailed)),
            ),
            _ => (f, Action::Stop(Result::<(), Error>::Err(Error::Transport))),
        },
        Phase::AwaitSetHostname { idx } => match e {
            Event::Command(o) => {
                if outcome_succeeded(o) {
                    (Flow { phase: Phase::Done, ..f }, Action::Stop(Result::<(), Error>::Ok(())))
                } else {
                    spec_enter_hostname(f, idx + 1)
                }
            },
            _ => (f, Action::Stop(Result::<(), Error>::Err(Error::Transport))),
        },
        _ => (f, Action::Stop(Result::<(), Error>::Err(Error::Transport))),
    }
}

impl Flow {
    /// Whether the orchestrator can consume this event now.
    pub fn accepts_event(&self, e: &Event) -> (r: bool)
        ensures
            r == accepts(*self, *e),
    {
        match self.phase {
            Phase::AwaitCreateUser { .. } => matches!(e, Event::Command(_)),
            Phase::AwaitSetPassword { .. } => matches!(e, Event::Command(_)),
            Phase::AwaitSetHostname { .. } => matches!(e, Event::Command(_)),
            Phase::ResolveAccount => matches!(
                e,
                Event::UserFound(_) | Event::UserAbsent | Event::LookupFailed
            ),
            Phase::InstallKeys => matches!(e, Event::KeysInstalled | Event::KeysFailed),
            Phase::Done => false,
            Phase::Failed => false,
        }
    }

    /// Consumes the outcome of the last action and decides the next one.
    pub fn step(self, e: Event) -> (r: (Flow, Action))
        requires
            accepts(self, e),
            wf(self),
        ensures
            r == spec_step(self, e),
            wf(r.0),
    {
        proof {
            assert(self.user_plans@.len() == self.user_plans.len());
            assert(self.password_plans@.len() == self.password_plans.len());
            assert(self.hostname_plans@.len() == self.hostname_plans.len());
            lemma_enter_wf(self, 0);
            if let Phase::AwaitCreateUser { idx } = self.phase {
                lemma_enter_wf(self, idx + 1);
            }
            if let Phase::AwaitSetPassword { idx } = self.phase {
                lemma_enter_wf(self, idx + 1);
            }
            if let Phase::AwaitSetHostname { idx } = self.phase {
                lemma_enter_wf(self, idx + 1);
            }
        }
        match self.phase {
            Phase::AwaitCreateUser { idx } => match e {
                Event::Command(o) => {
                    if matches!(o, Outcome::Exited(0i32)) {
                        enter_password(self, 0)
                    } else {
                        enter_create_user(self, idx + 1)
                    }
                },
                _ => {
                    proof {
                        assert(false);
                    }
                    (self, Action::Stop(Err(Error::Transport)))
                },
            },
            Phase::AwaitSetPassword { idx } => match e {
                Event::Command(o) => {
                    if matches!(o, Outcome::Exited(0i32)) {
                        enter_keys(self)
                    } else {
                        enter_password(self, idx + 1)
                    }
                },
                _ => {
                    proof {
                        assert(false);
                    }
                    (self, Action::Stop(Err(Error::Transport)))
                },
            },
            Phase::ResolveAccount => match e {
                Event::UserFound(u) => {
                    let content = self.keys_content.clone();
                    (
                        Flow { phase: Phase::InstallKeys, ..self },
                        Action::WriteKeys(KeysInstall { user: u, content }),
                    )
                },
                Event::UserAbsent => {
                    let name = self.username.clone();
                    (
                        Flow { phase: Phase::Failed, ..self },
                        Action::Stop(Err(Error::UserMissing { user: name })),
                    )
                },
                Event::LookupFailed => (
                    Flow { phase: Phase::Failed, ..self },
                    Action::Stop(Err(Error::UserLookupFailed)),
                ),
                _ => {
                    proof {
                        assert(false);
                    }
                    (self, Action::Stop(Err(Error::Transport)))
                },
            },
            Phase::InstallKeys => match e {
                Event::KeysInstalled => enter_hostname(self, 0),
                Event::KeysFailed => (
                    Flow { phase: Phase::Failed, ..self },
                    Action::Stop(Err(Error::SshInstallFailed)),
                ),
                _ => {
                    proof {
                        assert(false);
                    }
                    (self, Action::Stop(Err(Error::Transport)))
                },
            },
            Phase::AwaitSetHostname { idx } => match e {
                Event::Command(o) => {
                    if matches!(o, Outcome::Exited(0i32)) {
                        (Flow { phase: Phase::Done, ..self }, Action::Stop(Ok(())))
                    } else {
                        enter_hostname(self, idx + 1)
                    }
                },
                _ => {
                    proof {
                        assert(false);
                    }
                    (self, Action::Stop(Err(Error::Transport)))
                },
            },
            _ => {
                proof {
                    assert(false);
                }
                (self, Action::Stop(Err(Error::Transport)))
            },
        }
    }
}

/// Enters the hostname step at the given variant index.
fn enter_hostname(f: Flow, idx: usize) -> (r: (Flow, Action))
    ensures
        r == spec_enter_hostname(f, idx as int),
{
    match advance_chain(&f.hostname_plans, idx) {
        ChainMove::Succeeded => (Flow { phase: Phase::Done, ..f }, Action::Stop(Ok(()))),
        ChainMove::NeedRun { at, cmd } => (
            Flow { phase: Phase::AwaitSetHostname { idx: at }, ..f },
            Action::Run(cmd),
        ),
        ChainMove::Exhausted => (
            Flow { phase: Phase::Failed, ..f },
            Action::Stop(Err(Error::NoHostnameProvisioner)),
        ),
    }
}

/// Enters the SSH-key step, or skips straight to the hostname step when no
/// keys were requested.
fn enter_keys(f: Flow) -> (r: (Flow, Action))
    ensures
        r == spec_enter_keys(f),
{
    if f.has_keys {
        let name = f.username.clone();
        (Flow { phase: Phase::ResolveAccount, ..f }, Action::Lookup(name))
    } else {
        enter_hostname(f, 0)
    }
}

/// Enters the password step at the given variant index.
fn enter_password(f: Flow, idx: usize) -> (r: (Flow, Action))
    ensures
        r == spec_enter_password(f, idx as int),
{
    match advance_chain(&f.password_plans, idx) {
        ChainMove::Succeeded => enter_keys(f),
        ChainMove::NeedRun { at, cmd } => (
            Flow { phase: Phase::AwaitSetPassword { idx: at }, ..f },
            Action::Run(cmd),
        ),
        ChainMove::Exhausted => (
            Flow { phase: Phase::Failed, ..f },
            Action::Stop(Err(Error::NoPasswordProvisioner)),
        ),
    }
}

/// Enters the user-creation step at the given variant index.
fn enter_create_user(f: Flow, idx: usize) -> (r: (Flow, Action))
    ensures
        r == spec_enter_create_user(f, idx as int),
{
    match advance_chain(&f.user_plans, idx) {
        ChainMove::Succeeded => enter_password(f, 0),
        ChainMove::NeedRun { at, cmd } => (
            Flow { phase: Phase::AwaitCreateUser { idx: at }, ..f },
            Action::Run(cmd),
        ),
        ChainMove::Exhausted => (
            Flow { phase: Phase::Failed, ..f },
            Action::Stop(Err(Error::NoUserProvisioner)),
        ),
    }
}

/// The interface for applying the desired configuration to the host.
///
/// Optional settings, like a password for the user account, can be provided
/// after constructing this object. By default, all known methods for
/// provisioning a particular setting are tried until one succeeds. Particular
/// methods can be selected via the `*_provisioners()` methods.
///
/// To actually apply the configuration, use [`Provision::provision`], which
/// takes ownership: a request is consumed exactly once.
#[derive(Clone)]
pub struct Provision {
    pub hostname: String,
    pub user: User,
    pub hostname_backends: Option<Vec<hostname::Provisioner>>,
    pub user_backends: Option<Vec<user::Provisioner>>,
    pub password_backends: Option<Vec<password::Provisioner>>,
}

/// The requested password as the password step sees it: the configured one,
/// or empty when none was configured.
pub open spec fn spec_requested_password(u: UserView) -> Seq<char> {
    match u.password {
        Option::Some(p) => p,
        Option::None => Seq::empty(),
    }
}

/// The plan views of one backend list under a planning function.
pub open spec fn plan_views(plans: Seq<Plan>) -> Seq<PlanView> {
    plans.map_values(|p: Plan| p@)
}

impl Provision {
    /// A provisioning request for the given hostname and user, with every
    /// backend list defaulted to the full enumeration of real strategies.
    pub fn new(hostname: String, user: User) -> (p: Provision)
        ensures
            p.hostname@ == hostname@,
            p.user == user,
            p.hostname_backends is None,
            p.user_backends is None,
            p.password_backends is None,
    {
        Provision {
            hostname,
            user,
            hostname_backends: None,
            user_backends: None,
            password_backends: None,
        }
    }

    /// Specify the ways to set the virtual machine's hostname.
    ///
    /// By default, all known methods will be attempted. Use this function to
    /// restrict which methods are attempted. These will be attempted in the
    /// order provided until one succeeds.
    pub fn hostname_provisioners(self, backends: Vec<hostname::Provisioner>) -> (p: Provision)
        ensures
            p == (Provision { hostname_backends: Some(backends), ..self }),
    {
        Provision { hostname_backends: Some(backends), ..self }
    }

    /// Specify the ways to create a user in the virtual machine.
    ///
    /// By default, all known methods will be attempted. Use this function to
    /// restrict which methods are attempted. These will be attempted in the
    /// order provided until one succeeds.
    pub fn user_provisioners(self, backends: Vec<user::Provisioner>) -> (p: Provision)
        ensures
            p == (Provision { user_backends: Some(backends), ..self }),
    {
        Provision { user_backends: Some(backends), ..self }
    }

    /// Specify the ways to set a user's password.
    ///
    /// By default, all known methods will be attempted. Use this function to
    /// restrict which methods are attempted. These will be attempted in the
    /// order provided until one succeeds.
    pub fn password_provisioners(self, backends: Vec<password::Provisioner>) -> (p: Provision)
        ensures
            p == (Provision { password_backends: Some(backends), ..self }),
    {
        Provision { password_backends: Some(backends), ..self }
    }

    /// Provision the host: plans every backend's attempt, consumes the
    /// request, and starts the orchestrator. The returned action is the first
    /// thing the surroundings must do; the flow's plans hold, in caller order,
    /// exactly the plans of the chosen backends (or of the default
    /// enumerations where none were chosen).
    pub fn provision(self) -> (r: (Flow, Action))
        ensures
            ({
                let (f, a) = r;
                &&& plan_views(f.user_plans@) == spec_user_plans(self)
                &&& plan_views(f.password_plans@) == spec_password_plans(self)
                &&& plan_views(f.hostname_plans@) == spec_hostname_plans(self)
                &&& f.username@ == self.user@.name
                &&& f.has_keys == (self.user@.ssh_keys.len() > 0)
                &&& f.keys_content@ == spec_authorized_keys(self.user@.ssh_keys)
                &&& (f, a) == spec_enter_create_user(f, 0)
                &&& wf(f)
            }),
    {
        let user_backends = match self.user_backends {
            Some(b) => b,
            None => user::default_user_provisioners(),
        };
        let password_backends = match self.password_backends {
            Some(b) => b,
            None => password::default_password_provisioners(),
        };
        let hostname_backends = match self.hostname_backends {
            Some(b) => b,
            None => hostname::default_hostname_provisioners(),
        };

        let mut user_plans: Vec<Plan> = Vec::new();
        let mut i: usize = 0;
        while i < user_backends.len()
            invariant
                i <= user_backends.len(),
                plan_views(user_plans@) == user_backends@.take(i as int).map_values(
                    |b: user::Provisioner| user::spec_create(b, self.user@),
                ),
            decreases user_backends.len() - i,
        {
            let ghost prev = user_plans@;
            user_plans.push(user_backends[i].create(&self.user));
            proof {
                let m = |b: user::Provisioner| user::spec_create(b, self.user@);
                assert(plan_views(user_plans@) =~= plan_views(prev).push(
                    user_plans@.last()@,
                ));
                assert(user_backends@.take(i + 1).map_values(m) =~= user_backends@.take(
                    i as int,
                ).map_values(m).push(m(user_backends@[i as int])));
            }
            i = i + 1;
        }

        let password = match &self.user.password {
            Some(p) => p.as_str(),
            None => "",
        };
        proof {
            reveal_strlit("");
            assert(spec_requested_password(self.user@) == password@);
        }
        let mut password_plans: Vec<Plan> = Vec::new();
        let mut i: usize = 0;
        while i < password_backends.len()
            invariant
                i <= password_backends.len(),
                password@ == spec_requested_password(self.user@),
                plan_views(password_plans@) == password_backends@.take(i as int).map_values(
                    |b: password::Provisioner| password::spec_set(
                        b,
                        self.user@.name,
                        spec_requested_password(self.user@),
                    ),
                ),
            decreases password_backends.len() - i,
        {
            let ghost prev = password_plans@;
            password_plans.push(password_backends[i].set(self.user.name.as_str(), password));
            proof {
                let m = |b: password::Provisioner| password::spec_set(
                    b,
                    self.user@.name,
                    spec_requested_password(self.user@),
                );
                assert(plan_views(password_plans@) =~= plan_views(prev).push(
                    password_plans@.last()@,
                ));
                assert(password_backends@.take(i + 1).map_values(m) =~= password_backends@.take(
                    i as int,
                ).map_values(m).push(m(password_backends@[i as int])));
            }
            i = i + 1;
        }

        let mut hostname_plans: Vec<Plan> = Vec::new();
        let mut i: usize = 0;
        while i < hostname_backends.len()
            invariant
                i <= hostname_backends.len(),
                plan_views(hostname_plans@) == hostname_backends@.take(i as int).map_values(
                    |b: hostname::Provisioner| hostname::spec_set(b, self.hostname@),
                ),
            decreases hostname_backends.len() - i,
        {
            let ghost prev = hostname_plans@;
            hostname_plans.push(hostname_backends[i].set(self.hostname.as_str()));
            proof {
                let m = |b: hostname::Provisioner| hostname::spec_set(b, self.hostname@);
                assert(plan_views(hostname_plans@) =~= plan_views(prev).push(
                    hostname_plans@.last()@,
                ));
                assert(hostname_backends@.take(i + 1).map_values(m) =~= hostname_backends@.take(
                    i as int,
                ).map_values(m).push(m(hostname_backends@[i as int])));
            }
            i = i + 1;
        }

        let has_keys = self.user.ssh_keys.len() > 0;
        let keys_content = authorized_keys(&self.user.ssh_keys);
        let f = Flow {
            user_plans,
            password_plans,
            hostname_plans,
            username: self.user.name,
            has_keys,
            keys_content,
            phase: Phase::Done,
        };
        proof {
            lemma_enter_wf(f, 0);
        }
        enter_create_user(f, 0)
    }
}

/// The planned user-creation chain of a request: its chosen backends (or the
/// default enumeration) under the user planning function.
pub open spec fn spec_user_plans(p: Provision) -> Seq<PlanView> {
    let backends = match p.user_backends {
        Option::Some(b) => b@,
        Option::None => seq![user::Provisioner::Useradd],
    };
    backends.map_values(|b: user::Provisioner| user::spec_create(b, p.user@))
}

/// The planned password chain of a request.
pub open spec fn spec_password_plans(p: Provision) -> Seq<PlanView> {
    let backends = match p.password_backends {
        Option::Some(b) => b@,
        Option::None => seq![password::Provisioner::Passwd],
    };
    backends.map_values(
        |b: password::Provisioner| password::spec_set(
            b,
            p.user@.name,
            spec_requested_password(p.user@),
        ),
    )
}

/// The planned hostname chain of a request.
pub open spec fn spec_hostname_plans(p: Provision) -> Seq<PlanView> {
    let backends = match p.hostname_backends {
        Option::Some(b) => b@,
        Option::None => seq![hostname::Provisioner::Hostnamectl],
    };
    backends.map_values(|b: hostname::Provisioner| hostname::spec_set(b, p.hostname@))
}


/// The run of the orchestrator over a sequence of events: the flow it ends in
/// and the actions it emits, one per consumed event.
pub open spec fn spec_run(f: Flow, events: Seq<Event>) -> (Flow, Seq<Action>)
    decreases events.len(),
{
    if events.len() == 0 {
        (f, Seq::empty())
    } else {
        let (f2, a) = spec_step(f, events[0]);
        let (f3, rest) = spec_run(f2, events.drop_first());
        (f3, seq![a] + rest)
    }
}

/// The flow with its phase replaced and everything else kept.
pub open spec fn with_phase(f: Flow, p: Phase) -> Flow {
    Flow { phase: p, ..f }
}

/// Entering a step reads everything but the phase: a flow with a different
/// phase enters each step the same way.
pub proof fn lemma_enter_ignores_phase(f: Flow, p: Phase, idx: int)
    ensures
        spec_enter_hostname(with_phase(f, p), idx) == spec_enter_hostname(f, idx),
        spec_enter_keys(with_phase(f, p)) == spec_enter_keys(f),
        spec_enter_password(with_phase(f, p), idx) == spec_enter_password(f, idx),
        spec_enter_create_user(with_phase(f, p), idx) == spec_enter_create_user(f, idx),
{
    let g = with_phase(f, p);
    assert(g.hostname_plans == f.hostname_plans);
    match spec_advance_chain(f.hostname_plans@, idx) {
        ChainMove::Succeeded => {
            assert(spec_enter_hostname(g, idx).0 == spec_enter_hostname(f, idx).0);
        },
        ChainMove::NeedRun { at, cmd } => {
            assert(spec_enter_hostname(g, idx).0 == spec_enter_hostname(f, idx).0);
        },
        ChainMove::Exhausted => {
            assert(spec_enter_hostname(g, idx).0 == spec_enter_hostname(f, idx).0);
        },
    }
    match spec_advance_chain(f.hostname_plans@, 0) {
        ChainMove::Succeeded => {
            assert(spec_enter_hostname(g, 0).0 == spec_enter_hostname(f, 0).0);
        },
        ChainMove::NeedRun { at, cmd } => {
            assert(spec_enter_hostname(g, 0).0 == spec_enter_hostname(f, 0).0);
        },
        ChainMove::Exhausted => {
            assert(spec_enter_hostname(g, 0).0 == spec_enter_hostname(f, 0).0);
        },
    }
}

/// The command outcomes that fail the first `k - 1` commands of a chain and
/// succeed the `k`-th.
pub open spec fn first_success_events(k: int) -> Seq<Event> {
    Seq::new(
        k as nat,
        |i: int|
            Event::Command(
                if i == k - 1 {
                    Outcome::Exited(0i32)
                } else {
                    Outcome::Exited(1i32)
                },
            ),
    )
}

/// The command outcomes that fail `k` commands of a chain in a row.
pub open spec fn all_fail_events(k: int) -> Seq<Event> {
    Seq::new(k as nat, |i: int| Event::Command(Outcome::Exited(1i32)))
}



/// SSH-key installation is attempted if and only if keys were requested: a
/// successful password step moves to the account lookup exactly when the
/// request carried keys, and otherwise straight to the hostname step with no
/// intervening lookup.
pub proof fn lemma_keys_step_iff_requested(f: Flow, e: Event)
    requires
        f.phase is AwaitSetPassword,
        e == Event::Command(Outcome::Exited(0i32)),
    ensures
        ({
            let (f2, a) = spec_step(f, e);
            &&& f.has_keys ==> f2.phase == Phase::ResolveAccount && a == Action::Lookup(
                f.username,
            )
            &&& !f.has_keys ==> (f2, a) == spec_enter_hostname(f, 0) && !(a is Lookup) && !(
            f2.phase is ResolveAccount) && !(f2.phase is InstallKeys)
        }),
{
}







/// A transition decides only where the orchestrator stands: the planned
/// chains and the SSH-key data of the request are carried through unchanged,
/// so what holds of them at the start holds at every later step.
pub proof fn lemma_step_changes_only_phase(f: Flow, e: Event)
    ensures
        ({
            let (f2, a) = spec_step(f, e);
            &&& f2.user_plans == f.user_plans
            &&& f2.password_plans == f.password_plans
            &&& f2.hostname_plans == f.hostname_plans
            &&& f2.username == f.username
            &&& f2.has_keys == f.has_keys
            &&& f2.keys_content == f.keys_content
        }),
{
    let (f2, a) = spec_step(f, e);
    match spec_advance_chain(f.user_plans@, 0) {
        ChainMove::Succeeded => {},
        ChainMove::NeedRun { .. } => {},
        ChainMove::Exhausted => {},
    }
}

/// A whole run decides only where the orchestrator stands: the planned
/// chains and the SSH-key data of the request survive any event sequence.
pub proof fn lemma_run_changes_only_phase(f: Flow, events: Seq<Event>)
    ensures
        ({
            let (fin, actions) = spec_run(f, events);
            &&& fin.user_plans == f.user_plans
            &&& fin.password_plans == f.password_plans
            &&& fin.hostname_plans == f.hostname_plans
            &&& fin.username == f.username
            &&& fin.has_keys == f.has_keys
            &&& fin.keys_content == f.keys_content
        }),
    decreases events.len(),
{
    if events.len() == 0 {
    } else {
        let (f2, a) = spec_step(f, events[0]);
        lemma_step_changes_only_phase(f, events[0]);
        lemma_run_changes_only_phase(f2, events.drop_first());
    }
}

/// The position of the first variant at or after `lo` that does not reject
/// its input (the chain's length if every remaining variant rejects).
pub open spec fn spec_next_decision(plans: Seq<Plan>, lo: int) -> int
    recommends
        0 <= lo,
    decreases plans.len() - lo,
    when 0 <= lo
{
    if lo >= plans.len() {
        lo
    } else if !(plans[lo] is Rejected) {
        lo
    } else {
        spec_next_decision(plans, lo + 1)
    }
}

/// The first non-rejecting position is a real one: everything before it
/// rejects, and nothing non-rejecting comes earlier.
pub proof fn lemma_next_decision(plans: Seq<Plan>, lo: int)
    requires
        0 <= lo <= plans.len(),
    ensures
        ({
            let t = spec_next_decision(plans, lo);
            &&& lo <= t <= plans.len()
            &&& forall|k: int| lo <= k < t ==> plans[k] is Rejected
            &&& (t < plans.len() ==> !(plans[t] is Rejected))
            &&& forall|k: int| lo <= k < plans.len() && !(plans[k] is Rejected) ==> t <= k
        }),
    decreases plans.len() - lo,
{
    let t = spec_next_decision(plans, lo);
    if lo >= plans.len() {
        assert(t == lo);
        assert(lo <= t <= plans.len());
    } else if !(plans[lo] is Rejected) {
        assert(t == lo);
    } else {
        lemma_next_decision(plans, lo + 1);
        assert(t == spec_next_decision(plans, lo + 1));
        assert(lo <= t <= plans.len());
        assert(t < plans.len() ==> !(plans[t] is Rejected));
        assert forall|k: int| lo <= k < t implies plans[k] is Rejected by {
            if k > lo {
                assert(plans[k] is Rejected);
            }
        }
        assert forall|k: int|
            lo <= k < plans.len() && !(plans[k] is Rejected) implies t <= k by {
            if k > lo {
                assert(t <= k);
            }
        }
    }
}

/// Skipping rejecting variants does not change the chain decision.
pub proof fn lemma_advance_skips_rejections(plans: Seq<Plan>, lo: int, t: int)
    requires
        0 <= lo <= t <= plans.len(),
        forall|k: int| lo <= k < t ==> plans[k] is Rejected,
    ensures
        spec_advance_chain(plans, lo) == spec_advance_chain(plans, t),
    decreases t - lo,
{
    if lo < t {
        assert(plans[lo] is Rejected);
        lemma_advance_skips_rejections(plans, lo + 1, t);
    }
}

/// The positions of the command-planning variants in `plans[lo..hi)`, in
/// order.
pub open spec fn invoke_positions(plans: Seq<Plan>, lo: int, hi: int) -> Seq<int>
    recommends
        0 <= lo,
    decreases hi - lo,
    when lo <= hi
{
    if lo >= hi {
        Seq::empty()
    } else if plans[lo] is Invoke {
        seq![lo] + invoke_positions(plans, lo + 1, hi)
    } else {
        invoke_positions(plans, lo + 1, hi)
    }
}

/// Skipping rejecting variants does not change the command positions.
pub proof fn lemma_invoke_positions_skip(plans: Seq<Plan>, lo: int, t: int, hi: int)
    requires
        0 <= lo <= t <= hi,
        forall|k: int| lo <= k < t ==> plans[k] is Rejected,
    ensures
        invoke_positions(plans, lo, hi) == invoke_positions(plans, t, hi),
    decreases t - lo,
{
    if lo < t {
        assert(plans[lo] is Rejected);
        lemma_invoke_positions_skip(plans, lo + 1, t, hi);
    }
}

/// The command outcomes of a chain whose first success stands at `s`: one
/// failure per command-planning variant before `s`, and a final success
/// exactly when the variant at `s` itself plans a command.
pub open spec fn chain_success_events(plans: Seq<Plan>, idx: int, s: int) -> Seq<Event> {
    let qs = invoke_positions(plans, idx, s + 1);
    if plans[s] is Invoke {
        first_success_events(qs.len() as int)
    } else {
        all_fail_events(qs.len() as int)
    }
}

/// First success wins in the user-creation chain, rejecting variants
/// allowed: with the variant at `s` the first to succeed after `idx` — a
/// no-op variant cannot stand strictly before it, since it would succeed
/// first — each command-planning variant between them is invoked exactly
/// once, in order, nothing after `s` is invoked, and the orchestrator moves
/// on to the password step. One command outcome is consumed per
/// command-planning variant; rejecting variants consume none.
pub proof fn lemma_user_chain_first_success_general(f: Flow, idx: int, s: int)
    requires
        0 <= idx <= s < f.user_plans@.len(),
        f.phase == (Phase::AwaitCreateUser { idx: idx as usize }),
        f.user_plans@[idx] is Invoke,
        forall|k: int| idx <= k < s ==> !(f.user_plans@[k] is Immediate),
        !(f.user_plans@[s] is Rejected),
    ensures
        ({
            let plans = f.user_plans@;
            let qs = invoke_positions(plans, idx, s + 1);
            let (fin, actions) = spec_run(f, chain_success_events(plans, idx, s));
            &&& actions.len() == qs.len()
            &&& forall|j: int|
                0 <= j < qs.len() - 1 ==> actions[j] == Action::Run(
                    plans[qs[j + 1]]->Invoke_0,
                )
            &&& (fin, actions[qs.len() - 1]) == spec_enter_password(f, 0)
        }),
    decreases s - idx,
{
    assert(f.user_plans@.len() == f.user_plans.len());
    let plans = f.user_plans@;
    let qs = invoke_positions(plans, idx, s + 1);
    if idx == s {
        assert(plans[s] is Invoke);
        assert(invoke_positions(plans, s + 1, s + 1) == Seq::<int>::empty());
        assert(qs =~= seq![s]);
        let events = chain_success_events(plans, idx, s);
        assert(events == first_success_events(1));
        let e0 = events[0];
        assert(e0 == Event::Command(Outcome::Exited(0i32)));
        let (f2, a) = spec_step(f, e0);
        assert((f2, a) == spec_enter_password(f, 0));
        assert(events.drop_first() =~= Seq::<Event>::empty());
        assert(spec_run(f2, Seq::<Event>::empty()) == (f2, Seq::<Action>::empty()));
        let (fin, actions) = spec_run(f, events);
        assert(actions =~= seq![a]);
    } else {
        lemma_next_decision(plans, idx + 1);
        let t = spec_next_decision(plans, idx + 1);
        assert(t <= s);
        lemma_advance_skips_rejections(plans, idx + 1, t);
        assert(invoke_positions(plans, idx + 1, s + 1) == invoke_positions(plans, t, s + 1))
            by {
            lemma_invoke_positions_skip(plans, idx + 1, t, s + 1);
        }
        assert(qs =~= seq![idx] + invoke_positions(plans, t, s + 1));
        if t == s && plans[s] is Immediate {
            assert(spec_advance_chain(plans, idx + 1) is Succeeded);
            assert(invoke_positions(plans, s, s + 1) == invoke_positions(plans, s + 1, s + 1));
            assert(qs =~= seq![idx]);
            let events = chain_success_events(plans, idx, s);
            assert(events == all_fail_events(1));
            let e0 = events[0];
            assert(e0 == Event::Command(Outcome::Exited(1i32)));
            let (f2, a) = spec_step(f, e0);
            assert((f2, a) == spec_enter_create_user(f, idx + 1));
            assert((f2, a) == spec_enter_password(f, 0));
            assert(events.drop_first() =~= Seq::<Event>::empty());
            assert(spec_run(f2, Seq::<Event>::empty()) == (f2, Seq::<Action>::empty()));
            let (fin, actions) = spec_run(f, events);
            assert(actions =~= seq![a]);
        } else {
            assert(plans[t] is Invoke);
            assert(spec_advance_chain(plans, idx + 1) == (ChainMove::NeedRun {
                at: t as usize,
                cmd: plans[t]->Invoke_0,
            }));
            let qs2 = invoke_positions(plans, t, s + 1);
            assert(qs2 =~= seq![t] + invoke_positions(plans, t + 1, s + 1));
            assert(qs2[0] == t);
            assert(qs.len() == 1 + qs2.len());
            let events = chain_success_events(plans, idx, s);
            let e0 = events[0];
            assert(e0 == Event::Command(Outcome::Exited(1i32)));
            let (f2, a0) = spec_step(f, e0);
            assert(f2 == with_phase(f, Phase::AwaitCreateUser { idx: t as usize }));
            assert(a0 == Action::Run(plans[t]->Invoke_0));
            assert(f2.user_plans == f.user_plans);
            lemma_user_chain_first_success_general(f2, t, s);
            assert(invoke_positions(f2.user_plans@, t, s + 1) == qs2);
            let events2 = chain_success_events(f2.user_plans@, t, s);
            assert(events2 == (if plans[s] is Invoke {
                first_success_events(qs2.len() as int)
            } else {
                all_fail_events(qs2.len() as int)
            }));
            assert(events.drop_first() =~= events2);
            let (fin2, rest) = spec_run(f2, events2);
            lemma_enter_ignores_phase(f, Phase::AwaitCreateUser { idx: t as usize }, 0);
            assert((fin2, rest[qs2.len() - 1]) == spec_enter_password(f, 0));
            let (fin, actions) = spec_run(f, events);
            assert(fin == fin2);
            assert(actions =~= seq![a0] + rest);
            assert forall|j: int|
                0 <= j < qs.len() - 1 implies actions[j] == Action::Run(
                plans[qs[j + 1]]->Invoke_0,
            ) by {
                if j == 0 {
                    assert(qs[1] == qs2[0]);
                } else {
                    assert(0 <= j - 1 < qs2.len() - 1);
                    assert(rest[j - 1] == Action::Run(f2.user_plans@[qs2[j - 1 + 1]]->Invoke_0));
                    assert(qs[j + 1] == qs2[j]);
                }
            }
            assert(actions[qs.len() - 1] == rest[qs2.len() - 1]);
        }
    }
}

/// Exhaustion of the user-creation chain, rejecting variants allowed: when
/// every variant from `idx` on fails — command-planning variants by their
/// command's outcome, rejecting variants at validation — each
/// command-planning variant is invoked exactly once, in order, the run ends
/// with the user-specific no-provisioner error, and no later orchestrator
/// step can execute. One command outcome is consumed per command-planning
/// variant; rejecting variants consume none.
pub proof fn lemma_user_chain_exhausted_general(f: Flow, idx: int)
    requires
        0 <= idx < f.user_plans@.len(),
        f.phase == (Phase::AwaitCreateUser { idx: idx as usize }),
        f.user_plans@[idx] is Invoke,
        forall|k: int| idx <= k < f.user_plans@.len() ==> !(f.user_plans@[k] is Immediate),
    ensures
        ({
            let plans = f.user_plans@;
            let qs = invoke_positions(plans, idx, plans.len() as int);
            let (fin, actions) = spec_run(f, all_fail_events(qs.len() as int));
            &&& actions.len() == qs.len()
            &&& forall|j: int|
                0 <= j < qs.len() - 1 ==> actions[j] == Action::Run(
                    plans[qs[j + 1]]->Invoke_0,
                )
            &&& actions[qs.len() - 1] == Action::Stop(Result::<(), Error>::Err(
                Error::NoUserProvisioner,
            ))
            &&& fin.phase == Phase::Failed
            &&& forall|e: Event| !accepts(fin, e)
        }),
    decreases f.user_plans@.len() - idx,
{
    assert(f.user_plans@.len() == f.user_plans.len());
    let plans = f.user_plans@;
    let hi = plans.len() as int;
    let qs = invoke_positions(plans, idx, hi);
    lemma_next_decision(plans, idx + 1);
    let t = spec_next_decision(plans, idx + 1);
    lemma_advance_skips_rejections(plans, idx + 1, t);
    lemma_invoke_positions_skip(plans, idx + 1, t, hi);
    assert(qs =~= seq![idx] + invoke_positions(plans, t, hi));
    if t == hi {
        assert(spec_advance_chain(plans, idx + 1) is Exhausted);
        assert(invoke_positions(plans, hi, hi) == Seq::<int>::empty());
        assert(qs =~= seq![idx]);
        let events = all_fail_events(1);
        let e0 = events[0];
        assert(e0 == Event::Command(Outcome::Exited(1i32)));
        let (f2, a) = spec_step(f, e0);
        assert((f2, a) == spec_enter_create_user(f, idx + 1));
        assert(f2.phase == Phase::Failed);
        assert(a == Action::Stop(Result::<(), Error>::Err(Error::NoUserProvisioner)));
        assert(events.drop_first() =~= Seq::<Event>::empty());
        assert(spec_run(f2, Seq::<Event>::empty()) == (f2, Seq::<Action>::empty()));
        let (fin, actions) = spec_run(f, events);
        assert(actions =~= seq![a]);
    } else {
        assert(!(plans[t] is Immediate));
        assert(plans[t] is Invoke);
        assert(spec_advance_chain(plans, idx + 1) == (ChainMove::NeedRun {
            at: t as usize,
            cmd: plans[t]->Invoke_0,
        }));
        let qs2 = invoke_positions(plans, t, hi);
        assert(qs2 =~= seq![t] + invoke_positions(plans, t + 1, hi));
        assert(qs2[0] == t);
        assert(qs.len() == 1 + qs2.len());
        let events = all_fail_events(qs.len() as int);
        let e0 = events[0];
        assert(e0 == Event::Command(Outcome::Exited(1i32)));
        let (f2, a0) = spec_step(f, e0);
        assert(f2 == with_phase(f, Phase::AwaitCreateUser { idx: t as usize }));
        assert(a0 == Action::Run(plans[t]->Invoke_0));
        assert(f2.user_plans == f.user_plans);
        lemma_user_chain_exhausted_general(f2, t);
        assert(invoke_positions(f2.user_plans@, t, hi) == qs2);
        let events2 = all_fail_events(qs2.len() as int);
        assert(events.drop_first() =~= events2);
        let (fin2, rest) = spec_run(f2, events2);
        let (fin, actions) = spec_run(f, events);
        assert(fin == fin2);
        assert(actions =~= seq![a0] + rest);
        assert forall|j: int|
            0 <= j < qs.len() - 1 implies actions[j] == Action::Run(
            plans[qs[j + 1]]->Invoke_0,
        ) by {
            if j == 0 {
                assert(qs[1] == qs2[0]);
            } else {
                assert(0 <= j - 1 < qs2.len() - 1);
                assert(rest[j - 1] == Action::Run(f2.user_plans@[qs2[j - 1 + 1]]->Invoke_0));
                assert(qs[j + 1] == qs2[j]);
            }
        }
        assert(actions[qs.len() - 1] == rest[qs2.len() - 1]);
    }
}

/// First success wins in the password chain, rejecting variants
/// allowed: with the variant at `s` the first to succeed after `idx` — a
/// no-op variant cannot stand strictly before it, since it would succeed
/// first — each command-planning variant between them is invoked exactly
/// once, in order, nothing after `s` is invoked, and the orchestrator moves
/// on to the SSH-key step. One command outcome is consumed per
/// command-planning variant; rejecting variants consume none.
pub proof fn lemma_password_chain_first_success_general(f: Flow, idx: int, s: int)
    requires
        0 <= idx <= s < f.password_plans@.len(),
        f.phase == (Phase::AwaitSetPassword { idx: idx as usize }),
        f.password_plans@[idx] is Invoke,
        forall|k: int| idx <= k < s ==> !(f.password_plans@[k] is Immediate),
        !(f.password_plans@[s] is Rejected),
    ensures
        ({
            let plans = f.password_plans@;
            let qs = invoke_positions(plans, idx, s + 1);
            let (fin, actions) = spec_run(f, chain_success_events(plans, idx, s));
            &&& actions.len() == qs.len()
            &&& forall|j: int|
                0 <= j < qs.len() - 1 ==> actions[j] == Action::Run(
                    plans[qs[j + 1]]->Invoke_0,
                )
            &&& (fin, actions[qs.len() - 1]) == spec_enter_keys(f)
        }),
    decreases s - idx,
{
    assert(f.password_plans@.len() == f.password_plans.len());
    let plans = f.password_plans@;
    let qs = invoke_positions(plans, idx, s + 1);
    if idx == s {
        assert(plans[s] is Invoke);
        assert(invoke_positions(plans, s + 1, s + 1) == Seq::<int>::empty());
        assert(qs =~= seq![s]);
        let events = chain_success_events(plans, idx, s);
        assert(events == first_success_events(1));
        let e0 = events[0];
        assert(e0 == Event::Command(Outcome::Exited(0i32)));
        let (f2, a) = spec_step(f, e0);
        assert((f2, a) == spec_enter_keys(f));
        assert(events.drop_first() =~= Seq::<Event>::empty());
        assert(spec_run(f2, Seq::<Event>::empty()) == (f2, Seq::<Action>::empty()));
        let (fin, actions) = spec_run(f, events);
        assert(actions =~= seq![a]);
    } else {
        lemma_next_decision(plans, idx + 1);
        let t = spec_next_decision(plans, idx + 1);
        assert(t <= s);
        lemma_advance_skips_rejections(plans, idx + 1, t);
        assert(invoke_positions(plans, idx + 1, s + 1) == invoke_positions(plans, t, s + 1))
            by {
            lemma_invoke_positions_skip(plans, idx + 1, t, s + 1);
        }
        assert(qs =~= seq![idx] + invoke_positions(plans, t, s + 1));
        if t == s && plans[s] is Immediate {
            assert(spec_advance_chain(plans, idx + 1) is Succeeded);
            assert(invoke_positions(plans, s, s + 1) == invoke_positions(plans, s + 1, s + 1));
            assert(qs =~= seq![idx]);
            let events = chain_success_events(plans, idx, s);
            assert(events == all_fail_events(1));
            let e0 = events[0];
            assert(e0 == Event::Command(Outcome::Exited(1i32)));
            let (f2, a) = spec_step(f, e0);
            assert((f2, a) == spec_enter_password(f, idx + 1));
            assert((f2, a) == spec_enter_keys(f));
            assert(events.drop_first() =~= Seq::<Event>::empty());
            assert(spec_run(f2, Seq::<Event>::empty()) == (f2, Seq::<Action>::empty()));
            let (fin, actions) = spec_run(f, events);
            assert(actions =~= seq![a]);
        } else {
            assert(plans[t] is Invoke);
            assert(spec_advance_chain(plans, idx + 1) == (ChainMove::NeedRun {
                at: t as usize,
                cmd: plans[t]->Invoke_0,
            }));
            let qs2 = invoke_positions(plans, t, s + 1);
            assert(qs2 =~= seq![t] + invoke_positions(plans, t + 1, s + 1));
            assert(qs2[0] == t);
            assert(qs.len() == 1 + qs2.len());
            let events = chain_success_events(plans, idx, s);
            let e0 = events[0];
            assert(e0 == Event::Command(Outcome::Exited(1i32)));
            let (f2, a0) = spec_step(f, e0);
            assert(f2 == with_phase(f, Phase::AwaitSetPassword { idx: t as usize }));
            assert(a0 == Action::Run(plans[t]->Invoke_0));
            assert(f2.password_plans == f.password_plans);
            lemma_password_chain_first_success_general(f2, t, s);
            assert(invoke_positions(f2.password_plans@, t, s + 1) == qs2);
            let events2 = chain_success_events(f2.password_plans@, t, s);
            assert(events2 == (if plans[s] is Invoke {
                first_success_events(qs2.len() as int)
            } else {
                all_fail_events(qs2.len() as int)
            }));
            assert(events.drop_first() =~= events2);
            let (fin2, rest) = spec_run(f2, events2);
            lemma_enter_ignores_phase(f, Phase::AwaitSetPassword { idx: t as usize }, 0);
            assert((fin2, rest[qs2.len() - 1]) == spec_enter_keys(f));
            let (fin, actions) = spec_run(f, events);
            assert(fin == fin2);
            assert(actions =~= seq![a0] + rest);
            assert forall|j: int|
                0 <= j < qs.len() - 1 implies actions[j] == Action::Run(
                plans[qs[j + 1]]->Invoke_0,
            ) by {
                if j == 0 {
                    assert(qs[1] == qs2[0]);
                } else {
                    assert(0 <= j - 1 < qs2.len() - 1);
                    assert(rest[j - 1] == Action::Run(f2.password_plans@[qs2[j - 1 + 1]]->Invoke_0));
                    assert(qs[j + 1] == qs2[j]);
                }
            }
            assert(actions[qs.len() - 1] == rest[qs2.len() - 1]);
        }
    }
}

/// First success wins in the hostname chain, rejecting variants
/// allowed: with the variant at `s` the first to succeed after `idx` — a
/// no-op variant cannot stand strictly before it, since it would succeed
/// first — each command-planning variant between them is invoked exactly
/// once, in order, nothing after `s` is invoked, and the run finishes
/// successfully. One command outcome is consumed per
/// command-planning variant; rejecting variants consume none.
pub proof fn lemma_hostname_chain_first_success_general(f: Flow, idx: int, s: int)
    requires
        0 <= idx <= s < f.hostname_plans@.len(),
        f.phase == (Phase::AwaitSetHostname { idx: idx as usize }),
        f.hostname_plans@[idx] is Invoke,
        forall|k: int| idx <= k < s ==> !(f.hostname_plans@[k] is Immediate),
        !(f.hostname_plans@[s] is Rejected),
    ensures
        ({
            let plans = f.hostname_plans@;
            let qs = invoke_positions(plans, idx, s + 1);
            let (fin, actions) = spec_run(f, chain_success_events(plans, idx, s));
            &&& actions.len() == qs.len()
            &&& forall|j: int|
                0 <= j < qs.len() - 1 ==> actions[j] == Action::Run(
                    plans[qs[j + 1]]->Invoke_0,
                )
            &&& actions[qs.len() - 1] == Action::Stop(Result::<(), Error>::Ok(()))
            &&& fin.phase == Phase::Done
        }),
    decreases s - idx,
{
    assert(f.hostname_plans@.len() == f.hostname_plans.len());
    let plans = f.hostname_plans@;
    let qs = invoke_positions(plans, idx, s + 1);
    if idx == s {
        assert(plans[s] is Invoke);
        assert(invoke_positions(plans, s + 1, s + 1) == Seq::<int>::empty());
        assert(qs =~= seq![s]);
        let events = chain_success_events(plans, idx, s);
        assert(events == first_success_events(1));
        let e0 = events[0];
        assert(e0 == Event::Command(Outcome::Exited(0i32)));
        let (f2, a) = spec_step(f, e0);
        assert(f2.phase == Phase::Done);
        assert(a == Action::Stop(Result::<(), Error>::Ok(())));
        assert(events.drop_first() =~= Seq::<Event>::empty());
        assert(spec_run(f2, Seq::<Event>::empty()) == (f2, Seq::<Action>::empty()));
        let (fin, actions) = spec_run(f, events);
        assert(actions =~= seq![a]);
    } else {
        lemma_next_decision(plans, idx + 1);
        let t = spec_next_decision(plans, idx + 1);
        assert(t <= s);
        lemma_advance_skips_rejections(plans, idx + 1, t);
        assert(invoke_positions(plans, idx + 1, s + 1) == invoke_positions(plans, t, s + 1))
            by {
            lemma_invoke_positions_skip(plans, idx + 1, t, s + 1);
        }
        assert(qs =~= seq![idx] + invoke_positions(plans, t, s + 1));
        if t == s && plans[s] is Immediate {
            assert(spec_advance_chain(plans, idx + 1) is Succeeded);
            assert(invoke_positions(plans, s, s + 1) == invoke_positions(plans, s + 1, s + 1));
            assert(qs =~= seq![idx]);
            let events = chain_success_events(plans, idx, s);
            assert(events == all_fail_events(1));
            let e0 = events[0];
            assert(e0 == Event::Command(Outcome::Exited(1i32)));
            let (f2, a) = spec_step(f, e0);
            assert((f2, a) == spec_enter_hostname(f, idx + 1));
            assert(f2.phase == Phase::Done);
            assert(a == Action::Stop(Result::<(), Error>::Ok(())));
            assert(events.drop_first() =~= Seq::<Event>::empty());
            assert(spec_run(f2, Seq::<Event>::empty()) == (f2, Seq::<Action>::empty()));
            let (fin, actions) = spec_run(f, events);
            assert(actions =~= seq![a]);
        } else {
            assert(plans[t] is Invoke);
            assert(spec_advance_chain(plans, idx + 1) == (ChainMove::NeedRun {
                at: t as usize,
                cmd: plans[t]->Invoke_0,
            }));
            let qs2 = invoke_positions(plans, t, s + 1);
            assert(qs2 =~= seq![t] + invoke_positions(plans, t + 1, s + 1));
            assert(qs2[0] == t);
            assert(qs.len() == 1 + qs2.len());
            let events = chain_success_events(plans, idx, s);
            let e0 = events[0];
            assert(e0 == Event::Command(Outcome::Exited(1i32)));
            let (f2, a0) = spec_step(f, e0);
            assert(f2 == with_phase(f, Phase::AwaitSetHostname { idx: t as usize }));
            assert(a0 == Action::Run(plans[t]->Invoke_0));
            assert(f2.hostname_plans == f.hostname_plans);
            lemma_hostname_chain_first_success_general(f2, t, s);
            assert(invoke_positions(f2.hostname_plans@, t, s + 1) == qs2);
            let events2 = chain_success_events(f2.hostname_plans@, t, s);
            assert(events2 == (if plans[s] is Invoke {
                first_success_events(qs2.len() as int)
            } else {
                all_fail_events(qs2.len() as int)
            }));
            assert(events.drop_first() =~= events2);
            let (fin2, rest) = spec_run(f2, events2);
            assert(rest[qs2.len() - 1] == Action::Stop(Result::<(), Error>::Ok(())));
            assert(fin2.phase == Phase::Done);
            let (fin, actions) = spec_run(f, events);
            assert(fin == fin2);
            assert(actions =~= seq![a0] + rest);
            assert forall|j: int|
                0 <= j < qs.len() - 1 implies actions[j] == Action::Run(
                plans[qs[j + 1]]->Invoke_0,
            ) by {
                if j == 0 {
                    assert(qs[1] == qs2[0]);
                } else {
                    assert(0 <= j - 1 < qs2.len() - 1);
                    assert(rest[j - 1] == Action::Run(f2.hostname_plans@[qs2[j - 1 + 1]]->Invoke_0));
                    assert(qs[j + 1] == qs2[j]);
                }
            }
            assert(actions[qs.len() - 1] == rest[qs2.len() - 1]);
        }
    }
}

/// Exhaustion of the password chain, rejecting variants allowed: when
/// every variant from `idx` on fails — command-planning variants by their
/// command's outcome, rejecting variants at validation — each
/// command-planning variant is invoked exactly once, in order, the run ends
/// with the password-specific no-provisioner error, and no later orchestrator
/// step can execute. One command outcome is consumed per command-planning
/// variant; rejecting variants consume none.
pub proof fn lemma_password_chain_exhausted_general(f: Flow, idx: int)
    requires
        0 <= idx < f.password_plans@.len(),
        f.phase == (Phase::AwaitSetPassword { idx: idx as usize }),
        f.password_plans@[idx] is Invoke,
        forall|k: int| idx <= k < f.password_plans@.len() ==> !(f.password_plans@[k] is Immediate),
    ensures
        ({
            let plans = f.password_plans@;
            let qs = invoke_positions(plans, idx, plans.len() as int);
            let (fin, actions) = spec_run(f, all_fail_events(qs.len() as int));
            &&& actions.len() == qs.len()
            &&& forall|j: int|
                0 <= j < qs.len() - 1 ==> actions[j] == Action::Run(
                    plans[qs[j + 1]]->Invoke_0,
                )
            &&& actions[qs.len() - 1] == Action::Stop(Result::<(), Error>::Err(
                Error::NoPasswordProvisioner,
            ))
            &&& fin.phase == Phase::Failed
            &&& forall|e: Event| !accepts(fin, e)
        }),
    decreases f.password_plans@.len() - idx,
{
    assert(f.password_plans@.len() == f.password_plans.len());
    let plans = f.password_plans@;
    let hi = plans.len() as int;
    let qs = invoke_positions(plans, idx, hi);
    lemma_next_decision(plans, idx + 1);
    let t = spec_next_decision(plans, idx + 1);
    lemma_advance_skips_rejections(plans, idx + 1, t);
    lemma_invoke_positions_skip(plans, idx + 1, t, hi);
    assert(qs =~= seq![idx] + invoke_positions(plans, t, hi));
    if t == hi {
        assert(spec_advance_chain(plans, idx + 1) is Exhausted);
        assert(invoke_positions(plans, hi, hi) == Seq::<int>::empty());
        assert(qs =~= seq![idx]);
        let events = all_fail_events(1);
        let e0 = events[0];
        assert(e0 == Event::Command(Outcome::Exited(1i32)));
        let (f2, a) = spec_step(f, e0);
        assert((f2, a) == spec_enter_password(f, idx + 1));
        assert(f2.phase == Phase::Failed);
        assert(a == Action::Stop(Result::<(), Error>::Err(Error::NoPasswordProvisioner)));
        assert(events.drop_first() =~= Seq::<Event>::empty());
        assert(spec_run(f2, Seq::<Event>::empty()) == (f2, Seq::<Action>::empty()));
        let (fin, actions) = spec_run(f, events);
        assert(actions =~= seq![a]);
    } else {
        assert(!(plans[t] is Immediate));
        assert(plans[t] is Invoke);
        assert(spec_advance_chain(plans, idx + 1) == (ChainMove::NeedRun {
            at: t as usize,
            cmd: plans[t]->Invoke_0,
        }));
        let qs2 = invoke_positions(plans, t, hi);
        assert(qs2 =~= seq![t] + invoke_positions(plans, t + 1, hi));
        assert(qs2[0] == t);
        assert(qs.len() == 1 + qs2.len());
        let events = all_fail_events(qs.len() as int);
        let e0 = events[0];
        assert(e0 == Event::Command(Outcome::Exited(1i32)));
        let (f2, a0) = spec_step(f, e0);
        assert(f2 == with_phase(f, Phase::AwaitSetPassword { idx: t as usize }));
        assert(a0 == Action::Run(plans[t]->Invoke_0));
        assert(f2.password_plans == f.password_plans);
        lemma_password_chain_exhausted_general(f2, t);
        assert(invoke_positions(f2.password_plans@, t, hi) == qs2);
        let events2 = all_fail_events(qs2.len() as int);
        assert(events.drop_first() =~= events2);
        let (fin2, rest) = spec_run(f2, events2);
        let (fin, actions) = spec_run(f, events);
        assert(fin == fin2);
        assert(actions =~= seq![a0] + rest);
        assert forall|j: int|
            0 <= j < qs.len() - 1 implies actions[j] == Action::Run(
            plans[qs[j + 1]]->Invoke_0,
        ) by {
            if j == 0 {
                assert(qs[1] == qs2[0]);
            } else {
                assert(0 <= j - 1 < qs2.len() - 1);
                assert(rest[j - 1] == Action::Run(f2.password_plans@[qs2[j - 1 + 1]]->Invoke_0));
                assert(qs[j + 1] == qs2[j]);
            }
        }
        assert(actions[qs.len() - 1] == rest[qs2.len() - 1]);
    }
}

/// Exhaustion of the hostname chain, rejecting variants allowed: when
/// every variant from `idx` on fails — command-planning variants by their
/// command's outcome, rejecting variants at validation — each
/// command-planning variant is invoked exactly once, in order, the run ends
/// with the hostname-specific no-provisioner error, and no later orchestrator
/// step can execute. One command outcome is consumed per command-planning
/// variant; rejecting variants consume none.
pub proof fn lemma_hostname_chain_exhausted_general(f: Flow, idx: int)
    requires
        0 <= idx < f.hostname_plans@.len(),
        f.phase == (Phase::AwaitSetHostname { idx: idx as usize }),
        f.hostname_plans@[idx] is Invoke,
        forall|k: int| idx <= k < f.hostname_plans@.len() ==> !(f.hostname_plans@[k] is Immediate),
    ensures
        ({
            let plans = f.hostname_plans@;
            let qs = invoke_positions(plans, idx, plans.len() as int);
            let (fin, actions) = spec_run(f, all_fail_events(qs.len() as int));
            &&& actions.len() == qs.len()
            &&& forall|j: int|
                0 <= j < qs.len() - 1 ==> actions[j] == Action::Run(
                    plans[qs[j + 1]]->Invoke_0,
                )
            &&& actions[qs.len() - 1] == Action::Stop(Result::<(), Error>::Err(
                Error::NoHostnameProvisioner,
            ))
            &&& fin.phase == Phase::Failed
            &&& forall|e: Event| !accepts(fin, e)
        }),
    decreases f.hostname_plans@.len() - idx,
{
    assert(f.hostname_plans@.len() == f.hostname_plans.len());
    let plans = f.hostname_plans@;
    let hi = plans.len() as int;
    let qs = invoke_positions(plans, idx, hi);
    lemma_next_decision(plans, idx + 1);
    let t = spec_next_decision(plans, idx + 1);
    lemma_advance_skips_rejections(plans, idx + 1, t);
    lemma_invoke_positions_skip(plans, idx + 1, t, hi);
    assert(qs =~= seq![idx] + invoke_positions(plans, t, hi));
    if t == hi {
        assert(spec_advance_chain(plans, idx + 1) is Exhausted);
        assert(invoke_positions(plans, hi, hi) == Seq::<int>::empty());
        assert(qs =~= seq![idx]);
        let events = all_fail_events(1);
        let e0 = events[0];
        assert(e0 == Event::Command(Outcome::Exited(1i32)));
        let (f2, a) = spec_step(f, e0);
        assert((f2, a) == spec_enter_hostname(f, idx + 1));
        assert(f2.phase == Phase::Failed);
        assert(a == Action::Stop(Result::<(), Error>::Err(Error::NoHostnameProvisioner)));
        assert(events.drop_first() =~= Seq::<Event>::empty());
        assert(spec_run(f2, Seq::<Event>::empty()) == (f2, Seq::<Action>::empty()));
        let (fin, actions) = spec_run(f, events);
        assert(actions =~= seq![a]);
    } else {
        assert(!(plans[t] is Immediate));
        assert(plans[t] is Invoke);
        assert(spec_advance_chain(plans, idx + 1) == (ChainMove::NeedRun {
            at: t as usize,
            cmd: plans[t]->Invoke_0,
        }));
        let qs2 = invoke_positions(plans, t, hi);
        assert(qs2 =~= seq![t] + invoke_positions(plans, t + 1, hi));
        assert(qs2[0] == t);
        assert(qs.len() == 1 + qs2.len());
        let events = all_fail_events(qs.len() as int);
        let e0 = events[0];
        assert(e0 == Event::Command(Outcome::Exited(1i32)));
        let (f2, a0) = spec_step(f, e0);
        assert(f2 == with_phase(f, Phase::AwaitSetHostname { idx: t as usize }));
        assert(a0 == Action::Run(plans[t]->Invoke_0));
        assert(f2.hostname_plans == f.hostname_plans);
        lemma_hostname_chain_exhausted_general(f2, t);
        assert(invoke_positions(f2.hostname_plans@, t, hi) == qs2);
        let events2 = all_fail_events(qs2.len() as int);
        assert(events.drop_first() =~= events2);
        let (fin2, rest) = spec_run(f2, events2);
        let (fin, actions) = spec_run(f, events);
        assert(fin == fin2);
        assert(actions =~= seq![a0] + rest);
        assert forall|j: int|
            0 <= j < qs.len() - 1 implies actions[j] == Action::Run(
            plans[qs[j + 1]]->Invoke_0,
        ) by {
            if j == 0 {
                assert(qs[1] == qs2[0]);
            } else {
                assert(0 <= j - 1 < qs2.len() - 1);
                assert(rest[j - 1] == Action::Run(f2.hostname_plans@[qs2[j - 1 + 1]]->Invoke_0));
                assert(qs[j + 1] == qs2[j]);
            }
        }
        assert(actions[qs.len() - 1] == rest[qs2.len() - 1]);
    }
}

} // verus!
