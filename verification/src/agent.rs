//! The whole provisioning run as one state machine: query the metadata
//! service, decide the configuration source from its password-authentication
//! flag, resolve the configuration medium when the metadata service cannot be
//! trusted for credentials, provision the host, and only then perform the
//! goal-state handshake.
//!
//! The surroundings perform each action (network fetches, mounts, commands)
//! and hand the outcome back as an event.

use std::rc::Rc;
use vstd::prelude::*;

use crate::backend::Command;
use crate::error::Error;
use crate::error::ImdsField;
use crate::goalstate;
use crate::goalstate::HealthReport;
use crate::imds;
use crate::hostname;
use crate::imds::PublicKeysView;
use crate::media;
use crate::password;
use crate::provision;
use crate::provision::KeysInstall;
use crate::provision::Provision;
use crate::ssh;
use crate::user;
use crate::user::User;
use crate::user::UserView;

verus! {

/// Where the provisioning run stands.
pub enum AgentPhase {
    /// The metadata body is being fetched.
    AwaitImds,
    /// The configuration medium is being resolved.
    ResolvingMedium(media::Resolver),
    /// The host is being provisioned.
    Provisioning(provision::Flow),
    /// The goal-state document is being fetched.
    AwaitGoalstate,
    /// The health report is being submitted.
    AwaitReport,
    /// The run ended.
    Finished,
}

/// What the surroundings hand back to the agent.
pub enum AgentEvent {
    /// The metadata body, or the transport failure fetching it.
    ImdsBody(Result<String, Error>),
    /// An outcome of a medium action.
    Medium(media::MediumEvent),
    /// An outcome of a provisioning action.
    Prov(provision::Event),
    /// The goal-state body, or the transport failure fetching it.
    GoalstateBody(Result<String, Error>),
    /// Whether the hypervisor accepted the submitted health report.
    ReportOutcome(bool),
}

/// What the agent asks the surroundings to do next.
#[derive(Debug, PartialEq, Eq)]
pub enum AgentAction {
    /// Fetch the metadata body from the metadata endpoint.
    FetchImds,
    /// Mount this candidate device, read and parse its environment document.
    Mount(Rc<String>),
    /// Unmount this candidate device.
    Unmount(Rc<String>),
    /// Run this external command.
    Run(Rc<Command>),
    /// Resolve this account on the host.
    Lookup(String),
    /// Write the authorized-keys file.
    WriteKeys(KeysInstall),
    /// Fetch the goal-state document.
    FetchGoalstate,
    /// Submit this health report.
    SendReport(HealthReport),
    /// Terminal: the run ended with this outcome.
    Finish(Result<(), Error>),
}

/// The provisioning agent: the candidate configuration-medium devices it was
/// given, the metadata body once fetched, and where the run stands.
pub struct Agent {
    pub devices: Vec<String>,
    pub imds_body: Option<String>,
    pub phase: AgentPhase,
}

/// Which events the agent can consume in its current phase.
pub open spec fn agent_accepts(a: &Agent, e: &AgentEvent) -> bool {
    match a.phase {
        AgentPhase::AwaitImds => e is ImdsBody,
        AgentPhase::ResolvingMedium(r) => match e {
            AgentEvent::Medium(me) => media::medium_accepts(r, *me),
            _ => false,
        },
        AgentPhase::Provisioning(f) => match e {
            AgentEvent::Prov(pe) => provision::accepts(f, *pe),
            _ => false,
        },
        AgentPhase::AwaitGoalstate => e is GoalstateBody,
        AgentPhase::AwaitReport => e is ReportOutcome,
        AgentPhase::Finished => false,
    }
}

/// The agent's well-formedness: an embedded machine is well-formed.
pub open spec fn agent_wf(a: &Agent) -> bool {
    match a.phase {
        AgentPhase::ResolvingMedium(r) => media::medium_wf(r),
        AgentPhase::Provisioning(f) => provision::wf(f),
        _ => true,
    }
}

/// The user the provisioning request is built from: the resolved username,
/// the administrative default group, the metadata body's public keys, and no
/// password.
pub open spec fn spec_request_user(body: Seq<char>, username: Seq<char>) -> UserView {
    UserView {
        name: username,
        groups: seq!["wheel"@],
        ssh_keys: imds::spec_public_keys(body),
        password: Option::<Seq<char>>::None,
    }
}

/// The orchestrator holds exactly the request planned from the metadata body
/// and the resolved username: the default backend of each resource planned
/// for that user, the body's hostname, an empty requested password, and the
/// body's keys as the authorized-keys payload.
pub open spec fn flow_from_source(
    f: provision::Flow,
    body: Seq<char>,
    username: Seq<char>,
) -> bool {
    let u = spec_request_user(body, username);
    &&& provision::plan_views(f.user_plans@) == seq![
        user::spec_create(user::Provisioner::Useradd, u),
    ]
    &&& provision::plan_views(f.password_plans@) == seq![
        password::spec_set(password::Provisioner::Passwd, username, Seq::<char>::empty()),
    ]
    &&& provision::plan_views(f.hostname_plans@) == seq![
        hostname::spec_set(
            hostname::Provisioner::Hostnamectl,
            imds::spec_field_after(body, imds::hostname_marker())->Some_0,
        ),
    ]
    &&& f.username@ == username
    &&& f.has_keys == (imds::spec_key_data(body).len() > 0)
    &&& f.keys_content@ == ssh::spec_authorized_data(imds::spec_key_data(body))
}

/// What beginning to provision `username` from `body` owes: the
/// field-specific error when the body's keys or hostname cannot be
/// extracted; otherwise provisioning starts, holding exactly the planned
/// request, with the user-creation command as the first action.
pub open spec fn spec_begin_provisioning(
    r: (Agent, AgentAction),
    body: Seq<char>,
    username: Seq<char>,
) -> bool {
    &&& (!imds::spec_keys_wellformed(body) ==> r.0.phase is Finished && r.1
        == AgentAction::Finish(Result::<(), Error>::Err(
        Error::ImdsFieldInvalid { field: ImdsField::PublicKeys },
    )))
    &&& (imds::spec_keys_wellformed(body) && imds::spec_field_after(
        body,
        imds::hostname_marker(),
    ) is None ==> r.0.phase is Finished && r.1 == AgentAction::Finish(
        Result::<(), Error>::Err(Error::ImdsFieldInvalid { field: ImdsField::Hostname }),
    ))
    &&& (imds::spec_keys_wellformed(body) && imds::spec_field_after(
        body,
        imds::hostname_marker(),
    ) is Some ==> {
        &&& r.0.phase matches AgentPhase::Provisioning(f) && flow_from_source(f, body, username)
        &&& r.1 matches AgentAction::Run(c) && c@ == user::spec_useradd_command(
            spec_request_user(body, username),
        )
    })
}

impl Agent {
    /// Starts a provisioning run. The candidate configuration-medium devices
    /// are enumerated by the surroundings up front; they are consulted only
    /// if the metadata service reports password authentication enabled. The
    /// first action is always the metadata fetch.
    pub fn new(devices: Vec<String>) -> (r: (Agent, AgentAction))
        ensures
            r.0.devices == devices,
            r.0.phase is AwaitImds,
            r.1 == AgentAction::FetchImds,
            agent_wf(&r.0),
    {
        (Agent { devices, imds_body: None, phase: AgentPhase::AwaitImds }, AgentAction::FetchImds)
    }

    /// Whether the agent can consume this event now.
    pub fn accepts_event(&self, e: &AgentEvent) -> (b: bool)
        ensures
            b == agent_accepts(self, e),
    {
        match &self.phase {
            AgentPhase::AwaitImds => matches!(e, AgentEvent::ImdsBody(_)),
            AgentPhase::ResolvingMedium(r) => match e {
                AgentEvent::Medium(me) => r.accepts_event(me),
                _ => false,
            },
            AgentPhase::Provisioning(f) => match e {
                AgentEvent::Prov(pe) => f.accepts_event(pe),
                _ => false,
            },
            AgentPhase::AwaitGoalstate => matches!(e, AgentEvent::GoalstateBody(_)),
            AgentPhase::AwaitReport => matches!(e, AgentEvent::ReportOutcome(_)),
            AgentPhase::Finished => false,
        }
    }

    /// Consumes the outcome of the last action and decides the next one.
    ///
    /// The configuration-source decision: with password authentication
    /// disabled in the metadata body, the metadata service is trusted for
    /// the username and the medium is never consulted; with it enabled, the
    /// first medium candidate is mounted and no host mutation is planned
    /// before a medium yields an environment. The goal-state handshake is
    /// entered only when provisioning has succeeded, and the run succeeds
    /// only when the hypervisor accepted the health report.
    pub fn step(self, e: AgentEvent) -> (r: (Agent, AgentAction))
        requires
            agent_accepts(&self, &e),
            agent_wf(&self),
        ensures
            agent_wf(&r.0),
            r.0.devices == self.devices,
            !(self.phase is AwaitImds) ==> r.0.imds_body == self.imds_body,
            self.phase is AwaitImds ==> (match e {
                AgentEvent::ImdsBody(body) => match body {
                    Ok(b) => {
                        &&& r.0.imds_body == Some(b)
                        &&& (imds::spec_disable_auth_flag(b@) is None ==> r.0.phase is Finished
                            && r.1 == AgentAction::Finish(Result::<(), Error>::Err(
                            Error::ImdsFieldInvalid {
                                field: ImdsField::DisablePasswordAuthentication,
                            },
                        )))
                        &&& (imds::spec_disable_auth_flag(b@) == Some(true) ==> {
                            let uname = imds::spec_field_after(b@, imds::username_marker());
                            &&& (uname is None ==> r.0.phase is Finished && r.1
                                == AgentAction::Finish(Result::<(), Error>::Err(
                                Error::ImdsFieldInvalid { field: ImdsField::Username },
                            )))
                            &&& (uname matches Some(u) ==> spec_begin_provisioning(r, b@, u))
                        })
                        &&& (imds::spec_disable_auth_flag(b@) == Some(false) ==> {
                            &&& (self.devices.deep_view().len() == 0 ==> r.0.phase is Finished
                                && r.1 == AgentAction::Finish(Result::<(), Error>::Err(
                                Error::NoViableMedium,
                            )))
                            &&& (self.devices.deep_view().len() > 0 ==> ({
                                &&& r.0.phase matches AgentPhase::ResolvingMedium(m)
                                    && m.devices.deep_view() == self.devices.deep_view()
                                    && m.idx == 0 && m.phase is AwaitMount
                                &&& r.1 matches AgentAction::Mount(d) && d@
                                    == self.devices.deep_view()[0]
                            }))
                        })
                    },
                    Err(err) => r.0.phase is Finished && r.1 == AgentAction::Finish(
                        Result::<(), Error>::Err(err),
                    ),
                },
                _ => true,
            }),
            self.phase matches AgentPhase::ResolvingMedium(m) ==> (match e {
                AgentEvent::Medium(me) => {
                    let (m2, act) = media::spec_medium_step(m, me);
                    &&& (act matches media::MediumAction::Mount(d) ==> r.0.phase
                        == AgentPhase::ResolvingMedium(m2) && r.1 == AgentAction::Mount(d))
                    &&& (act matches media::MediumAction::Unmount(d) ==> r.0.phase
                        == AgentPhase::ResolvingMedium(m2) && r.1 == AgentAction::Unmount(d))
                    &&& (act matches media::MediumAction::Stop(res) ==> match res {
                        Ok(env) => match self.imds_body {
                            Some(b) => spec_begin_provisioning(r, b@, env.username@),
                            None => r.1 == AgentAction::Finish(Result::<(), Error>::Err(
                                Error::Transport,
                            )),
                        },
                        Err(err) => r.0.phase is Finished && r.1 == AgentAction::Finish(
                            Result::<(), Error>::Err(err),
                        ),
                    })
                },
                _ => true,
            }),
            self.phase matches AgentPhase::Provisioning(f) ==> (match e {
                AgentEvent::Prov(pe) => {
                    let (f2, act) = provision::spec_step(f, pe);
                    &&& (act == provision::Action::Stop(Result::<(), Error>::Ok(())) ==> r.1
                        == AgentAction::FetchGoalstate && r.0.phase is AwaitGoalstate)
                    &&& (act matches provision::Action::Stop(res) ==> (res matches Err(err)
                        ==> r.1 == AgentAction::Finish(Result::<(), Error>::Err(err))
                        && r.0.phase is Finished))
                    &&& (act matches provision::Action::Run(c) ==> r.1 == AgentAction::Run(c)
                        && r.0.phase == AgentPhase::Provisioning(f2))
                    &&& (act matches provision::Action::Lookup(n) ==> r.1
                        == AgentAction::Lookup(n) && r.0.phase == AgentPhase::Provisioning(f2))
                    &&& (act matches provision::Action::WriteKeys(k) ==> r.1
                        == AgentAction::WriteKeys(k) && r.0.phase == AgentPhase::Provisioning(
                        f2,
                    ))
                },
                _ => true,
            }),
            self.phase is AwaitGoalstate ==> (match e {
                AgentEvent::GoalstateBody(body) => match body {
                    Ok(b) => match goalstate::spec_parse_goalstate(b@) {
                        Some(g) => r.1 matches AgentAction::SendReport(rep)
                            && rep.incarnation@ == g.incarnation && rep.document@
                            == goalstate::spec_health_document(g) && r.0.phase is AwaitReport,
                        None => r.1 == AgentAction::Finish(Result::<(), Error>::Err(
                            Error::GoalstateInvalid,
                        )),
                    },
                    Err(err) => r.1 == AgentAction::Finish(Result::<(), Error>::Err(err)),
                },
                _ => true,
            }),
            self.phase is AwaitReport ==> (match e {
                AgentEvent::ReportOutcome(ok) => {
                    &&& (ok ==> r.1 == AgentAction::Finish(Result::<(), Error>::Ok(())))
                    &&& (!ok ==> r.1 == AgentAction::Finish(Result::<(), Error>::Err(
                        Error::HealthReportRejected,
                    )))
                },
                _ => true,
            }),
    {
        let Agent { devices, imds_body, phase } = self;
        match phase {
            AgentPhase::AwaitImds => match e {
                AgentEvent::ImdsBody(body) => match body {
                    Ok(b) => match imds::is_password_authentication_disabled(b.as_str()) {
                        Err(err) => finish(devices, Some(b), Err(err)),
                        Ok(true) => match imds::get_username(b.as_str()) {
                            Err(err) => finish(devices, Some(b), Err(err)),
                            Ok(username) => begin_provisioning(devices, b, username),
                        },
                        Ok(false) => {
                            let devs = clone_devices(&devices);
                            proof {
                                assert(devs.deep_view().len() == devs@.len());
                                assert(devices.deep_view().len() == devices@.len());
                            }
                            let (resolver, act) = media::Resolver::new(devs);
                            proof {
                                assert(resolver.devices.deep_view().len()
                                    == resolver.devices@.len());
                                if devices@.len() == 0 {
                                    assert(resolver.devices@.len() == 0);
                                    assert(act == media::MediumAction::Stop(
                                        Result::<media::Environment, Error>::Err(
                                            Error::NoViableMedium,
                                        ),
                                    ));
                                }
                            }
                            forward_medium(devices, Some(b), resolver, act)
                        },
                    },
                    Err(err) => finish(devices, imds_body, Err(err)),
                },
                _ => {
                    proof {
                        assert(false);
                    }
                    finish(devices, imds_body, Err(Error::Transport))
                },
            },
            AgentPhase::ResolvingMedium(resolver) => match e {
                AgentEvent::Medium(me) => {
                    let (r2, act) = resolver.step(me);
                    match act {
                        media::MediumAction::Stop(res) => match res {
                            Ok(env) => match imds_body {
                                Some(b) => begin_provisioning(devices, b, env.username),
                                None => finish(devices, None, Err(Error::Transport)),
                            },
                            Err(err) => finish(devices, imds_body, Err(err)),
                        },
                        media::MediumAction::Mount(d) => (
                            Agent {
                                devices,
                                imds_body,
                                phase: AgentPhase::ResolvingMedium(r2),
                            },
                            AgentAction::Mount(d),
                        ),
                        media::MediumAction::Unmount(d) => (
                            Agent {
                                devices,
                                imds_body,
                                phase: AgentPhase::ResolvingMedium(r2),
                            },
                            AgentAction::Unmount(d),
                        ),
                    }
                },
                _ => {
                    proof {
                        assert(false);
                    }
                    finish(devices, imds_body, Err(Error::Transport))
                },
            },
            AgentPhase::Provisioning(flow) => match e {
                AgentEvent::Prov(pe) => {
                    let (f2, act) = flow.step(pe);
                    forward_provision(devices, imds_body, f2, act)
                },
                _ => {
                    proof {
                        assert(false);
                    }
                    finish(devices, imds_body, Err(Error::Transport))
                },
            },
            AgentPhase::AwaitGoalstate => match e {
                AgentEvent::GoalstateBody(body) => match body {
                    Ok(b) => match goalstate::get_goalstate(b.as_str()) {
                        Ok(g) => {
                            let report = goalstate::report_health(g);
                            (
                                Agent { devices, imds_body, phase: AgentPhase::AwaitReport },
                                AgentAction::SendReport(report),
                            )
                        },
                        Err(err) => finish(devices, imds_body, Err(err)),
                    },
                    Err(err) => finish(devices, imds_body, Err(err)),
                },
                _ => {
                    proof {
                        assert(false);
                    }
                    finish(devices, imds_body, Err(Error::Transport))
                },
            },
            AgentPhase::AwaitReport => match e {
                AgentEvent::ReportOutcome(ok) => {
                    if ok {
                        finish(devices, imds_body, Ok(()))
                    } else {
                        finish(devices, imds_body, Err(Error::HealthReportRejected))
                    }
                },
                _ => {
                    proof {
                        assert(false);
                    }
                    finish(devices, imds_body, Err(Error::Transport))
                },
            },
            AgentPhase::Finished => {
                proof {
                    assert(false);
                }
                finish(devices, imds_body, Err(Error::Transport))
            },
        }
    }
}

/// Ends the run with the given outcome.
fn finish(devices: Vec<String>, imds_body: Option<String>, res: Result<(), Error>) -> (r: (
    Agent,
    AgentAction,
))
    ensures
        r.0.devices == devices,
        r.0.imds_body == imds_body,
        r.0.phase is Finished,
        r.1 == AgentAction::Finish(res),
        agent_wf(&r.0),
{
    (Agent { devices, imds_body, phase: AgentPhase::Finished }, AgentAction::Finish(res))
}

/// Duplicates the candidate device list for the medium resolver.
fn clone_devices(devices: &Vec<String>) -> (r: Vec<String>)
    ensures
        r.deep_view() == devices.deep_view(),
{
    let ghost dv = devices.deep_view();
    let mut out: Vec<String> = Vec::new();
    let mut i: usize = 0;
    while i < devices.len()
        invariant
            i <= devices.len(),
            dv == devices.deep_view(),
            dv.len() == devices.len(),
            out.deep_view() == dv.take(i as int),
        decreases devices.len() - i,
    {
        let ghost prev = out.deep_view();
        let ghost prevv = out@;
        let d = devices[i].clone();
        let ghost dchars = d@;
        let ghost dval = d;
        out.push(d);
        proof {
            assert(out@ == prevv.push(dval));
            assert(dval.deep_view() == dchars);
            assert forall|j: int| 0 <= j < out@.len() implies out.deep_view()[j] == dv.take(
                i + 1,
            )[j] by {
                if j < i {
                    assert(prev.len() == i);
                    assert(prevv.len() == i);
                    assert(prevv.push(dval)[j] == prevv[j]);
                    assert(out@[j] == prevv[j]);
                    assert(out.deep_view()[j] == out@[j].deep_view());
                    assert(prev[j] == prevv[j].deep_view());
                    assert(prev[j] == dv[j]);
                } else {
                    assert(prevv.len() == i);
                    assert(j == i);
                    assert(prevv.push(dval)[i as int] == dval);
                    assert(out@[j] == dval);
                    assert(out@[j].deep_view() == dchars);
                }
            }
            assert(out.deep_view() =~= dv.take(i + 1));
        }
        i = i + 1;
    }
    proof {
        assert(dv.take(devices.len() as int) == dv);
    }
    out
}

/// Builds the provisioning request from the resolved username and the
/// metadata body — SSH keys and hostname always come from the metadata body,
/// whichever source supplied the username — and starts the orchestrator with
/// the default backend enumerations.
fn begin_provisioning(devices: Vec<String>, body: String, username: String) -> (r: (
    Agent,
    AgentAction,
))
    ensures
        agent_wf(&r.0),
        r.0.devices == devices,
        r.0.imds_body == Some(body),
        spec_begin_provisioning(r, body@, username@),
{
    let keys = match imds::get_ssh_keys(body.as_str()) {
        Ok(keys) => keys,
        Err(err) => {
            return finish(devices, Some(body), Err(err));
        },
    };
    let hostname = match imds::get_hostname(body.as_str()) {
        Ok(h) => h,
        Err(err) => {
            return finish(devices, Some(body), Err(err));
        },
    };
    let ghost hostname_chars = hostname@;
    let user = User::new(username.as_str(), keys);
    let ghost uv = user@;
    let request = Provision::new(hostname, user);
    let ghost reqg = request;
    let (flow, act) = request.provision();
    proof {
        let u = spec_request_user(body@, username@);
        assert(uv == u);
        assert(reqg.user@ == u);
        assert(seq![user::Provisioner::Useradd].map_values(
            |b: user::Provisioner| user::spec_create(b, reqg.user@),
        ) =~= seq![user::spec_create(user::Provisioner::Useradd, u)]);
        assert(provision::spec_requested_password(reqg.user@) =~= Seq::<char>::empty());
        assert(seq![password::Provisioner::Passwd].map_values(
            |b: password::Provisioner| password::spec_set(
                b,
                reqg.user@.name,
                provision::spec_requested_password(reqg.user@),
            ),
        ) =~= seq![
            password::spec_set(password::Provisioner::Passwd, username@, Seq::<char>::empty()),
        ]);
        assert(reqg.hostname@ == imds::spec_field_after(
            body@,
            imds::hostname_marker(),
        )->Some_0);
        assert(seq![hostname::Provisioner::Hostnamectl].map_values(
            |b: hostname::Provisioner| hostname::spec_set(b, reqg.hostname@),
        ) =~= seq![
            hostname::spec_set(
                hostname::Provisioner::Hostnamectl,
                imds::spec_field_after(body@, imds::hostname_marker())->Some_0,
            ),
        ]);
        ssh::lemma_authorized_keys_data(reqg.user@.ssh_keys);
        assert(imds::spec_public_keys(body@).map_values(|k: PublicKeysView| k.key_data)
            =~= imds::spec_key_data(body@));
        assert(flow_from_source(flow, body@, username@));
        assert(flow.user_plans@.len() == 1);
        assert(provision::plan_views(flow.user_plans@)[0] == user::spec_create(
            user::Provisioner::Useradd,
            u,
        ));
        assert(provision::plan_views(flow.user_plans@)[0] == flow.user_plans@[0]@);
        assert(flow.user_plans@[0]@ == user::spec_create(user::Provisioner::Useradd, u));
        assert(flow.user_plans@[0] is Invoke);
        let cmd = flow.user_plans@[0]->Invoke_0;
        assert(cmd@ == user::spec_useradd_command(u));
        assert(provision::spec_advance_chain(flow.user_plans@, 0)
            == (provision::ChainMove::NeedRun { at: 0, cmd }));
        assert(act == provision::Action::Run(cmd));
    }
    forward_provision(devices, Some(body), flow, act)
}

/// Routes one orchestrator action outward: terminal success enters the
/// goal-state handshake, terminal failure ends the run, and anything else is
/// handed to the surroundings with provisioning still underway.
fn forward_provision(
    devices: Vec<String>,
    imds_body: Option<String>,
    flow: provision::Flow,
    act: provision::Action,
) -> (r: (Agent, AgentAction))
    requires
        provision::wf(flow),
    ensures
        agent_wf(&r.0),
        r.0.devices == devices,
        r.0.imds_body == imds_body,
        act == provision::Action::Stop(Result::<(), Error>::Ok(())) ==> r.1
            == AgentAction::FetchGoalstate && r.0.phase is AwaitGoalstate,
        act matches provision::Action::Stop(res) ==> (res matches Err(err) ==> r.1
            == AgentAction::Finish(Result::<(), Error>::Err(err)) && r.0.phase is Finished),
        act matches provision::Action::Run(c) ==> r.1 == AgentAction::Run(c) && r.0.phase
            == AgentPhase::Provisioning(flow),
        act matches provision::Action::Lookup(n) ==> r.1 == AgentAction::Lookup(n) && r.0.phase
            == AgentPhase::Provisioning(flow),
        act matches provision::Action::WriteKeys(k) ==> r.1 == AgentAction::WriteKeys(k)
            && r.0.phase == AgentPhase::Provisioning(flow),
{
    match act {
        provision::Action::Stop(res) => match res {
            Ok(_) => (
                Agent { devices, imds_body, phase: AgentPhase::AwaitGoalstate },
                AgentAction::FetchGoalstate,
            ),
            Err(err) => finish(devices, imds_body, Err(err)),
        },
        provision::Action::Run(c) => (
            Agent { devices, imds_body, phase: AgentPhase::Provisioning(flow) },
            AgentAction::Run(c),
        ),
        provision::Action::Lookup(n) => (
            Agent { devices, imds_body, phase: AgentPhase::Provisioning(flow) },
            AgentAction::Lookup(n),
        ),
        provision::Action::WriteKeys(k) => (
            Agent { devices, imds_body, phase: AgentPhase::Provisioning(flow) },
            AgentAction::WriteKeys(k),
        ),
    }
}

/// Routes one medium-resolver action outward with resolution still underway.
fn forward_medium(
    devices: Vec<String>,
    imds_body: Option<String>,
    resolver: media::Resolver,
    act: media::MediumAction,
) -> (r: (Agent, AgentAction))
    requires
        media::medium_wf(resolver),
    ensures
        agent_wf(&r.0),
        r.0.devices == devices,
        r.0.imds_body == imds_body,
        act is Stop ==> r.0.phase is Finished,
        act matches media::MediumAction::Stop(res) ==> (res matches Err(err) ==> r.1
            == AgentAction::Finish(Result::<(), Error>::Err(err))),
        act matches media::MediumAction::Mount(d) ==> r.1 == AgentAction::Mount(d) && r.0.phase
            == AgentPhase::ResolvingMedium(resolver),
        act matches media::MediumAction::Unmount(d) ==> r.1 == AgentAction::Unmount(d)
            && r.0.phase == AgentPhase::ResolvingMedium(resolver),
{
    match act {
        media::MediumAction::Stop(res) => match res {
            Ok(_) => finish(devices, imds_body, Err(Error::Transport)),
            Err(err) => finish(devices, imds_body, Err(err)),
        },
        media::MediumAction::Mount(d) => (
            Agent { devices, imds_body, phase: AgentPhase::ResolvingMedium(resolver) },
            AgentAction::Mount(d),
        ),
        media::MediumAction::Unmount(d) => (
            Agent { devices, imds_body, phase: AgentPhase::ResolvingMedium(resolver) },
            AgentAction::Unmount(d),
        ),
    }
}

} // verus!
