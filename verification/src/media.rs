//! The configuration-medium resolver: parsing the provisioning environment
//! document found on a mounted medium, and the state machine that tries the
//! candidate block devices in order — mounting, parsing and always unmounting
//! — until one yields a valid environment.
//!
//! Mounting and reading are performed by the surroundings; the machine plans
//! them as actions and consumes their outcomes as events. The parse of the
//! read document is this library's, through [`parse_ovf_env`].

use std::rc::Rc;
use vstd::prelude::*;

use crate::error::Error;
use crate::scan;

verus! {

/// The parsed configuration-medium payload: the provisioning section's
/// username and password.
#[derive(Debug, Clone, PartialEq, Eq)]
pub struct Environment {
    pub username: String,
    pub password: String,
}

/// The mathematical value of a parsed environment.
pub ghost struct EnvironmentView {
    pub username: Seq<char>,
    pub password: Seq<char>,
}

impl View for Environment {
    type V = EnvironmentView;

    open spec fn view(&self) -> EnvironmentView {
        EnvironmentView { username: self.username@, password: self.password@ }
    }
}

/// The environment document's username and password: the text inside the
/// first user-name element and the first user-password element. Absence of
/// either makes the document invalid.
pub open spec fn spec_parse_ovf_env(body: Seq<char>) -> Option<EnvironmentView> {
    match scan::spec_between(body, "<UserName>"@, "</UserName>"@) {
        Option::None => Option::<EnvironmentView>::None,
        Option::Some(u) => match scan::spec_between(
            body,
            "<UserPassword>"@,
            "</UserPassword>"@,
        ) {
            Option::None => Option::<EnvironmentView>::None,
            Option::Some(p) => Option::Some(EnvironmentView { username: u, password: p }),
        },
    }
}

/// Parses the environment document read from a mounted configuration medium.
pub fn parse_ovf_env(body: &str) -> (r: Result<Environment, Error>)
    ensures
        r matches Ok(env) ==> spec_parse_ovf_env(body@) == Some(env@),
        r is Ok <==> spec_parse_ovf_env(body@) is Some,
        r is Err ==> r == Result::<Environment, Error>::Err(Error::OvfEnvInvalid),
{
    match scan::between(body, "<UserName>", "</UserName>") {
        Option::None => Err(Error::OvfEnvInvalid),
        Option::Some(u) => match scan::between(body, "<UserPassword>", "</UserPassword>") {
            Option::None => Err(Error::OvfEnvInvalid),
            Option::Some(p) => Ok(Environment { username: u, password: p }),
        },
    }
}

/// Where the medium resolver stands with its current candidate.
pub enum MediumPhase {
    /// The candidate at the current index is being mounted and read.
    AwaitMount,
    /// The candidate is being unmounted; the parse outcome of what was read
    /// is kept for after the unmount.
    AwaitUnmount(Result<Environment, Error>),
    /// Resolution ended.
    Finished,
}

/// What the surroundings hand back to the resolver.
pub enum MediumEvent {
    /// The candidate could not be mounted at all.
    MountFailed,
    /// The candidate was mounted and its document read and parsed; this is
    /// the outcome of [`parse_ovf_env`] on it (or the read failure).
    Mounted(Result<Environment, Error>),
    /// The candidate was unmounted.
    Unmounted,
}

/// What the resolver asks the surroundings to do next.
#[derive(Debug, PartialEq, Eq)]
pub enum MediumAction {
    /// Mount this candidate device, read and parse its environment document,
    /// and hand back the outcome.
    Mount(Rc<String>),
    /// Unmount this candidate device and hand back that it was unmounted.
    Unmount(Rc<String>),
    /// Terminal: resolution ended with this result.
    Stop(Result<Environment, Error>),
}

/// The medium resolver: the candidate devices in enumeration order, the
/// current candidate, and where it stands with it.
pub struct Resolver {
    pub devices: Vec<Rc<String>>,
    pub idx: usize,
    pub phase: MediumPhase,
}

/// Moves to the candidate at index `i`, or fails the resolution when the
/// candidates are exhausted.
pub open spec fn spec_enter_candidate(r: Resolver, i: int) -> (Resolver, MediumAction)
    recommends
        0 <= i,
{
    if i >= r.devices@.len() {
        (
            Resolver { phase: MediumPhase::Finished, ..r },
            MediumAction::Stop(Result::<Environment, Error>::Err(Error::NoViableMedium)),
        )
    } else {
        (
            Resolver { idx: i as usize, phase: MediumPhase::AwaitMount, ..r },
            MediumAction::Mount(r.devices@[i]),
        )
    }
}

/// Which events the resolver can consume in its current phase.
pub open spec fn medium_accepts(r: Resolver, e: MediumEvent) -> bool {
    match r.phase {
        MediumPhase::AwaitMount => e is MountFailed || e is Mounted,
        MediumPhase::AwaitUnmount(_) => e is Unmounted,
        MediumPhase::Finished => false,
    }
}

/// The resolver's well-formedness: an active candidate really stands in the
/// device list.
pub open spec fn medium_wf(r: Resolver) -> bool {
    match r.phase {
        MediumPhase::AwaitMount => r.idx < r.devices@.len(),
        MediumPhase::AwaitUnmount(_) => r.idx < r.devices@.len(),
        MediumPhase::Finished => true,
    }
}

/// One transition of the resolver: a failed mount moves to the next
/// candidate; a mounted candidate is always unmounted, whatever its parse
/// outcome; after the unmount, a valid environment ends the resolution and
/// anything else moves to the next candidate.
pub open spec fn spec_medium_step(r: Resolver, e: MediumEvent) -> (Resolver, MediumAction) {
    match r.phase {
        MediumPhase::AwaitMount => match e {
            MediumEvent::MountFailed => spec_enter_candidate(r, r.idx + 1),
            MediumEvent::Mounted(res) => (
                Resolver { phase: MediumPhase::AwaitUnmount(res), ..r },
                MediumAction::Unmount(r.devices@[r.idx as int]),
            ),
            _ => (r, MediumAction::Stop(Result::<Environment, Error>::Err(Error::Transport))),
        },
        MediumPhase::AwaitUnmount(res) => match e {
            MediumEvent::Unmounted => match res {
                Ok(env) => (
                    Resolver { phase: MediumPhase::Finished, ..r },
                    MediumAction::Stop(Result::<Environment, Error>::Ok(env)),
                ),
                Err(_) => spec_enter_candidate(r, r.idx + 1),
            },
            _ => (r, MediumAction::Stop(Result::<Environment, Error>::Err(Error::Transport))),
        },
        MediumPhase::Finished => (
            r,
            MediumAction::Stop(Result::<Environment, Error>::Err(Error::Transport)),
        ),
    }
}

impl Resolver {
    /// Starts resolution over the candidate devices in enumeration order.
    /// The returned action is the first thing the surroundings must do.
    pub fn new(devices: Vec<String>) -> (r: (Resolver, MediumAction))
        ensures
            r.0.devices.deep_view() == devices.deep_view(),
            r == spec_enter_candidate(r.0, 0),
            medium_wf(r.0),
    {
        let ghost dv = devices.deep_view();
        let mut devs: Vec<Rc<String>> = Vec::new();
        let mut i: usize = 0;
        while i < devices.len()
            invariant
                i <= devices.len(),
                dv == devices.deep_view(),
                dv.len() == devices.len(),
                devs.deep_view() == dv.take(i as int),
            decreases devices.len() - i,
        {
            let ghost prev = devs.deep_view();
            let ghost prevv = devs@;
            let d = devices[i].clone();
            let ghost dchars = d@;
            let rc = Rc::new(d);
            let ghost rcv = rc;
            devs.push(rc);
            proof {
                assert(devs@ == prevv.push(rcv));
                assert(rcv.deep_view() == dchars);
                assert forall|j: int| 0 <= j < devs@.len() implies devs.deep_view()[j] == dv.take(
                    i + 1,
                )[j] by {
                    if j < i {
                        assert(prev.len() == i);
                        assert(prevv.len() == i);
                        assert(prevv.push(rcv)[j] == prevv[j]);
                        assert(devs@[j] == prevv[j]);
                        assert(devs.deep_view()[j] == devs@[j].deep_view());
                        assert(prev[j] == prevv[j].deep_view());
                        assert(prev[j] == dv[j]);
                    } else {
                        assert(devs@[j] == rcv);
                        assert(devs@[j].deep_view() == dchars);
                    }
                }
                assert(devs.deep_view() =~= dv.take(i + 1));
            }
            i = i + 1;
        }
        proof {
            assert(dv.take(devices.len() as int) == dv);
        }
        if devs.len() == 0 {
            let r = Resolver { devices: devs, idx: 0, phase: MediumPhase::Finished };
            (r, MediumAction::Stop(Err(Error::NoViableMedium)))
        } else {
            let first = crate::backend::rc_clone(&devs[0]);
            let r = Resolver { devices: devs, idx: 0, phase: MediumPhase::AwaitMount };
            (r, MediumAction::Mount(first))
        }
    }

    /// Whether the resolver can consume this event now.
    pub fn accepts_event(&self, e: &MediumEvent) -> (b: bool)
        ensures
            b == medium_accepts(*self, *e),
    {
        match self.phase {
            MediumPhase::AwaitMount => matches!(
                e,
                MediumEvent::MountFailed | MediumEvent::Mounted(_)
            ),
            MediumPhase::AwaitUnmount(_) => matches!(e, MediumEvent::Unmounted),
            MediumPhase::Finished => false,
        }
    }

    /// Consumes the outcome of the last action and decides the next one.
    pub fn step(self, e: MediumEvent) -> (r: (Resolver, MediumAction))
        requires
            medium_accepts(self, e),
            medium_wf(self),
        ensures
            r == spec_medium_step(self, e),
            medium_wf(r.0),
    {
        proof {
            assert(self.devices@.len() == self.devices.len());
        }
        let Resolver { devices, idx, phase } = self;
        match phase {
            MediumPhase::AwaitMount => match e {
                MediumEvent::MountFailed => enter_candidate(
                    Resolver { devices, idx, phase: MediumPhase::AwaitMount },
                    idx + 1,
                ),
                MediumEvent::Mounted(res) => {
                    let dev = crate::backend::rc_clone(&devices[idx]);
                    (
                        Resolver { devices, idx, phase: MediumPhase::AwaitUnmount(res) },
                        MediumAction::Unmount(dev),
                    )
                },
                _ => {
                    proof {
                        assert(false);
                    }
                    (
                        Resolver { devices, idx, phase: MediumPhase::AwaitMount },
                        MediumAction::Stop(Err(Error::Transport)),
                    )
                },
            },
            MediumPhase::AwaitUnmount(res) => match e {
                MediumEvent::Unmounted => match res {
                    Ok(env) => (
                        Resolver { devices, idx, phase: MediumPhase::Finished },
                        MediumAction::Stop(Ok(env)),
                    ),
                    Err(e2) => enter_candidate(
                        Resolver { devices, idx, phase: MediumPhase::AwaitUnmount(Err(e2)) },
                        idx + 1,
                    ),
                },
                _ => {
                    proof {
                        assert(false);
                    }
                    (
                        Resolver { devices, idx, phase: MediumPhase::AwaitUnmount(res) },
                        MediumAction::Stop(Err(Error::Transport)),
                    )
                },
            },
            MediumPhase::Finished => {
                proof {
                    assert(false);
                }
                (
                    Resolver { devices, idx, phase: MediumPhase::Finished },
                    MediumAction::Stop(Err(Error::Transport)),
                )
            },
        }
    }
}

/// Moves to the candidate at index `i`, or fails the resolution.
fn enter_candidate(r: Resolver, i: usize) -> (res: (Resolver, MediumAction))
    ensures
        res == spec_enter_candidate(r, i as int),
        medium_wf(res.0),
{
    if i >= r.devices.len() {
        (
            Resolver { phase: MediumPhase::Finished, ..r },
            MediumAction::Stop(Err(Error::NoViableMedium)),
        )
    } else {
        let dev = crate::backend::rc_clone(&r.devices[i]);
        (
            Resolver { idx: i, phase: MediumPhase::AwaitMount, ..r },
            MediumAction::Mount(dev),
        )
    }
}

/// The run of the resolver over a sequence of events: the resolver it ends
/// in and the actions it emits, one per consumed event.
pub open spec fn spec_medium_run(r: Resolver, events: Seq<MediumEvent>) -> (
    Resolver,
    Seq<MediumAction>,
)
    decreases events.len(),
{
    if events.len() == 0 {
        (r, Seq::empty())
    } else {
        let (r2, a) = spec_medium_step(r, events[0]);
        let (r3, rest) = spec_medium_run(r2, events.drop_first());
        (r3, seq![a] + rest)
    }
}

/// The events of trying candidates in order, each mounted and read with the
/// given parse outcome and then unmounted: two events per candidate.
pub open spec fn candidate_events(results: Seq<Result<Environment, Error>>) -> Seq<MediumEvent>
    decreases results.len(),
{
    if results.len() == 0 {
        Seq::empty()
    } else {
        seq![MediumEvent::Mounted(results[0]), MediumEvent::Unmounted] + candidate_events(
            results.drop_first(),
        )
    }
}

/// The resolver unmounts after every candidate attempt, success or failure:
/// over a run where the first `m - 1` candidates from the current one parse
/// invalid and the `m`-th parses valid, every attempted candidate is
/// unmounted exactly once right after its mount, no candidate after the
/// successful one is mounted, and the run ends with that candidate's
/// environment.
pub proof fn lemma_medium_unmount_per_candidate(
    r: Resolver,
    idx: int,
    results: Seq<Result<Environment, Error>>,
)
    requires
        0 <= idx,
        1 <= results.len(),
        idx + results.len() <= r.devices@.len(),
        r.phase is AwaitMount,
        r.idx == idx,
        forall|i: int| 0 <= i < results.len() - 1 ==> results[i] is Err,
        results.last() is Ok,
    ensures
        ({
            let m = results.len() as int;
            let (fin, actions) = spec_medium_run(r, candidate_events(results));
            &&& actions.len() == 2 * m
            &&& forall|i: int|
                0 <= i < m ==> #[trigger] actions[2 * i] == MediumAction::Unmount(
                    r.devices@[idx + i],
                )
            &&& forall|i: int|
                0 <= i < m - 1 ==> #[trigger] actions[2 * i + 1] == MediumAction::Mount(
                    r.devices@[idx + i + 1],
                )
            &&& actions[2 * m - 1] == MediumAction::Stop(results.last())
            &&& fin.phase is Finished
        }),
    decreases results.len(),
{
    assert(r.devices@.len() == r.devices.len());
    let m = results.len() as int;
    let events = candidate_events(results);
    let e0 = events[0];
    assert(e0 == MediumEvent::Mounted(results[0]));
    let (r2, a0) = spec_medium_step(r, e0);
    assert(r2 == (Resolver { phase: MediumPhase::AwaitUnmount(results[0]), ..r }));
    assert(a0 == MediumAction::Unmount(r.devices@[idx]));
    let (r3, a1) = spec_medium_step(r2, MediumEvent::Unmounted);
    let tail1 = events.drop_first();
    assert(tail1[0] == MediumEvent::Unmounted);
    let tail2 = tail1.drop_first();
    assert(tail2 =~= candidate_events(results.drop_first()));
    assert(spec_medium_run(r2, tail1).0 == spec_medium_run(r3, tail2).0);
    assert(spec_medium_run(r2, tail1).1 == seq![a1] + spec_medium_run(r3, tail2).1);
    if m == 1 {
        assert(results[0] is Ok);
        assert(r3.phase is Finished);
        assert(a1 == MediumAction::Stop(results[0]));
        assert(results.drop_first().len() == 0);
        assert(tail2.len() == 0);
        assert(spec_medium_run(r3, tail2) == (r3, Seq::<MediumAction>::empty()));
        let (fin, actions) = spec_medium_run(r, events);
        assert(fin == r3);
        assert(actions == seq![a0] + (seq![a1] + Seq::<MediumAction>::empty()));
        assert(actions =~= seq![a0, a1]);
        assert(results.last() == results[0]);
    } else {
        assert(results[0] is Err);
        assert((r3, a1) == spec_enter_candidate(r2, idx + 1));
        assert(idx + 1 < r.devices@.len());
        assert(r3 == (Resolver {
            idx: (idx + 1) as usize,
            phase: MediumPhase::AwaitMount,
            ..r2
        }));
        assert(a1 == MediumAction::Mount(r.devices@[idx + 1]));
        lemma_medium_unmount_per_candidate(r3, idx + 1, results.drop_first());
        let (fin2, rest) = spec_medium_run(r3, tail2);
        let (fin, actions) = spec_medium_run(r, events);
        assert(fin == fin2);
        assert(actions == seq![a0] + (seq![a1] + rest));
        assert(actions =~= seq![a0, a1] + rest);
        assert(results.drop_first().last() == results.last());
        assert forall|i: int|
            0 <= i < m implies #[trigger] actions[2 * i] == MediumAction::Unmount(
            r.devices@[idx + i],
        ) by {
            if i > 0 {
                assert(rest[2 * (i - 1)] == MediumAction::Unmount(
                    r3.devices@[(idx + 1) + (i - 1)],
                ));
                assert(actions[2 * i] == rest[2 * i - 2]);
            }
        }
        assert forall|i: int|
            0 <= i < m - 1 implies #[trigger] actions[2 * i + 1] == MediumAction::Mount(
            r.devices@[idx + i + 1],
        ) by {
            if i > 0 {
                assert(rest[2 * (i - 1) + 1] == MediumAction::Mount(
                    r3.devices@[(idx + 1) + (i - 1) + 1],
                ));
                assert(actions[2 * i + 1] == rest[2 * i - 1]);
            }
        }
        assert(actions[2 * m - 1] == rest[2 * (m - 1) - 1]);
    }
}

} // verus!
