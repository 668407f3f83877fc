//! The goal-state handshake: parsing the hypervisor's goal-state document
//! into the token the health report must reference, and building that report.
//!
//! The transport is outside the library: it fetches the goal-state body and
//! submits the built report document.

use vstd::prelude::*;

use crate::error::Error;
use crate::scan;

verus! {

/// The hypervisor-issued work ticket: the incarnation token and the
/// container and instance identities the health report must reference.
#[derive(Debug, Clone, PartialEq, Eq)]
pub struct GoalState {
    pub incarnation: String,
    pub container_id: String,
    pub instance_id: String,
}

/// The mathematical value of a goal state.
pub ghost struct GoalStateView {
    pub incarnation: Seq<char>,
    pub container_id: Seq<char>,
    pub instance_id: Seq<char>,
}

impl View for GoalState {
    type V = GoalStateView;

    open spec fn view(&self) -> GoalStateView {
        GoalStateView {
            incarnation: self.incarnation@,
            container_id: self.container_id@,
            instance_id: self.instance_id@,
        }
    }
}

/// The goal-state document's token and identities: the text inside the first
/// incarnation, container-identity and instance-identity elements. Absence of
/// any makes the document invalid.
pub open spec fn spec_parse_goalstate(body: Seq<char>) -> Option<GoalStateView> {
    match scan::spec_between(body, "<Incarnation>"@, "</Incarnation>"@) {
        Option::None => Option::<GoalStateView>::None,
        Option::Some(inc) => match scan::spec_between(body, "<ContainerId>"@, "</ContainerId>"@) {
            Option::None => Option::<GoalStateView>::None,
            Option::Some(c) => match scan::spec_between(body, "<InstanceId>"@, "</InstanceId>"@) {
                Option::None => Option::<GoalStateView>::None,
                Option::Some(i) => Option::Some(
                    GoalStateView { incarnation: inc, container_id: c, instance_id: i },
                ),
            },
        },
    }
}

/// Parses the fetched goal-state document into the opaque ticket used by the
/// health report.
pub fn get_goalstate(body: &str) -> (r: Result<GoalState, Error>)
    ensures
        r matches Ok(g) ==> spec_parse_goalstate(body@) == Some(g@),
        r is Ok <==> spec_parse_goalstate(body@) is Some,
        r is Err ==> r == Result::<GoalState, Error>::Err(Error::GoalstateInvalid),
{
    match scan::between(body, "<Incarnation>", "</Incarnation>") {
        Option::None => Err(Error::GoalstateInvalid),
        Option::Some(inc) => match scan::between(body, "<ContainerId>", "</ContainerId>") {
            Option::None => Err(Error::GoalstateInvalid),
            Option::Some(c) => match scan::between(body, "<InstanceId>", "</InstanceId>") {
                Option::None => Err(Error::GoalstateInvalid),
                Option::Some(i) => Ok(
                    GoalState { incarnation: inc, container_id: c, instance_id: i },
                ),
            },
        },
    }
}

/// A health report ready for submission: the goal-state token and identities
/// it references, and the document that carries them.
#[derive(Debug, Clone, PartialEq, Eq)]
pub struct HealthReport {
    pub incarnation: String,
    pub container_id: String,
    pub instance_id: String,
    pub document: String,
}

/// The part of the report document before the goal-state token.
pub open spec fn report_prefix() -> Seq<char> {
    "<Health><GoalStateIncarnation>"@
}

/// The part of the report document between the token and the container
/// identity.
pub open spec fn report_mid_container() -> Seq<char> {
    "</GoalStateIncarnation><Container><ContainerId>"@
}

/// The part of the report document between the container identity and the
/// instance identity.
pub open spec fn report_mid_instance() -> Seq<char> {
    "</ContainerId><RoleInstanceList><Role><InstanceId>"@
}

/// The part of the report document after the instance identity: it asserts
/// readiness.
pub open spec fn report_suffix() -> Seq<char> {
    "</InstanceId><Health><State>Ready</State></Health></Role></RoleInstanceList></Container></Health>"@
}

/// The health-report document referencing a goal state: the fixed parts with
/// the goal state's token and identities embedded between them.
pub open spec fn spec_health_document(g: GoalStateView) -> Seq<char> {
    report_prefix() + g.incarnation + report_mid_container() + g.container_id
        + report_mid_instance() + g.instance_id + report_suffix()
}

/// Builds the health report referencing the retrieved goal state, asserting
/// provisioning success. The report carries the goal state's token
/// unchanged, and its document embeds exactly that token.
pub fn report_health(g: GoalState) -> (r: HealthReport)
    ensures
        r.incarnation@ == g@.incarnation,
        r.container_id@ == g@.container_id,
        r.instance_id@ == g@.instance_id,
        r.document@ == spec_health_document(g@),
{
    let mut doc = String::from_str("<Health><GoalStateIncarnation>");
    doc.append(g.incarnation.as_str());
    doc.append("</GoalStateIncarnation><Container><ContainerId>");
    doc.append(g.container_id.as_str());
    doc.append("</ContainerId><RoleInstanceList><Role><InstanceId>");
    doc.append(g.instance_id.as_str());
    doc.append(
        "</InstanceId><Health><State>Ready</State></Health></Role></RoleInstanceList></Container></Health>",
    );
    HealthReport {
        incarnation: g.incarnation,
        container_id: g.container_id,
        instance_id: g.instance_id,
        document: doc,
    }
}

/// Round trip: the token embedded in a health-report document is exactly the
/// goal state's incarnation — it stands in the document right after the
/// fixed prefix, unchanged.
pub proof fn lemma_report_embeds_token(g: GoalStateView)
    ensures
        spec_health_document(g).subrange(
            report_prefix().len() as int,
            report_prefix().len() + g.incarnation.len() as int,
        ) == g.incarnation,
{
    let doc = spec_health_document(g);
    let p = report_prefix().len() as int;
    assert(doc.subrange(p, p + g.incarnation.len()) =~= g.incarnation);
}

} // verus!
