use azure_init::agent::{Agent, AgentAction, AgentEvent};
use azure_init::backend::Outcome;
use azure_init::error::{exit_kind, Error, ExitKind};
use azure_init::media::MediumEvent;
use azure_init::provision::Event;
use azure_init::ssh::SysUser;

const IMDS_DISABLED: &str = "{\"disablePasswordAuthentication\":true,\"username\":\"azureuser\",\"hostname\":\"vm-01\",\"publicKeys\":[{\"keyData\":\"ssh-rsa AAA\",\"path\":\"p1\"},{\"keyData\":\"ssh-ed25519 BBB\",\"path\":\"p2\"}]}";

const IMDS_ENABLED: &str = "{\"disablePasswordAuthentication\":false}";

const GOALSTATE_BODY: &str = "<GoalState><Incarnation>17</Incarnation><Container><ContainerId>c-123</ContainerId><RoleInstanceList><RoleInstance><InstanceId>i-456</InstanceId></RoleInstance></RoleInstanceList></Container></GoalState>";

fn expect_run(action: &AgentAction, program: &str) -> Vec<String> {
    match action {
        AgentAction::Run(cmd) => {
            assert_eq!(cmd.program, program);
            cmd.args.clone()
        },
        other => panic!("expected a {program} command, got {other:?}"),
    }
}

#[test]
fn full_run_with_metadata_trusted() {
    // Password authentication is disabled: the metadata service is trusted
    // directly, the medium is never consulted, and the run is: create the
    // user, disable its password, install both keys, set the hostname,
    // fetch the goal state, report health, succeed.
    let (agent, action) = Agent::new(vec!["/dev/sr0".to_string()]);
    assert_eq!(action, AgentAction::FetchImds);

    let (agent, action) = agent.step(AgentEvent::ImdsBody(Ok(IMDS_DISABLED.to_string())));
    let args = expect_run(&action, "useradd");
    assert_eq!(args[0], "azureuser");

    let (agent, action) = agent.step(AgentEvent::Prov(Event::Command(Outcome::Exited(0))));
    let args = expect_run(&action, "passwd");
    assert_eq!(args, vec!["-d".to_string(), "azureuser".to_string()]);

    let (agent, action) = agent.step(AgentEvent::Prov(Event::Command(Outcome::Exited(0))));
    assert_eq!(action, AgentAction::Lookup("azureuser".to_string()));

    let sys = SysUser {
        name: "azureuser".to_string(),
        home: "/home/azureuser".to_string(),
        uid: 1000,
        gid: 1000,
    };
    let (agent, action) = agent.step(AgentEvent::Prov(Event::UserFound(sys)));
    match &action {
        AgentAction::WriteKeys(k) => {
            assert_eq!(k.user.home, "/home/azureuser");
            assert_eq!(k.content, "ssh-rsa AAA\nssh-ed25519 BBB\n");
        },
        other => panic!("expected the key installation, got {other:?}"),
    }

    let (agent, action) = agent.step(AgentEvent::Prov(Event::KeysInstalled));
    let args = expect_run(&action, "hostnamectl");
    assert_eq!(args, vec!["hostname".to_string(), "vm-01".to_string()]);

    let (agent, action) = agent.step(AgentEvent::Prov(Event::Command(Outcome::Exited(0))));
    assert_eq!(action, AgentAction::FetchGoalstate);

    let (agent, action) = agent.step(AgentEvent::GoalstateBody(Ok(GOALSTATE_BODY.to_string())));
    match &action {
        AgentAction::SendReport(rep) => {
            assert_eq!(rep.incarnation, "17");
            assert!(rep.document.contains("<GoalStateIncarnation>17</GoalStateIncarnation>"));
        },
        other => panic!("expected the health report, got {other:?}"),
    }

    let (_agent, action) = agent.step(AgentEvent::ReportOutcome(true));
    let outcome = match action {
        AgentAction::Finish(res) => res,
        other => panic!("expected the run to finish, got {other:?}"),
    };
    assert_eq!(outcome, Ok(()));
    assert_eq!(exit_kind(&outcome), ExitKind::Success);
}

#[test]
fn no_viable_medium_is_generic_failure() {
    // Password authentication is enabled and no medium yields a parseable
    // environment: the run fails with the generic failure class, and no
    // user-creation command was ever planned.
    let (agent, action) = Agent::new(vec!["/dev/sr0".to_string()]);
    assert_eq!(action, AgentAction::FetchImds);

    let (agent, action) = agent.step(AgentEvent::ImdsBody(Ok(IMDS_ENABLED.to_string())));
    assert!(matches!(action, AgentAction::Mount(_)));

    let (agent, action) = agent.step(AgentEvent::Medium(MediumEvent::Mounted(Err(
        Error::OvfEnvInvalid,
    ))));
    assert!(matches!(action, AgentAction::Unmount(_)));

    let (_agent, action) = agent.step(AgentEvent::Medium(MediumEvent::Unmounted));
    let outcome = match action {
        AgentAction::Finish(res) => res,
        other => panic!("expected the run to finish, got {other:?}"),
    };
    assert_eq!(outcome, Err(Error::NoViableMedium));
    assert_eq!(exit_kind(&outcome), ExitKind::Failure);
}

#[test]
fn account_lookup_failure_is_config_error_and_skips_hostname() {
    // User creation succeeds but the account cannot be resolved afterwards,
    // with one SSH key present: the run ends with the configuration-error
    // class and the hostname step never runs.
    let body = "{\"disablePasswordAuthentication\":true,\"username\":\"azureuser\",\"hostname\":\"vm-01\",\"publicKeys\":[{\"keyData\":\"ssh-rsa AAA\",\"path\":\"p1\"}]}";
    let (agent, _action) = Agent::new(vec![]);
    let (agent, action) = agent.step(AgentEvent::ImdsBody(Ok(body.to_string())));
    expect_run(&action, "useradd");
    let (agent, action) = agent.step(AgentEvent::Prov(Event::Command(Outcome::Exited(0))));
    expect_run(&action, "passwd");
    let (agent, action) = agent.step(AgentEvent::Prov(Event::Command(Outcome::Exited(0))));
    assert_eq!(action, AgentAction::Lookup("azureuser".to_string()));
    let (agent, action) = agent.step(AgentEvent::Prov(Event::UserAbsent));
    let outcome = match action {
        AgentAction::Finish(res) => res,
        other => panic!("expected the run to finish, got {other:?}"),
    };
    assert_eq!(outcome, Err(Error::UserMissing { user: "azureuser".to_string() }));
    assert_eq!(exit_kind(&outcome), ExitKind::ConfigError);
    // The agent is finished: no hostname command can be consumed.
    assert!(!agent.accepts_event(&AgentEvent::Prov(Event::Command(Outcome::Exited(0)))));
}

#[test]
fn medium_supplies_username_when_auth_enabled() {
    // Password authentication is enabled and the first medium candidate
    // yields an environment: its username drives the provisioning, while
    // hostname and keys still come from the metadata body.
    let body = "{\"disablePasswordAuthentication\":false,\"username\":\"ignored\",\"hostname\":\"vm-02\",\"publicKeys\":[]}";
    let (agent, _action) = Agent::new(vec!["/dev/sr0".to_string()]);
    let (agent, action) = agent.step(AgentEvent::ImdsBody(Ok(body.to_string())));
    assert!(matches!(action, AgentAction::Mount(_)));
    let env = azure_init::media::Environment {
        username: "mediauser".to_string(),
        password: String::new(),
    };
    let (agent, action) = agent.step(AgentEvent::Medium(MediumEvent::Mounted(Ok(env))));
    assert!(matches!(action, AgentAction::Unmount(_)));
    let (agent, action) = agent.step(AgentEvent::Medium(MediumEvent::Unmounted));
    let args = expect_run(&action, "useradd");
    assert_eq!(args[0], "mediauser");
    let (_agent, action) = agent.step(AgentEvent::Prov(Event::Command(Outcome::Exited(1))));
    let outcome = match action {
        AgentAction::Finish(res) => res,
        other => panic!("expected the run to finish, got {other:?}"),
    };
    assert_eq!(outcome, Err(Error::NoUserProvisioner));
}

#[test]
fn transport_failure_ends_the_run() {
    let (agent, _action) = Agent::new(vec![]);
    let (_agent, action) = agent.step(AgentEvent::ImdsBody(Err(Error::Transport)));
    assert_eq!(action, AgentAction::Finish(Err(Error::Transport)));
}
