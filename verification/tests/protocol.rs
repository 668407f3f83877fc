use azure_init::error::{Error, ImdsField};
use azure_init::goalstate;
use azure_init::imds;
use azure_init::media;
use azure_init::media::{MediumAction, MediumEvent};

const IMDS_BODY: &str = "{\"compute\":{\"osProfile\":{\"adminUsername\":\"x\",\"disablePasswordAuthentication\":true,\"username\":\"azureuser\",\"hostname\":\"vm-01\"},\"publicKeys\":[{\"keyData\":\"ssh-rsa AAA\",\"path\":\"p1\"},{\"keyData\":\"ssh-ed25519 BBB\",\"path\":\"p2\"}]}}";

#[test]
fn imds_flag_extraction() {
    assert_eq!(imds::is_password_authentication_disabled(IMDS_BODY), Ok(true));
    let enabled = IMDS_BODY.replace("disablePasswordAuthentication\":true", "disablePasswordAuthentication\":false");
    assert_eq!(imds::is_password_authentication_disabled(&enabled), Ok(false));
    assert_eq!(
        imds::is_password_authentication_disabled("{}"),
        Err(Error::ImdsFieldInvalid { field: ImdsField::DisablePasswordAuthentication })
    );
    assert_eq!(
        imds::is_password_authentication_disabled("{\"disablePasswordAuthentication\":null}"),
        Err(Error::ImdsFieldInvalid { field: ImdsField::DisablePasswordAuthentication })
    );
}

#[test]
fn imds_username_extraction() {
    assert_eq!(imds::get_username(IMDS_BODY), Ok("azureuser".to_string()));
    assert_eq!(
        imds::get_username("{}"),
        Err(Error::ImdsFieldInvalid { field: ImdsField::Username })
    );
}

#[test]
fn imds_hostname_extraction() {
    assert_eq!(imds::get_hostname(IMDS_BODY), Ok("vm-01".to_string()));
    assert_eq!(
        imds::get_hostname("{}"),
        Err(Error::ImdsFieldInvalid { field: ImdsField::Hostname })
    );
}

#[test]
fn imds_ssh_keys_in_order() {
    let keys = imds::get_ssh_keys(IMDS_BODY).unwrap();
    assert_eq!(keys.len(), 2);
    assert_eq!(keys[0].key_data, "ssh-rsa AAA");
    assert_eq!(keys[1].key_data, "ssh-ed25519 BBB");
    assert_eq!(imds::get_ssh_keys("{}").unwrap(), vec![]);
}

#[test]
fn imds_truncated_key_entry_is_malformed() {
    assert_eq!(
        imds::get_ssh_keys("{\"publicKeys\":[{\"keyData\":\"ssh-rsa AAA"),
        Err(Error::ImdsFieldInvalid { field: ImdsField::PublicKeys })
    );
}

#[test]
fn ovf_env_parse() {
    let body = "<Environment><ProvisioningSection><LinuxProvisioningConfigurationSet><UserName>mediauser</UserName><UserPassword>pw</UserPassword></LinuxProvisioningConfigurationSet></ProvisioningSection></Environment>";
    let env = media::parse_ovf_env(body).unwrap();
    assert_eq!(env.username, "mediauser");
    assert_eq!(env.password, "pw");
    assert_eq!(
        media::parse_ovf_env("<Environment></Environment>"),
        Err(Error::OvfEnvInvalid)
    );
    assert_eq!(
        media::parse_ovf_env("<UserName>u</UserName>"),
        Err(Error::OvfEnvInvalid)
    );
}

fn good_env() -> Result<media::Environment, Error> {
    Ok(media::Environment { username: "mediauser".to_string(), password: String::new() })
}

#[test]
fn medium_resolver_unmounts_after_every_attempt() {
    let (r, action) = media::Resolver::new(vec!["/dev/sr0".to_string(), "/dev/sr1".to_string()]);
    let mut mounts = 0;
    let mut unmounts = 0;
    match &action {
        MediumAction::Mount(d) => {
            assert_eq!(***d, *"/dev/sr0");
            mounts += 1;
        },
        _ => panic!("expected the first mount"),
    }
    // First candidate mounts but its document does not parse.
    let (r, action) = r.step(MediumEvent::Mounted(Err(Error::OvfEnvInvalid)));
    match &action {
        MediumAction::Unmount(d) => {
            assert_eq!(***d, *"/dev/sr0");
            unmounts += 1;
        },
        _ => panic!("expected an unmount after the failed parse"),
    }
    let (r, action) = r.step(MediumEvent::Unmounted);
    match &action {
        MediumAction::Mount(d) => {
            assert_eq!(***d, *"/dev/sr1");
            mounts += 1;
        },
        _ => panic!("expected the second mount"),
    }
    // Second candidate yields a valid environment: it is still unmounted
    // before the result is returned.
    let (r, action) = r.step(MediumEvent::Mounted(good_env()));
    match &action {
        MediumAction::Unmount(d) => {
            assert_eq!(***d, *"/dev/sr1");
            unmounts += 1;
        },
        _ => panic!("expected an unmount after the successful parse"),
    }
    let (r, action) = r.step(MediumEvent::Unmounted);
    match action {
        MediumAction::Stop(Ok(env)) => assert_eq!(env.username, "mediauser"),
        _ => panic!("expected the resolved environment"),
    }
    assert_eq!(mounts, 2);
    assert_eq!(unmounts, 2);
    // No candidate after the successful one is mounted.
    assert!(!r.accepts_event(&MediumEvent::Unmounted));
}

#[test]
fn medium_resolver_mount_failure_skips_unmount() {
    let (r, action) = media::Resolver::new(vec!["/dev/sr0".to_string()]);
    assert!(matches!(action, MediumAction::Mount(_)));
    let (_r, action) = r.step(MediumEvent::MountFailed);
    assert_eq!(action, MediumAction::Stop(Err(Error::NoViableMedium)));
}

#[test]
fn medium_resolver_no_candidates() {
    let (_r, action) = media::Resolver::new(vec![]);
    assert_eq!(action, MediumAction::Stop(Err(Error::NoViableMedium)));
}

const GOALSTATE_BODY: &str = "<GoalState><Version>2012-11-30</Version><Incarnation>17</Incarnation><Container><ContainerId>c-123</ContainerId><RoleInstanceList><RoleInstance><InstanceId>i-456</InstanceId></RoleInstance></RoleInstanceList></Container></GoalState>";

#[test]
fn goalstate_parse() {
    let g = goalstate::get_goalstate(GOALSTATE_BODY).unwrap();
    assert_eq!(g.incarnation, "17");
    assert_eq!(g.container_id, "c-123");
    assert_eq!(g.instance_id, "i-456");
    assert_eq!(
        goalstate::get_goalstate("<GoalState></GoalState>"),
        Err(Error::GoalstateInvalid)
    );
}

#[test]
fn health_report_token_round_trip() {
    let g = goalstate::get_goalstate(GOALSTATE_BODY).unwrap();
    let token = g.incarnation.clone();
    let report = goalstate::report_health(g);
    // The retrieved token is exactly the one the submission references.
    assert_eq!(report.incarnation, token);
    assert!(report.document.contains("<GoalStateIncarnation>17</GoalStateIncarnation>"));
    assert!(report.document.contains("<ContainerId>c-123</ContainerId>"));
    assert!(report.document.contains("<InstanceId>i-456</InstanceId>"));
    assert!(report.document.contains("<State>Ready</State>"));
}

#[test]
fn scan_find_first_occurrence() {
    assert_eq!(azure_init::scan::find("abcabc", "bc"), Some(1));
    assert_eq!(azure_init::scan::find("abcabc", "zz"), None);
    assert_eq!(azure_init::scan::find("abc", ""), Some(0));
    assert_eq!(azure_init::scan::between("<a>x</a>", "<a>", "</a>"), Some("x".to_string()));
    assert_eq!(azure_init::scan::between("<a>x</a>", "<b>", "</b>"), None);
}
