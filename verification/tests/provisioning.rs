use azure_init::backend::{interpret_outcome, Outcome, Plan};
use azure_init::error::{exit_kind, Error, ExitKind};
use azure_init::hostname;
use azure_init::password;
use azure_init::provision::{Action, Event, Provision};
use azure_init::ssh::SysUser;
use azure_init::user;
use azure_init::user::User;

fn sys_user(name: &str) -> SysUser {
    SysUser { name: name.to_string(), home: format!("/home/{name}"), uid: 1000, gid: 1000 }
}

#[test]
fn test_successful_provision() {
    let (_flow, action) = Provision::new(
        "my-hostname".to_string(),
        User::new("azureuser", vec![]),
    )
    .hostname_provisioners(vec![hostname::Provisioner::FakeHostnamectl])
    .user_provisioners(vec![user::Provisioner::FakeUseradd])
    .password_provisioners(vec![password::Provisioner::FakePasswd])
    .provision();
    assert!(matches!(action, Action::Stop(Ok(()))));
}

#[test]
fn useradd_command_arguments() {
    let u = User::new("azureuser", vec![]);
    let plan = user::Provisioner::Useradd.create(&u);
    match plan {
        Plan::Invoke(cmd) => {
            assert_eq!(cmd.program, "useradd");
            assert_eq!(
                cmd.args,
                vec![
                    "azureuser".to_string(),
                    "--comment".to_string(),
                    "Provisioning agent created this user based on username provided in IMDS"
                        .to_string(),
                    "--groups".to_string(),
                    "wheel".to_string(),
                    "-d".to_string(),
                    "/home/azureuser".to_string(),
                    "-m".to_string(),
                ]
            );
        },
        _ => panic!("expected a planned command"),
    }
}

#[test]
fn useradd_joins_supplemental_groups() {
    let u = User::new("azureuser", vec![]).with_groups(vec![
        "adm".to_string(),
        "sudo".to_string(),
        "video".to_string(),
    ]);
    let plan = user::Provisioner::Useradd.create(&u);
    match plan {
        Plan::Invoke(cmd) => assert_eq!(cmd.args[4], "adm,sudo,video"),
        _ => panic!("expected a planned command"),
    }
}

#[test]
fn empty_password_plans_delete_command() {
    let plan = password::Provisioner::Passwd.set("azureuser", "");
    match plan {
        Plan::Invoke(cmd) => {
            assert_eq!(cmd.program, "passwd");
            assert_eq!(cmd.args, vec!["-d".to_string(), "azureuser".to_string()]);
        },
        _ => panic!("expected a planned command"),
    }
}

#[test]
fn nonempty_password_rejected_before_any_command() {
    let plan = password::Provisioner::Passwd.set("azureuser", "hunter2");
    assert_eq!(plan, Plan::Rejected(Error::NonEmptyPassword));
}

#[test]
fn hostnamectl_command_argument() {
    let plan = hostname::Provisioner::Hostnamectl.set("vm-01");
    match plan {
        Plan::Invoke(cmd) => {
            assert_eq!(cmd.program, "hostnamectl");
            assert_eq!(cmd.args, vec!["hostname".to_string(), "vm-01".to_string()]);
        },
        _ => panic!("expected a planned command"),
    }
}

#[test]
fn fallback_chain_first_success_wins() {
    let (flow, action) = Provision::new("vm-01".to_string(), User::new("azureuser", vec![]))
        .user_provisioners(vec![
            user::Provisioner::Useradd,
            user::Provisioner::Useradd,
            user::Provisioner::Useradd,
        ])
        .password_provisioners(vec![password::Provisioner::FakePasswd])
        .hostname_provisioners(vec![hostname::Provisioner::FakeHostnamectl])
        .provision();
    // Variant 1 is invoked first.
    assert!(matches!(action, Action::Run(_)));
    // Variant 1 fails: variant 2 is invoked.
    let (flow, action) = flow.step(Event::Command(Outcome::Exited(1)));
    assert!(matches!(action, Action::Run(_)));
    // Variant 2 succeeds: no third invocation; the rest of the chain is
    // skipped and the run finishes through the no-op backends.
    let (_flow, action) = flow.step(Event::Command(Outcome::Exited(0)));
    assert!(matches!(action, Action::Stop(Ok(()))));
}

#[test]
fn all_variants_fail_yields_no_user_provisioner() {
    let (flow, action) = Provision::new("vm-01".to_string(), User::new("azureuser", vec![]))
        .user_provisioners(vec![user::Provisioner::Useradd, user::Provisioner::Useradd])
        .provision();
    assert!(matches!(action, Action::Run(_)));
    let (flow, action) = flow.step(Event::Command(Outcome::Exited(1)));
    assert!(matches!(action, Action::Run(_)));
    let (flow, action) = flow.step(Event::Command(Outcome::SpawnFailed));
    assert_eq!(action, Action::Stop(Err(Error::NoUserProvisioner)));
    // No later orchestrator step executes.
    assert!(!flow.accepts_event(&Event::Command(Outcome::Exited(0))));
    assert!(!flow.accepts_event(&Event::KeysInstalled));
}

#[test]
fn all_password_variants_fail_yields_no_password_provisioner() {
    let (flow, action) = Provision::new("vm-01".to_string(), User::new("azureuser", vec![]))
        .user_provisioners(vec![user::Provisioner::FakeUseradd])
        .password_provisioners(vec![password::Provisioner::Passwd])
        .provision();
    // The user step succeeded immediately; the password command runs next.
    assert!(matches!(action, Action::Run(_)));
    let (_flow, action) = flow.step(Event::Command(Outcome::Exited(1)));
    assert_eq!(action, Action::Stop(Err(Error::NoPasswordProvisioner)));
}

#[test]
fn rejected_password_variant_is_skipped_and_chain_exhausts() {
    // A non-empty password makes the real variant fail validation, with no
    // command invoked at all; with no other variant, the resource is
    // unprovisioned.
    let (_flow, action) = Provision::new(
        "vm-01".to_string(),
        User::new("azureuser", vec![]).with_password("hunter2"),
    )
        .user_provisioners(vec![user::Provisioner::FakeUseradd])
        .password_provisioners(vec![password::Provisioner::Passwd])
        .provision();
    assert_eq!(action, Action::Stop(Err(Error::NoPasswordProvisioner)));
}

#[test]
fn ssh_step_attempted_iff_keys_present() {
    // No keys: hostname follows password with no account lookup.
    let (_flow, action) = Provision::new("vm-01".to_string(), User::new("azureuser", vec![]))
        .user_provisioners(vec![user::Provisioner::FakeUseradd])
        .password_provisioners(vec![password::Provisioner::FakePasswd])
        .hostname_provisioners(vec![hostname::Provisioner::FakeHostnamectl])
        .provision();
    assert!(matches!(action, Action::Stop(Ok(()))));

    // Keys present: the account is looked up before anything else runs.
    let keys = vec![azure_init::imds::PublicKeys {
        key_data: "ssh-rsa AAAB3".to_string(),
        path: "/home/azureuser/.ssh/authorized_keys".to_string(),
    }];
    let (flow, action) = Provision::new("vm-01".to_string(), User::new("azureuser", keys))
        .user_provisioners(vec![user::Provisioner::FakeUseradd])
        .password_provisioners(vec![password::Provisioner::FakePasswd])
        .hostname_provisioners(vec![hostname::Provisioner::FakeHostnamectl])
        .provision();
    assert_eq!(action, Action::Lookup("azureuser".to_string()));
    let (flow, action) = flow.step(Event::UserFound(sys_user("azureuser")));
    match action {
        Action::WriteKeys(k) => {
            assert_eq!(k.user.name, "azureuser");
            assert_eq!(k.content, "ssh-rsa AAAB3\n");
        },
        _ => panic!("expected the authorized-keys installation"),
    }
    let (_flow, action) = flow.step(Event::KeysInstalled);
    assert!(matches!(action, Action::Stop(Ok(()))));
}

#[test]
fn missing_account_after_creation_is_config_error() {
    let keys = vec![azure_init::imds::PublicKeys {
        key_data: "ssh-rsa AAAB3".to_string(),
        path: String::new(),
    }];
    let (flow, action) = Provision::new("vm-01".to_string(), User::new("azureuser", keys))
        .user_provisioners(vec![user::Provisioner::FakeUseradd])
        .password_provisioners(vec![password::Provisioner::FakePasswd])
        .hostname_provisioners(vec![hostname::Provisioner::FakeHostnamectl])
        .provision();
    assert!(matches!(action, Action::Lookup(_)));
    let (flow, action) = flow.step(Event::UserAbsent);
    let outcome = match action {
        Action::Stop(res) => res,
        _ => panic!("expected a terminal failure"),
    };
    assert_eq!(outcome, Err(Error::UserMissing { user: "azureuser".to_string() }));
    assert_eq!(exit_kind(&outcome), ExitKind::ConfigError);
    // No hostname step runs.
    assert!(!flow.accepts_event(&Event::Command(Outcome::Exited(0))));
}

#[test]
fn exit_kind_classification() {
    assert_eq!(exit_kind(&Ok(())), ExitKind::Success);
    assert_eq!(
        exit_kind(&Err(Error::UserMissing { user: "azureuser".to_string() })),
        ExitKind::ConfigError
    );
    assert_eq!(exit_kind(&Err(Error::NonEmptyPassword)), ExitKind::ConfigError);
    assert_eq!(exit_kind(&Err(Error::NoUserProvisioner)), ExitKind::Failure);
    assert_eq!(exit_kind(&Err(Error::NoHostnameProvisioner)), ExitKind::Failure);
    assert_eq!(exit_kind(&Err(Error::Transport)), ExitKind::Failure);
}

#[test]
fn interpret_outcome_by_exit_status() {
    let cmd = "useradd".to_string();
    assert_eq!(interpret_outcome(&cmd, &Outcome::Exited(0)), Ok(()));
    assert_eq!(
        interpret_outcome(&cmd, &Outcome::Exited(8)),
        Err(Error::SubprocessFailed { command: "useradd".to_string(), status: 8 })
    );
    assert_eq!(
        interpret_outcome(&cmd, &Outcome::SpawnFailed),
        Err(Error::SpawnFailed { command: "useradd".to_string() })
    );
}

#[test]
fn lookup_user_resolves_root() {
    // Exercises the system user database query itself.
    let r = azure_init::ssh::lookup_user("root").expect("user database should be readable");
    let u = r.expect("root should exist");
    assert_eq!(u.name, "root");
    assert_eq!(u.uid, 0);
}

#[test]
fn lookup_user_absent_account() {
    let r = azure_init::ssh::lookup_user("no-such-account-zz9").expect("query should succeed");
    assert!(r.is_none());
}

#[test]
fn authorized_keys_one_line_per_key() {
    let keys = vec![
        azure_init::imds::PublicKeys { key_data: "ssh-rsa AAA".to_string(), path: String::new() },
        azure_init::imds::PublicKeys { key_data: "ssh-ed25519 BBB".to_string(), path: String::new() },
    ];
    assert_eq!(azure_init::ssh::authorized_keys(&keys), "ssh-rsa AAA\nssh-ed25519 BBB\n");
    assert_eq!(azure_init::ssh::authorized_keys(&vec![]), "");
}
