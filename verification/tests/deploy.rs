use os_watchdog::deploy::{
    action, deploy_agent, deploy_start, key_file_name, Action, DeployRequest, DeployResponse,
    PasswordPrompt, Phase, Progress, DEPLOYED, KEY_REJECTED, NOT_AUTHENTICATED, NO_CREDENTIALS,
    PASSWORD_REJECTED,
};

fn request(password: Option<&str>, private_key: Option<&str>) -> DeployRequest {
    DeployRequest {
        ip: String::from("192.168.1.20"),
        port: 30308,
        ssh_port: 2222,
        group_name: None,
        password: password.map(String::from),
        private_key: private_key.map(String::from),
    }
}

fn run(req: &DeployRequest, fails: &[Phase]) -> (Vec<Action>, DeployResponse) {
    let mut actions = Vec::new();
    let mut phase = deploy_start();
    loop {
        actions.push(action(req, phase));
        let outcome = if fails.contains(&phase) { Err(String::from("why")) } else { Ok(()) };
        match deploy_agent(req, phase, &outcome) {
            Progress::Continue(next) => phase = next,
            Progress::Finished(response) => return (actions, response),
        }
    }
}

fn commands(actions: &[Action]) -> Vec<String> {
    let mut found = Vec::new();
    for action in actions {
        if let Action::Run(command) = action {
            found.push(command.clone());
        }
    }
    found
}

#[test]
fn a_deployment_with_a_password() {
    let (actions, response) = run(&request(Some("pw"), Some("KEY")), &[]);
    assert!(response.success);
    assert_eq!(response.message, DEPLOYED);
    assert!(matches!(&actions[0], Action::Connect(a) if a == "192.168.1.20:2222"));
    assert!(matches!(&actions[3], Action::Password(p) if p == "pw"));
    assert!(matches!(&actions[4], Action::Confirm));
    let commands = commands(&actions);
    assert_eq!(commands.len(), 12);
    assert_eq!(commands[0], "useradd -m -s /bin/bash os-watchdog");
    assert_eq!(
        commands[6],
        "cat << 'EOF' > /etc/os-watchdog/config.yaml\nserver:\n  port: 30308\nnodes: []\n\nEOF\n"
    );
    assert_eq!(commands[11], "systemctl start os-watchdog");
}

#[test]
fn the_service_runs_the_agent() {
    let (actions, _) = run(&request(Some("pw"), None), &[]);
    let service = commands(&actions)[8].clone();
    assert!(service.starts_with("cat << 'EOF' > /etc/systemd/system/os-watchdog.service\n\n[Unit]\n"));
    assert!(service.contains(
        "ExecStart=/usr/local/bin/os-watchdog --agent-only -c /etc/os-watchdog/config.yaml\n"
    ));
    assert!(service.ends_with("WantedBy=multi-user.target\n\nEOF\n"));
}

#[test]
fn a_rejected_password_is_tried_in_answer_to_prompts() {
    let req = request(Some("pw"), None);
    let (actions, response) = run(&req, &[Phase::TryPassword]);
    assert!(response.success);
    assert!(matches!(&actions[4], Action::Prompts(p) if p == "pw"));
    let (actions, response) = run(&req, &[Phase::TryPassword, Phase::TryPrompts]);
    assert!(!response.success);
    assert_eq!(response.message, PASSWORD_REJECTED);
    assert!(commands(&actions).is_empty());
}

#[test]
fn a_private_key_is_stored_tried_and_removed() {
    let req = request(None, Some("KEY"));
    let (actions, response) = run(&req, &[]);
    assert!(response.success);
    assert!(matches!(&actions[3], Action::StoreKey { key, mode: 0o600 } if key == "KEY"));
    assert!(matches!(&actions[4], Action::TryKey));
    assert!(matches!(&actions[5], Action::RemoveKey));
    let (actions, response) = run(&req, &[Phase::TryKey]);
    assert_eq!(response.message, KEY_REJECTED);
    assert!(matches!(&actions[5], Action::RemoveKey));
    assert!(commands(&actions).is_empty());
}

fn remote(actions: &[Action]) -> usize {
    let mut n = 0;
    for action in actions {
        if matches!(action, Action::Run(_) | Action::CopyProgram { .. }) {
            n += 1;
        }
    }
    n
}

#[test]
fn a_deployment_follows_the_plan() {
    let req = request(Some("pw"), None);
    for (phase, n) in [
        (Phase::Connect, 0),
        (Phase::Confirm, 0),
        (Phase::InstallTools, 4),
        (Phase::LocateProgram, 4),
        (Phase::CopyProgram, 6),
        (Phase::StartService, 13),
    ] {
        let (actions, response) = run(&req, &[phase]);
        assert_eq!(remote(&actions), n);
        assert_eq!(response.success, n == 13);
    }
    let (actions, _) = run(&req, &[]);
    assert!(actions.iter().any(|action| matches!(
        action,
        Action::CopyProgram { to, mode: 0o755 } if to == "/usr/local/bin/os-watchdog"
    )));
}

#[test]
fn a_key_file_is_written_only_if_needed_and_then_removed() {
    for (req, fails, writes) in [
        (request(None, Some("KEY")), vec![], true),
        (request(None, Some("KEY")), vec![Phase::TryKey], true),
        (request(None, Some("KEY")), vec![Phase::Confirm], true),
        (request(None, Some("KEY")), vec![Phase::Handshake], false),
        (request(Some("pw"), Some("KEY")), vec![], false),
        (request(None, None), vec![], false),
    ] {
        let (actions, _) = run(&req, &fails);
        let written = actions.iter().position(|a| matches!(a, Action::StoreKey { .. }));
        let removed = actions.iter().position(|a| matches!(a, Action::RemoveKey));
        assert_eq!(written.is_some(), writes);
        assert_eq!(removed, written.map(|at| at + 2));
    }
    let (actions, response) = run(&request(None, Some("KEY")), &[Phase::StoreKey]);
    assert!(matches!(actions.last(), Some(Action::StoreKey { .. })));
    assert_eq!(response.message, "Failed to write temp key: why");
}

#[test]
fn the_written_configuration_is_yaml_with_the_port() {
    for port in [0u16, 1, 30308, 65535] {
        let mut req = request(Some("pw"), None);
        req.port = port;
        let (actions, _) = run(&req, &[]);
        let command = commands(&actions)[6].clone();
        let text = command
            .strip_prefix("cat << 'EOF' > /etc/os-watchdog/config.yaml\n")
            .unwrap()
            .strip_suffix("EOF\n")
            .unwrap();
        let yaml: serde_yaml::Value = serde_yaml::from_str(text).unwrap();
        assert_eq!(yaml["server"]["port"].as_u64(), Some(u64::from(port)));
        assert_eq!(yaml["nodes"].as_sequence().unwrap().len(), 0);
    }
}

#[test]
fn failures_name_their_reason() {
    let password = request(Some("pw"), None);
    let key = request(None, Some("KEY"));
    for (req, phase, message) in [
        (&password, Phase::Connect, "Failed to connect: why"),
        (&password, Phase::OpenSession, "Failed to create SSH session: why"),
        (&password, Phase::Handshake, "SSH handshake failed: why"),
        (&key, Phase::StoreKey, "Failed to write temp key: why"),
        (&password, Phase::Confirm, NOT_AUTHENTICATED),
        (&password, Phase::InstallTools, "Env setup failed: why"),
        (&password, Phase::LocateProgram, "Could not find current exe: why"),
        (&password, Phase::CopyProgram, "SCP failed: why"),
    ] {
        let (_, response) = run(req, &[phase]);
        assert!(!response.success);
        assert_eq!(response.message, message);
    }
    let (_, response) = run(&request(None, None), &[]);
    assert!(!response.success);
    assert_eq!(response.message, NO_CREDENTIALS);
}

#[test]
fn other_commands_may_fail() {
    let req = request(Some("pw"), None);
    let (actions, response) = run(
        &req,
        &[
            Phase::AddUser,
            Phase::JoinAdmins,
            Phase::AllowSudo,
            Phase::StopService,
            Phase::MakeConfigDir,
            Phase::WriteConfig,
            Phase::OwnConfig,
            Phase::WriteService,
            Phase::ReloadServices,
            Phase::EnableService,
            Phase::StartService,
        ],
    );
    assert!(response.success);
    assert_eq!(commands(&actions).len(), 12);
}

#[test]
fn prompts_are_answered_with_the_password() {
    let prompt = PasswordPrompt { password: String::from("pw") };
    assert_eq!(prompt.prompt(2), vec!["pw", "pw"]);
    assert!(prompt.prompt(0).is_empty());
    assert_eq!(key_file_name(4711), ".os_watchdog_key_4711");
}
