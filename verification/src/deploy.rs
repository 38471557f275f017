//! Deployment of the agent to another machine over SSH.
//!
//! A deployment is a sequence of phases. Each phase has one action, and how the
//! action went decides what comes next.

use crate::text::{
    decimal, format_u64, join, join3, law_decimal_is_digits, law_decimal_reads_back, parsed_u64, texts,
};
use vstd::prelude::*;
use vstd::string::*;

verus! {

/// A request to deploy the agent.
#[derive(Debug, Clone)]
pub struct DeployRequest {
    pub ip: String,
    pub port: u16,
    pub ssh_port: u16,
    pub group_name: Option<String>,
    pub password: Option<String>,
    pub private_key: Option<String>,
}

/// The answer to a request to deploy.
#[derive(Debug, Clone)]
pub struct DeployResponse {
    pub success: bool,
    pub message: String,
}

/// A `DeployResponse` with the message as a sequence of characters.
pub struct DeployResponseView {
    pub success: bool,
    pub message: Seq<char>,
}

impl View for DeployResponse {
    type V = DeployResponseView;

    open spec fn view(&self) -> DeployResponseView {
        DeployResponseView { success: self.success, message: self.message@ }
    }
}

/// The phases of a deployment, in order.
#[derive(Debug, Clone, Copy, PartialEq, Eq, Structural)]
pub enum Phase {
    /// A connection is to be made.
    Connect,
    /// An SSH session is to be created.
    OpenSession,
    /// The handshake is to be done.
    Handshake,
    /// The password is to be tried.
    TryPassword,
    /// The password was not taken and is to be tried in answer to prompts.
    TryPrompts,
    /// The private key is to be written to a file.
    StoreKey,
    /// The private key is to be tried.
    TryKey,
    /// The file with the private key is to be removed.
    RemoveKey { accepted: bool },
    /// The session is to be asked whether it is authenticated.
    Confirm,
    /// The user that the agent runs as is to be created.
    AddUser,
    /// The user is to be put into the group of administrators.
    JoinAdmins,
    /// The user is to get the right to run everything without a password.
    AllowSudo,
    /// The tools that the agent needs are to be installed.
    InstallTools,
    /// The program to deploy is to be found.
    LocateProgram,
    /// An agent that is already there is to be stopped.
    StopService,
    /// The program is to be copied.
    CopyProgram,
    /// The directory for the configuration is to be made.
    MakeConfigDir,
    /// The configuration is to be written.
    WriteConfig,
    /// The configuration is to be given to the user of the agent.
    OwnConfig,
    /// The description of the service is to be written.
    WriteService,
    /// The descriptions of services are to be read again.
    ReloadServices,
    /// The service is to be started whenever the machine starts.
    EnableService,
    /// The service is to be started.
    StartService,
}

/// What is to be done in a phase.
#[derive(Debug, Clone)]
pub enum Action {
    /// Connect to this address.
    Connect(String),
    /// Create an SSH session.
    OpenSession,
    /// Do the handshake.
    Handshake,
    /// Authenticate with this password.
    Password(String),
    /// Authenticate with this password in answer to prompts.
    Prompts(String),
    /// Write this private key to a file and give the file this mode.
    StoreKey { key: String, mode: u32 },
    /// Authenticate with the private key in the file.
    TryKey,
    /// Remove the file with the private key.
    RemoveKey,
    /// Ask whether the session is authenticated.
    Confirm,
    /// Run this command on the other machine.
    Run(String),
    /// Find the program that is running.
    LocateProgram,
    /// Copy the program to this place on the other machine, with this mode.
    CopyProgram { to: String, mode: i32 },
}

/// An `Action` with its texts as sequences of characters.
pub enum ActionView {
    Connect(Seq<char>),
    OpenSession,
    Handshake,
    Password(Seq<char>),
    Prompts(Seq<char>),
    StoreKey { key: Seq<char>, mode: u32 },
    TryKey,
    RemoveKey,
    Confirm,
    Run(Seq<char>),
    LocateProgram,
    CopyProgram { to: Seq<char>, mode: i32 },
}

impl View for Action {
    type V = ActionView;

    open spec fn view(&self) -> ActionView {
        match self {
            Action::Connect(address) => ActionView::Connect(address@),
            Action::OpenSession => ActionView::OpenSession,
            Action::Handshake => ActionView::Handshake,
            Action::Password(password) => ActionView::Password(password@),
            Action::Prompts(password) => ActionView::Prompts(password@),
            Action::StoreKey { key, mode } => ActionView::StoreKey { key: key@, mode: *mode },
            Action::TryKey => ActionView::TryKey,
            Action::RemoveKey => ActionView::RemoveKey,
            Action::Confirm => ActionView::Confirm,
            Action::Run(command) => ActionView::Run(command@),
            Action::LocateProgram => ActionView::LocateProgram,
            Action::CopyProgram { to, mode } => ActionView::CopyProgram { to: to@, mode: *mode },
        }
    }
}

/// The user that is logged in as on the other machine.
pub const REMOTE_USER: &'static str = "root";

/// Where the program is copied to.
pub const REMOTE_PROGRAM: &'static str = "/usr/local/bin/os-watchdog";

/// The mode of the copied program: its owner can write it, everyone can run it.
pub const PROGRAM_MODE: i32 = 0o755;

/// The mode of the file with the private key: only its owner can read it.
pub const KEY_MODE: u32 = 0o600;

pub const ADD_USER: &'static str = "useradd -m -s /bin/bash os-watchdog";

pub const JOIN_ADMINS: &'static str = "usermod -aG sudo os-watchdog || usermod -aG wheel os-watchdog";

pub const ALLOW_SUDO: &'static str = "echo 'os-watchdog ALL=(ALL) NOPASSWD: ALL' > /etc/sudoers.d/os-watchdog";

pub const INSTALL_TOOLS: &'static str = "
if command -v apt-get >/dev/null 2>&1; then
    apt-get update && apt-get install -y smartmontools
elif command -v yum >/dev/null 2>&1; then
    yum install -y smartmontools
elif command -v dnf >/dev/null 2>&1; then
    dnf install -y smartmontools
fi
";

pub const STOP_SERVICE: &'static str = "systemctl stop os-watchdog";

pub const MAKE_CONFIG_DIR: &'static str = "mkdir -p /etc/os-watchdog";

pub const OWN_CONFIG: &'static str = "chown os-watchdog:os-watchdog /etc/os-watchdog/config.yaml";

/// The description of the service.
pub const SERVICE_FILE: &'static str = "
[Unit]
Description=OS Watchdog Agent
After=network.target

[Service]
Type=simple
User=os-watchdog
ExecStart=/usr/local/bin/os-watchdog --agent-only -c /etc/os-watchdog/config.yaml
Restart=on-failure
RestartSec=5

[Install]
WantedBy=multi-user.target
";

pub const RELOAD_SERVICES: &'static str = "systemctl daemon-reload";

pub const ENABLE_SERVICE: &'static str = "systemctl enable os-watchdog";

pub const START_SERVICE: &'static str = "systemctl start os-watchdog";

/// The text of a configuration file with this port and no nodes.
pub open spec fn config_text(port: u16) -> Seq<char> {
    "server:\n  port: "@ + decimal(port as nat) + "\nnodes: []\n"@
}

/// The command that writes a configuration with this port.
pub open spec fn write_config_command(port: u16) -> Seq<char> {
    "cat << 'EOF' > /etc/os-watchdog/config.yaml\n"@ + config_text(port) + "\nEOF\n"@
}

/// The command that writes the description of the service.
pub open spec fn write_service_command() -> Seq<char> {
    "cat << 'EOF' > /etc/systemd/system/os-watchdog.service\n"@ + SERVICE_FILE@ + "\nEOF\n"@
}

/// The address that is connected to.
pub open spec fn address(req: DeployRequest) -> Seq<char> {
    req.ip@ + ":"@ + decimal(req.ssh_port as nat)
}

/// A text, or nothing where there is none.
pub open spec fn text_or_empty(text: Option<String>) -> Seq<char> {
    match text {
        Some(s) => s@,
        None => Seq::empty(),
    }
}

/// The program is copied to its place.
pub open spec fn copy_action() -> ActionView {
    ActionView::CopyProgram { to: REMOTE_PROGRAM@, mode: PROGRAM_MODE }
}

/// What is to be done in a phase.
pub open spec fn action_of(req: DeployRequest, phase: Phase) -> ActionView {
    match phase {
        Phase::Connect => ActionView::Connect(address(req)),
        Phase::OpenSession => ActionView::OpenSession,
        Phase::Handshake => ActionView::Handshake,
        Phase::TryPassword => ActionView::Password(text_or_empty(req.password)),
        Phase::TryPrompts => ActionView::Prompts(text_or_empty(req.password)),
        Phase::StoreKey => ActionView::StoreKey {
            key: text_or_empty(req.private_key),
            mode: KEY_MODE,
        },
        Phase::TryKey => ActionView::TryKey,
        Phase::RemoveKey { .. } => ActionView::RemoveKey,
        Phase::Confirm => ActionView::Confirm,
        Phase::AddUser => ActionView::Run(ADD_USER@),
        Phase::JoinAdmins => ActionView::Run(JOIN_ADMINS@),
        Phase::AllowSudo => ActionView::Run(ALLOW_SUDO@),
        Phase::InstallTools => ActionView::Run(INSTALL_TOOLS@),
        Phase::LocateProgram => ActionView::LocateProgram,
        Phase::StopService => ActionView::Run(STOP_SERVICE@),
        Phase::CopyProgram => copy_action(),
        Phase::MakeConfigDir => ActionView::Run(MAKE_CONFIG_DIR@),
        Phase::WriteConfig => ActionView::Run(write_config_command(req.port)),
        Phase::OwnConfig => ActionView::Run(OWN_CONFIG@),
        Phase::WriteService => ActionView::Run(write_service_command()),
        Phase::ReloadServices => ActionView::Run(RELOAD_SERVICES@),
        Phase::EnableService => ActionView::Run(ENABLE_SERVICE@),
        Phase::StartService => ActionView::Run(START_SERVICE@),
    }
}

fn text_or_nothing(text: &Option<String>) -> (r: String)
    ensures
        r@ == text_or_empty(*text),
{
    match text {
        Some(s) => s.clone(),
        None => String::new(),
    }
}

/// What is to be done in a phase.
pub fn action(req: &DeployRequest, phase: Phase) -> (r: Action)
    ensures
        r@ == action_of(*req, phase),
{
    match phase {
        Phase::Connect => {
            let port = format_u64(req.ssh_port as u64);
            Action::Connect(join3(req.ip.as_str(), ":", port.as_str()))
        },
        Phase::OpenSession => Action::OpenSession,
        Phase::Handshake => Action::Handshake,
        Phase::TryPassword => Action::Password(text_or_nothing(&req.password)),
        Phase::TryPrompts => Action::Prompts(text_or_nothing(&req.password)),
        Phase::StoreKey => Action::StoreKey {
            key: text_or_nothing(&req.private_key),
            mode: KEY_MODE,
        },
        Phase::TryKey => Action::TryKey,
        Phase::RemoveKey { .. } => Action::RemoveKey,
        Phase::Confirm => Action::Confirm,
        Phase::AddUser => Action::Run(ADD_USER.to_owned()),
        Phase::JoinAdmins => Action::Run(JOIN_ADMINS.to_owned()),
        Phase::AllowSudo => Action::Run(ALLOW_SUDO.to_owned()),
        Phase::InstallTools => Action::Run(INSTALL_TOOLS.to_owned()),
        Phase::LocateProgram => Action::LocateProgram,
        Phase::StopService => Action::Run(STOP_SERVICE.to_owned()),
        Phase::CopyProgram => Action::CopyProgram {
            to: REMOTE_PROGRAM.to_owned(),
            mode: PROGRAM_MODE,
        },
        Phase::MakeConfigDir => Action::Run(MAKE_CONFIG_DIR.to_owned()),
        Phase::WriteConfig => {
            let port = format_u64(req.port as u64);
            let config = join3("server:\n  port: ", port.as_str(), "\nnodes: []\n");
            Action::Run(
                join3(
                    "cat << 'EOF' > /etc/os-watchdog/config.yaml\n",
                    config.as_str(),
                    "\nEOF\n",
                ),
            )
        },
        Phase::OwnConfig => Action::Run(OWN_CONFIG.to_owned()),
        Phase::WriteService => Action::Run(
            join3(
                "cat << 'EOF' > /etc/systemd/system/os-watchdog.service\n",
                SERVICE_FILE,
                "\nEOF\n",
            ),
        ),
        Phase::ReloadServices => Action::Run(RELOAD_SERVICES.to_owned()),
        Phase::EnableService => Action::Run(ENABLE_SERVICE.to_owned()),
        Phase::StartService => Action::Run(START_SERVICE.to_owned()),
    }
}

/// What comes after a phase.
#[derive(Debug, Clone)]
pub enum Progress {
    /// The deployment goes on with this phase.
    Continue(Phase),
    /// The deployment ends with this answer.
    Finished(DeployResponse),
}

/// A `Progress` with the answer as its view.
pub enum ProgressView {
    Continue(Phase),
    Finished(DeployResponseView),
}

impl View for Progress {
    type V = ProgressView;

    open spec fn view(&self) -> ProgressView {
        match self {
            Progress::Continue(phase) => ProgressView::Continue(*phase),
            Progress::Finished(response) => ProgressView::Finished(response@),
        }
    }
}

/// The deployment ends with a failure for this reason.
pub open spec fn failed(message: Seq<char>) -> ProgressView {
    ProgressView::Finished(DeployResponseView { success: false, message })
}

/// The deployment goes on if the action went well, and otherwise ends with a
/// failure that names the reason behind a prefix.
pub open spec fn needed(
    outcome: Result<(), Seq<char>>,
    next: Phase,
    prefix: Seq<char>,
) -> ProgressView {
    match outcome {
        Ok(_) => ProgressView::Continue(next),
        Err(reason) => failed(prefix + reason),
    }
}

pub const PASSWORD_REJECTED: &'static str = "Authentication failed. Please ensure the password is correct, AND your server's /etc/ssh/sshd_config has 'PermitRootLogin yes' and 'PasswordAuthentication yes' (or KbdInteractive).";

pub const KEY_REJECTED: &'static str = "Authentication failed using private key. Please check the key format and SSH server settings.";

pub const NO_CREDENTIALS: &'static str = "No password or private key provided";

pub const NOT_AUTHENTICATED: &'static str = "Authentication failed";

pub const DEPLOYED: &'static str = "Agent deployed and started successfully.";

/// What comes after a phase whose action went so. The reason of a failure is
/// given in words.
///
/// A password is preferred to a private key. Commands whose failure does not
/// stop the deployment go on in any case.
pub open spec fn next_of(
    req: DeployRequest,
    phase: Phase,
    outcome: Result<(), Seq<char>>,
) -> ProgressView {
    match phase {
        Phase::Connect => needed(outcome, Phase::OpenSession, "Failed to connect: "@),
        Phase::OpenSession => needed(outcome, Phase::Handshake, "Failed to create SSH session: "@),
        Phase::Handshake => if outcome is Err {
            failed("SSH handshake failed: "@ + outcome->Err_0)
        } else if req.password is Some {
            ProgressView::Continue(Phase::TryPassword)
        } else if req.private_key is Some {
            ProgressView::Continue(Phase::StoreKey)
        } else {
            failed(NO_CREDENTIALS@)
        },
        Phase::TryPassword => if outcome is Ok {
            ProgressView::Continue(Phase::Confirm)
        } else {
            ProgressView::Continue(Phase::TryPrompts)
        },
        Phase::TryPrompts => if outcome is Ok {
            ProgressView::Continue(Phase::Confirm)
        } else {
            failed(PASSWORD_REJECTED@)
        },
        Phase::StoreKey => needed(outcome, Phase::TryKey, "Failed to write temp key: "@),
        Phase::TryKey => ProgressView::Continue(Phase::RemoveKey { accepted: outcome is Ok }),
        Phase::RemoveKey { accepted } => if accepted {
            ProgressView::Continue(Phase::Confirm)
        } else {
            failed(KEY_REJECTED@)
        },
        Phase::Confirm => if outcome is Ok {
            ProgressView::Continue(Phase::AddUser)
        } else {
            failed(NOT_AUTHENTICATED@)
        },
        Phase::AddUser => ProgressView::Continue(Phase::JoinAdmins),
        Phase::JoinAdmins => ProgressView::Continue(Phase::AllowSudo),
        Phase::AllowSudo => ProgressView::Continue(Phase::InstallTools),
        Phase::InstallTools => needed(outcome, Phase::LocateProgram, "Env setup failed: "@),
        Phase::LocateProgram => needed(
            outcome,
            Phase::StopService,
            "Could not find current exe: "@,
        ),
        Phase::StopService => ProgressView::Continue(Phase::CopyProgram),
        Phase::CopyProgram => needed(outcome, Phase::MakeConfigDir, "SCP failed: "@),
        Phase::MakeConfigDir => ProgressView::Continue(Phase::WriteConfig),
        Phase::WriteConfig => ProgressView::Continue(Phase::OwnConfig),
        Phase::OwnConfig => ProgressView::Continue(Phase::WriteService),
        Phase::WriteService => ProgressView::Continue(Phase::ReloadServices),
        Phase::ReloadServices => ProgressView::Continue(Phase::EnableService),
        Phase::EnableService => ProgressView::Continue(Phase::StartService),
        Phase::StartService => ProgressView::Finished(
            DeployResponseView { success: true, message: DEPLOYED@ },
        ),
    }
}

/// The outcome of an action with the reason of a failure as a sequence of
/// characters.
pub open spec fn outcome_view(outcome: Result<(), String>) -> Result<(), Seq<char>> {
    match outcome {
        Ok(_) => Ok(()),
        Err(reason) => Err(reason@),
    }
}

fn fail(message: &str) -> (r: Progress)
    ensures
        r@ == failed(message@),
{
    Progress::Finished(DeployResponse { success: false, message: message.to_owned() })
}

fn go_on_if(outcome: &Result<(), String>, next: Phase, prefix: &str) -> (r: Progress)
    ensures
        r@ == needed(outcome_view(*outcome), next, prefix@),
{
    match outcome {
        Ok(_) => Progress::Continue(next),
        Err(reason) => Progress::Finished(
            DeployResponse { success: false, message: join(prefix, reason.as_str()) },
        ),
    }
}

/// The phase that a deployment begins with.
pub fn deploy_start() -> (r: Phase)
    ensures
        r == Phase::Connect,
{
    Phase::Connect
}

/// What comes after a phase, given how its action went.
pub fn deploy_agent(req: &DeployRequest, phase: Phase, outcome: &Result<(), String>) -> (r: Progress)
    ensures
        r@ == next_of(*req, phase, outcome_view(*outcome)),
{
    match phase {
        Phase::Connect => go_on_if(outcome, Phase::OpenSession, "Failed to connect: "),
        Phase::OpenSession => go_on_if(
            outcome,
            Phase::Handshake,
            "Failed to create SSH session: ",
        ),
        Phase::Handshake => match outcome {
            Err(reason) => Progress::Finished(
                DeployResponse {
                    success: false,
                    message: join("SSH handshake failed: ", reason.as_str()),
                },
            ),
            Ok(_) => if req.password.is_some() {
                Progress::Continue(Phase::TryPassword)
            } else if req.private_key.is_some() {
                Progress::Continue(Phase::StoreKey)
            } else {
                fail(NO_CREDENTIALS)
            },
        },
        Phase::TryPassword => if outcome.is_ok() {
            Progress::Continue(Phase::Confirm)
        } else {
            Progress::Continue(Phase::TryPrompts)
        },
        Phase::TryPrompts => if outcome.is_ok() {
            Progress::Continue(Phase::Confirm)
        } else {
            fail(PASSWORD_REJECTED)
        },
        Phase::StoreKey => go_on_if(outcome, Phase::TryKey, "Failed to write temp key: "),
        Phase::TryKey => Progress::Continue(Phase::RemoveKey { accepted: outcome.is_ok() }),
        Phase::RemoveKey { accepted } => if accepted {
            Progress::Continue(Phase::Confirm)
        } else {
            fail(KEY_REJECTED)
        },
        Phase::Confirm => if outcome.is_ok() {
            Progress::Continue(Phase::AddUser)
        } else {
            fail(NOT_AUTHENTICATED)
        },
        Phase::AddUser => Progress::Continue(Phase::JoinAdmins),
        Phase::JoinAdmins => Progress::Continue(Phase::AllowSudo),
        Phase::AllowSudo => Progress::Continue(Phase::InstallTools),
        Phase::InstallTools => go_on_if(outcome, Phase::LocateProgram, "Env setup failed: "),
        Phase::LocateProgram => go_on_if(
            outcome,
            Phase::StopService,
            "Could not find current exe: ",
        ),
        Phase::StopService => Progress::Continue(Phase::CopyProgram),
        Phase::CopyProgram => go_on_if(outcome, Phase::MakeConfigDir, "SCP failed: "),
        Phase::MakeConfigDir => Progress::Continue(Phase::WriteConfig),
        Phase::WriteConfig => Progress::Continue(Phase::OwnConfig),
        Phase::OwnConfig => Progress::Continue(Phase::WriteService),
        Phase::WriteService => Progress::Continue(Phase::ReloadServices),
        Phase::ReloadServices => Progress::Continue(Phase::EnableService),
        Phase::EnableService => Progress::Continue(Phase::StartService),
        Phase::StartService => Progress::Finished(
            DeployResponse { success: true, message: DEPLOYED.to_owned() },
        ),
    }
}

/// The place of a phase in a deployment.
pub open spec fn rank(phase: Phase) -> nat {
    match phase {
        Phase::Connect => 0,
        Phase::OpenSession => 1,
        Phase::Handshake => 2,
        Phase::TryPassword => 3,
        Phase::TryPrompts => 4,
        Phase::StoreKey => 3,
        Phase::TryKey => 4,
        Phase::RemoveKey { .. } => 5,
        Phase::Confirm => 6,
        Phase::AddUser => 7,
        Phase::JoinAdmins => 8,
        Phase::AllowSudo => 9,
        Phase::InstallTools => 10,
        Phase::LocateProgram => 11,
        Phase::StopService => 12,
        Phase::CopyProgram => 13,
        Phase::MakeConfigDir => 14,
        Phase::WriteConfig => 15,
        Phase::OwnConfig => 16,
        Phase::WriteService => 17,
        Phase::ReloadServices => 18,
        Phase::EnableService => 19,
        Phase::StartService => 20,
    }
}

/// The phase comes after the session was found to be authenticated.
pub open spec fn after_confirm(phase: Phase) -> bool {
    rank(phase) > rank(Phase::Confirm)
}

/// Every step leads further: no phase is entered twice, and a deployment ends
/// after at most 21 actions.
pub proof fn law_deployment_ends(
    req: DeployRequest,
    phase: Phase,
    outcome: Result<(), Seq<char>>,
)
    ensures
        rank(phase) <= 20,
        next_of(req, phase, outcome) matches ProgressView::Continue(next) ==> rank(next) > rank(
            phase,
        ),
{
}

/// Nothing is run on the other machine and nothing is copied to it before the
/// session was found to be authenticated: the phases that do so are entered only
/// from one another, or from a confirmation that succeeded.
pub proof fn law_nothing_runs_unauthenticated(
    req: DeployRequest,
    phase: Phase,
    outcome: Result<(), Seq<char>>,
)
    ensures
        action_of(req, phase) is Run || action_of(req, phase) is CopyProgram ==> after_confirm(
            phase,
        ),
        !after_confirm(Phase::Connect),
        next_of(req, phase, outcome) matches ProgressView::Continue(next) ==> (after_confirm(next)
            ==> after_confirm(phase) || (phase is Confirm && outcome is Ok)),
{
}

/// A private key that was written to a file is removed, whether or not it was
/// taken.
pub proof fn law_stored_key_is_removed(
    req: DeployRequest,
    stored: Result<(), Seq<char>>,
    tried: Result<(), Seq<char>>,
)
    ensures
        next_of(req, Phase::StoreKey, stored) is Continue ==> next_of(req, Phase::StoreKey, stored)
            == ProgressView::Continue(Phase::TryKey),
        next_of(req, Phase::TryKey, tried) == ProgressView::Continue(
            Phase::RemoveKey { accepted: tried is Ok },
        ),
        action_of(req, Phase::RemoveKey { accepted: tried is Ok }) is RemoveKey,
{
}

/// How a deployment ends that has come to a phase, if the actions from there on
/// go as `outcomes` says.
pub open spec fn deploy_end(
    req: DeployRequest,
    phase: Phase,
    outcomes: spec_fn(Phase) -> Result<(), Seq<char>>,
) -> DeployResponseView
    decreases 20 - rank(phase),
    via deploy_end_comes
{
    match next_of(req, phase, outcomes(phase)) {
        ProgressView::Continue(next) => deploy_end(req, next, outcomes),
        ProgressView::Finished(response) => response,
    }
}

#[via_fn]
proof fn deploy_end_comes(
    req: DeployRequest,
    phase: Phase,
    outcomes: spec_fn(Phase) -> Result<(), Seq<char>>,
) {
    lemma_next_is_later(req, phase, outcomes);
}

proof fn lemma_next_is_later(
    req: DeployRequest,
    phase: Phase,
    outcomes: spec_fn(Phase) -> Result<(), Seq<char>>,
)
    ensures
        next_of(req, phase, outcomes(phase)) matches ProgressView::Continue(next) ==> rank(phase)
            < rank(next) <= 20,
{
    law_deployment_ends(req, phase, outcomes(phase));
    match next_of(req, phase, outcomes(phase)) {
        ProgressView::Continue(next) => law_deployment_ends(req, next, outcomes(next)),
        ProgressView::Finished(_) => {},
    }
}

/// The credentials of the request are taken: the password, at once or in answer
/// to prompts; without a password, the private key.
pub open spec fn credentials_taken(
    req: DeployRequest,
    outcomes: spec_fn(Phase) -> Result<(), Seq<char>>,
) -> bool {
    if req.password is Some {
        outcomes(Phase::TryPassword) is Ok || outcomes(Phase::TryPrompts) is Ok
    } else {
        req.private_key is Some && outcomes(Phase::StoreKey) is Ok && outcomes(Phase::TryKey) is Ok
    }
}

proof fn lemma_end_after_confirm(
    req: DeployRequest,
    outcomes: spec_fn(Phase) -> Result<(), Seq<char>>,
)
    ensures
        deploy_end(req, Phase::AddUser, outcomes).success <==> {
            &&& outcomes(Phase::InstallTools) is Ok
            &&& outcomes(Phase::LocateProgram) is Ok
            &&& outcomes(Phase::CopyProgram) is Ok
        },
{
    reveal_with_fuel(deploy_end, 15);
}

/// A deployment succeeds exactly if the machine can be reached, a session is
/// opened on it, the credentials are taken and the session is authenticated, the
/// tools can be installed, and the program is found and copied. How the other
/// commands went makes no difference.
pub proof fn law_deployment_succeeds_if(
    req: DeployRequest,
    outcomes: spec_fn(Phase) -> Result<(), Seq<char>>,
)
    ensures
        deploy_end(req, Phase::Connect, outcomes).success <==> {
            &&& outcomes(Phase::Connect) is Ok
            &&& outcomes(Phase::OpenSession) is Ok
            &&& outcomes(Phase::Handshake) is Ok
            &&& credentials_taken(req, outcomes)
            &&& outcomes(Phase::Confirm) is Ok
            &&& outcomes(Phase::InstallTools) is Ok
            &&& outcomes(Phase::LocateProgram) is Ok
            &&& outcomes(Phase::CopyProgram) is Ok
        },
{
    lemma_end_after_confirm(req, outcomes);
    reveal_with_fuel(deploy_end, 8);
}

/// The action does something to the other machine.
pub open spec fn is_remote(action: ActionView) -> bool {
    action is Run || action is CopyProgram
}

/// What a deployment that has come to a phase attempts on the other machine, if
/// the actions from there on go as `outcomes` says.
pub open spec fn remote_actions(
    req: DeployRequest,
    phase: Phase,
    outcomes: spec_fn(Phase) -> Result<(), Seq<char>>,
) -> Seq<ActionView>
    decreases 20 - rank(phase),
    via remote_actions_end
{
    let here = if is_remote(action_of(req, phase)) {
        seq![action_of(req, phase)]
    } else {
        Seq::empty()
    };
    match next_of(req, phase, outcomes(phase)) {
        ProgressView::Continue(next) => here + remote_actions(req, next, outcomes),
        ProgressView::Finished(_) => here,
    }
}

#[via_fn]
proof fn remote_actions_end(
    req: DeployRequest,
    phase: Phase,
    outcomes: spec_fn(Phase) -> Result<(), Seq<char>>,
) {
    lemma_next_is_later(req, phase, outcomes);
}

/// Everything that a deployment does to the other machine, in order.
pub open spec fn remote_plan(req: DeployRequest) -> Seq<ActionView> {
    seq![
        ActionView::Run(ADD_USER@),
        ActionView::Run(JOIN_ADMINS@),
        ActionView::Run(ALLOW_SUDO@),
        ActionView::Run(INSTALL_TOOLS@),
        ActionView::Run(STOP_SERVICE@),
        copy_action(),
        ActionView::Run(MAKE_CONFIG_DIR@),
        ActionView::Run(write_config_command(req.port)),
        ActionView::Run(OWN_CONFIG@),
        ActionView::Run(write_service_command()),
        ActionView::Run(RELOAD_SERVICES@),
        ActionView::Run(ENABLE_SERVICE@),
        ActionView::Run(START_SERVICE@),
    ]
}

/// A connection is made, and a session is opened on it.
pub open spec fn session_opened(outcomes: spec_fn(Phase) -> Result<(), Seq<char>>) -> bool {
    &&& outcomes(Phase::Connect) is Ok
    &&& outcomes(Phase::OpenSession) is Ok
    &&& outcomes(Phase::Handshake) is Ok
}

/// The session is opened and authenticated.
pub open spec fn authenticated(
    req: DeployRequest,
    outcomes: spec_fn(Phase) -> Result<(), Seq<char>>,
) -> bool {
    session_opened(outcomes) && credentials_taken(req, outcomes) && outcomes(Phase::Confirm) is Ok
}

/// How much of the plan is attempted: nothing unless authenticated; up to the
/// installation of the tools if that fails or the program is not found; up to
/// the copy if that fails; and otherwise all of it.
pub open spec fn attempted(
    req: DeployRequest,
    outcomes: spec_fn(Phase) -> Result<(), Seq<char>>,
) -> int {
    if !authenticated(req, outcomes) {
        0
    } else if outcomes(Phase::InstallTools) is Err || outcomes(Phase::LocateProgram) is Err {
        4
    } else if outcomes(Phase::CopyProgram) is Err {
        6
    } else {
        13
    }
}

proof fn lemma_actions_after_copy(
    req: DeployRequest,
    outcomes: spec_fn(Phase) -> Result<(), Seq<char>>,
)
    ensures
        remote_actions(req, Phase::MakeConfigDir, outcomes) == remote_plan(req).skip(6),
{
    reveal_with_fuel(remote_actions, 8);
    assert(remote_actions(req, Phase::MakeConfigDir, outcomes) =~= remote_plan(req).skip(6));
}

proof fn lemma_actions_after_confirm(
    req: DeployRequest,
    outcomes: spec_fn(Phase) -> Result<(), Seq<char>>,
)
    requires
        authenticated(req, outcomes),
    ensures
        remote_actions(req, Phase::AddUser, outcomes) == remote_plan(req).take(
            attempted(req, outcomes),
        ),
{
    lemma_actions_after_copy(req, outcomes);
    reveal_with_fuel(remote_actions, 8);
    assert(remote_actions(req, Phase::AddUser, outcomes) =~= remote_plan(req).take(
        attempted(req, outcomes),
    ));
}

/// What a deployment attempts on the other machine is a beginning of the one
/// plan, and is all of it exactly if the deployment succeeds. Unless the session
/// is authenticated nothing is attempted. If the program is not found it is not
/// copied, and if the copy fails nothing comes after it.
pub proof fn law_deployment_follows_the_plan(
    req: DeployRequest,
    outcomes: spec_fn(Phase) -> Result<(), Seq<char>>,
)
    ensures
        remote_actions(req, Phase::Connect, outcomes) == remote_plan(req).take(
            attempted(req, outcomes),
        ),
        remote_actions(req, Phase::Connect, outcomes) == remote_plan(req) <==> deploy_end(
            req,
            Phase::Connect,
            outcomes,
        ).success,
{
    law_deployment_succeeds_if(req, outcomes);
    if authenticated(req, outcomes) {
        lemma_actions_after_confirm(req, outcomes);
    }
    reveal_with_fuel(remote_actions, 8);
    assert(remote_actions(req, Phase::Connect, outcomes) =~= remote_plan(req).take(
        attempted(req, outcomes),
    ));
    assert(remote_plan(req).take(13) =~= remote_plan(req));
    assert(remote_plan(req).len() == 13);
}

/// A deployment that has come to a phase enters another one, that phase itself
/// included.
pub open spec fn enters(
    req: DeployRequest,
    phase: Phase,
    outcomes: spec_fn(Phase) -> Result<(), Seq<char>>,
    target: Phase,
) -> bool
    decreases 20 - rank(phase),
    via enters_ends
{
    phase == target || match next_of(req, phase, outcomes(phase)) {
        ProgressView::Continue(next) => enters(req, next, outcomes, target),
        ProgressView::Finished(_) => false,
    }
}

#[via_fn]
proof fn enters_ends(
    req: DeployRequest,
    phase: Phase,
    outcomes: spec_fn(Phase) -> Result<(), Seq<char>>,
    target: Phase,
) {
    lemma_next_is_later(req, phase, outcomes);
}

proof fn lemma_enters_only_later(
    req: DeployRequest,
    phase: Phase,
    outcomes: spec_fn(Phase) -> Result<(), Seq<char>>,
    target: Phase,
)
    requires
        rank(phase) > rank(target),
    ensures
        !enters(req, phase, outcomes, target),
    decreases 20 - rank(phase),
{
    lemma_next_is_later(req, phase, outcomes);
    match next_of(req, phase, outcomes(phase)) {
        ProgressView::Continue(next) => {
            lemma_enters_only_later(req, next, outcomes, target);
        },
        ProgressView::Finished(_) => {},
    }
}

/// A private key is written to a file exactly if a session is opened and the
/// request brings a key and no password.
pub proof fn law_key_is_stored_if(
    req: DeployRequest,
    outcomes: spec_fn(Phase) -> Result<(), Seq<char>>,
)
    ensures
        enters(req, Phase::Connect, outcomes, Phase::StoreKey) <==> {
            &&& session_opened(outcomes)
            &&& req.password is None
            &&& req.private_key is Some
        },
{
    reveal_with_fuel(enters, 5);
    lemma_enters_only_later(req, Phase::TryPrompts, outcomes, Phase::StoreKey);
    lemma_enters_only_later(req, Phase::Confirm, outcomes, Phase::StoreKey);
}

/// Whether there may be a file with a private key once a deployment that has come
/// to a phase has ended, given whether there may be one now. A write that failed
/// may have left a part of the key.
pub open spec fn key_file_left(
    req: DeployRequest,
    phase: Phase,
    outcomes: spec_fn(Phase) -> Result<(), Seq<char>>,
    now: bool,
) -> bool
    decreases 20 - rank(phase),
    via key_file_left_ends
{
    let then = match action_of(req, phase) {
        ActionView::StoreKey { .. } => true,
        ActionView::RemoveKey => now && outcomes(phase) is Err,
        _ => now,
    };
    match next_of(req, phase, outcomes(phase)) {
        ProgressView::Continue(next) => key_file_left(req, next, outcomes, then),
        ProgressView::Finished(_) => then,
    }
}

#[via_fn]
proof fn key_file_left_ends(
    req: DeployRequest,
    phase: Phase,
    outcomes: spec_fn(Phase) -> Result<(), Seq<char>>,
    now: bool,
) {
    lemma_next_is_later(req, phase, outcomes);
}

proof fn lemma_no_key_file_comes(
    req: DeployRequest,
    phase: Phase,
    outcomes: spec_fn(Phase) -> Result<(), Seq<char>>,
)
    requires
        rank(phase) >= rank(Phase::Confirm) || phase is TryPassword || phase is TryPrompts,
    ensures
        !key_file_left(req, phase, outcomes, false),
    decreases 20 - rank(phase),
{
    lemma_next_is_later(req, phase, outcomes);
    match next_of(req, phase, outcomes(phase)) {
        ProgressView::Continue(next) => {
            lemma_no_key_file_comes(req, next, outcomes);
        },
        ProgressView::Finished(_) => {},
    }
}

/// However a deployment ends, it leaves no file with a private key, unless writing
/// that file failed, provided that such a file can be removed.
pub proof fn law_no_key_file_is_left(
    req: DeployRequest,
    outcomes: spec_fn(Phase) -> Result<(), Seq<char>>,
)
    requires
        outcomes(Phase::RemoveKey { accepted: true }) is Ok,
        outcomes(Phase::RemoveKey { accepted: false }) is Ok,
    ensures
        key_file_left(req, Phase::Connect, outcomes, false) ==> {
            &&& enters(req, Phase::Connect, outcomes, Phase::StoreKey)
            &&& outcomes(Phase::StoreKey) is Err
        },
{
    law_key_is_stored_if(req, outcomes);
    lemma_no_key_file_comes(req, Phase::TryPassword, outcomes);
    lemma_no_key_file_comes(req, Phase::Confirm, outcomes);
    reveal_with_fuel(key_file_left, 8);
}

/// The configuration that is written names the port of the request: it is the
/// same for two requests exactly if their ports are, whatever else they hold.
pub proof fn law_written_config_names_the_port(a: DeployRequest, b: DeployRequest)
    ensures
        action_of(a, Phase::WriteConfig) == action_of(b, Phase::WriteConfig) <==> a.port == b.port,
{
    let x = write_config_command(a.port);
    let y = write_config_command(b.port);
    let head = "cat << 'EOF' > /etc/os-watchdog/config.yaml\n"@;
    let intro = "server:\n  port: "@;
    let before = (head.len() + intro.len()) as int;
    let m = decimal(a.port as nat);
    let n = decimal(b.port as nat);
    if x == y {
        assert(m.len() == n.len()) by {
            assert(x.len() - m.len() == y.len() - n.len());
        }
        assert(x.subrange(before, before + m.len()) =~= m);
        assert(y.subrange(before, before + n.len()) =~= n);
        law_decimal_reads_back(a.port as u64);
        law_decimal_reads_back(b.port as u64);
    }
}

/// The name of the file that a private key is written to by the process with
/// this number.
pub open spec fn key_file_text(process: u32) -> Seq<char> {
    ".os_watchdog_key_"@ + decimal(process as nat)
}

/// The name of the key file ends in digits that read back as the number of the
/// process, so that two processes never share one.
pub proof fn law_key_file_is_the_processes_own(a: u32, b: u32)
    ensures
        key_file_text(a).len() > 17,
        key_file_text(a).take(17) == ".os_watchdog_key_"@,
        parsed_u64(key_file_text(a).skip(17)) == Some(a as u64),
        key_file_text(a) == key_file_text(b) <==> a == b,
{
    reveal_strlit(".os_watchdog_key_");
    law_decimal_reads_back(a as u64);
    law_decimal_reads_back(b as u64);
    law_decimal_is_digits(a as nat);
    assert(key_file_text(a).take(17) =~= ".os_watchdog_key_"@);
    assert(key_file_text(a).skip(17) =~= decimal(a as nat));
    assert(key_file_text(b).skip(17) =~= decimal(b as nat));
}

/// The name of the file that a private key is written to by the process with
/// this number.
pub fn key_file_name(process: u32) -> (r: String)
    ensures
        r@ == key_file_text(process),
{
    let number = format_u64(process as u64);
    join(".os_watchdog_key_", number.as_str())
}

/// Answers prompts for a password.
#[derive(Debug, Clone)]
pub struct PasswordPrompt {
    pub password: String,
}

impl PasswordPrompt {
    /// The answers to a number of prompts: the password to each.
    pub fn prompt(&self, prompts: usize) -> (r: Vec<String>)
        ensures
            texts(r@) == Seq::new(prompts as nat, |i: int| self.password@),
    {
        let mut r: Vec<String> = Vec::new();
        let mut i: usize = 0;
        while i < prompts
            invariant
                i <= prompts,
                texts(r@) == Seq::new(i as nat, |j: int| self.password@),
            decreases prompts - i,
        {
            let ghost before = r@;
            r.push(self.password.clone());
            i = i + 1;
            proof {
                assert(texts(r@) =~= texts(before).push(self.password@));
                assert(texts(r@) =~= Seq::new(i as nat, |j: int| self.password@));
            }
        }
        r
    }
}

/// The commands and answers of a deployment, word by word, and the modes of the
/// files it makes.
pub proof fn law_words_of_deployment()
    ensures
        PROGRAM_MODE == 493,
        KEY_MODE == 384,
        REMOTE_USER@ == "root"@,
        REMOTE_PROGRAM@ == "/usr/local/bin/os-watchdog"@,
        ADD_USER@ == "useradd -m -s /bin/bash os-watchdog"@,
        JOIN_ADMINS@ == "usermod -aG sudo os-watchdog || usermod -aG wheel os-watchdog"@,
        ALLOW_SUDO@ == "echo 'os-watchdog ALL=(ALL) NOPASSWD: ALL' > /etc/sudoers.d/os-watchdog"@,
        INSTALL_TOOLS@ == "
if command -v apt-get >/dev/null 2>&1; then
    apt-get update && apt-get install -y smartmontools
elif command -v yum >/dev/null 2>&1; then
    yum install -y smartmontools
elif command -v dnf >/dev/null 2>&1; then
    dnf install -y smartmontools
fi
"@,
        STOP_SERVICE@ == "systemctl stop os-watchdog"@,
        MAKE_CONFIG_DIR@ == "mkdir -p /etc/os-watchdog"@,
        OWN_CONFIG@ == "chown os-watchdog:os-watchdog /etc/os-watchdog/config.yaml"@,
        SERVICE_FILE@ == "
[Unit]
Description=OS Watchdog Agent
After=network.target

[Service]
Type=simple
User=os-watchdog
ExecStart=/usr/local/bin/os-watchdog --agent-only -c /etc/os-watchdog/config.yaml
Restart=on-failure
RestartSec=5

[Install]
WantedBy=multi-user.target
"@,
        RELOAD_SERVICES@ == "systemctl daemon-reload"@,
        ENABLE_SERVICE@ == "systemctl enable os-watchdog"@,
        START_SERVICE@ == "systemctl start os-watchdog"@,
        PASSWORD_REJECTED@ == "Authentication failed. Please ensure the password is correct, AND your server's /etc/ssh/sshd_config has 'PermitRootLogin yes' and 'PasswordAuthentication yes' (or KbdInteractive)."@,
        KEY_REJECTED@ == "Authentication failed using private key. Please check the key format and SSH server settings."@,
        NO_CREDENTIALS@ == "No password or private key provided"@,
        NOT_AUTHENTICATED@ == "Authentication failed"@,
        DEPLOYED@ == "Agent deployed and started successfully."@,
{
}

/// The model of an answer has all that the answer has.
pub proof fn law_response_view(response: DeployResponse)
    ensures
        response@.success == response.success,
        response@.message == response.message@,
{
}

/// The model of an action is the action, with its texts.
pub proof fn law_action_view(text: String, mode: u32, permissions: i32)
    ensures
        Action::Connect(text)@ == ActionView::Connect(text@),
        Action::OpenSession@ == ActionView::OpenSession,
        Action::Handshake@ == ActionView::Handshake,
        Action::Password(text)@ == ActionView::Password(text@),
        Action::Prompts(text)@ == ActionView::Prompts(text@),
        (Action::StoreKey { key: text, mode })@ == (ActionView::StoreKey { key: text@, mode }),
        Action::TryKey@ == ActionView::TryKey,
        Action::RemoveKey@ == ActionView::RemoveKey,
        Action::Confirm@ == ActionView::Confirm,
        Action::Run(text)@ == ActionView::Run(text@),
        Action::LocateProgram@ == ActionView::LocateProgram,
        (Action::CopyProgram { to: text, mode: permissions })@ == (ActionView::CopyProgram {
            to: text@,
            mode: permissions,
        }),
{
}

/// The model of a step is the step, with its answer.
pub proof fn law_progress_view(phase: Phase, response: DeployResponse)
    ensures
        Progress::Continue(phase)@ == ProgressView::Continue(phase),
        Progress::Finished(response)@ == ProgressView::Finished(response@),
{
}

/// The model of an outcome is good exactly if the outcome is, and has its reason.
pub proof fn law_outcome_view(outcome: Result<(), String>)
    ensures
        outcome_view(outcome) is Ok <==> outcome is Ok,
        outcome matches Err(reason) ==> outcome_view(outcome) == Err::<(), Seq<char>>(reason@),
{
}

/// The address that is connected to is the one of the request, a colon, and
/// digits that read back as its SSH port. Two requests for one machine connect
/// alike exactly if their SSH ports are the same.
pub proof fn law_connects_to_address_and_port(a: DeployRequest, b: DeployRequest)
    ensures
        action_of(a, Phase::Connect) matches ActionView::Connect(to) && {
            let split = a.ip@.len() as int;
            &&& split < to.len()
            &&& to.take(split) == a.ip@
            &&& to[split] == ':'
            &&& to.skip(split + 1) == decimal(a.ssh_port as nat)
            &&& parsed_u64(to.skip(split + 1)) == Some(a.ssh_port as u64)
        },
        a.ip@ == b.ip@ ==> (action_of(a, Phase::Connect) == action_of(b, Phase::Connect)
            <==> a.ssh_port == b.ssh_port),
{
    reveal_strlit(":");
    lemma_address_parts(a);
    lemma_address_parts(b);
}

proof fn lemma_address_parts(req: DeployRequest)
    ensures
        ({
            let to = address(req);
            let split = req.ip@.len() as int;
            &&& split < to.len()
            &&& to.take(split) == req.ip@
            &&& to[split] == ':'
            &&& to.skip(split + 1) == decimal(req.ssh_port as nat)
            &&& parsed_u64(to.skip(split + 1)) == Some(req.ssh_port as u64)
        }),
{
    reveal_strlit(":");
    let to = address(req);
    let split = req.ip@.len() as int;
    assert(to.take(split) =~= req.ip@);
    assert(to.skip(split + 1) =~= decimal(req.ssh_port as nat));
    law_decimal_reads_back(req.ssh_port as u64);
}

/// The password and the private key that are tried are those of the request.
pub proof fn law_credentials_are_the_requests(req: DeployRequest)
    ensures
        req.password matches Some(password) ==> {
            &&& action_of(req, Phase::TryPassword) == ActionView::Password(password@)
            &&& action_of(req, Phase::TryPrompts) == ActionView::Prompts(password@)
        },
        req.private_key matches Some(key) ==> action_of(req, Phase::StoreKey) == (
        ActionView::StoreKey { key: key@, mode: 384 }),
{
}

/// Each phase has its own action, whatever the request holds.
pub proof fn law_actions_of_phases(req: DeployRequest, accepted: bool)
    ensures
        action_of(req, Phase::OpenSession) == ActionView::OpenSession,
        action_of(req, Phase::Handshake) == ActionView::Handshake,
        action_of(req, Phase::TryKey) == ActionView::TryKey,
        action_of(req, Phase::RemoveKey { accepted }) == ActionView::RemoveKey,
        action_of(req, Phase::Confirm) == ActionView::Confirm,
        action_of(req, Phase::AddUser) == ActionView::Run(ADD_USER@),
        action_of(req, Phase::JoinAdmins) == ActionView::Run(JOIN_ADMINS@),
        action_of(req, Phase::AllowSudo) == ActionView::Run(ALLOW_SUDO@),
        action_of(req, Phase::InstallTools) == ActionView::Run(INSTALL_TOOLS@),
        action_of(req, Phase::LocateProgram) == ActionView::LocateProgram,
        action_of(req, Phase::StopService) == ActionView::Run(STOP_SERVICE@),
        action_of(req, Phase::CopyProgram) == (ActionView::CopyProgram {
            to: "/usr/local/bin/os-watchdog"@,
            mode: 493,
        }),
        action_of(req, Phase::MakeConfigDir) == ActionView::Run(MAKE_CONFIG_DIR@),
        action_of(req, Phase::OwnConfig) == ActionView::Run(OWN_CONFIG@),
        action_of(req, Phase::WriteService) == ActionView::Run(
            "cat << 'EOF' > /etc/systemd/system/os-watchdog.service\n"@ + (SERVICE_FILE@
                + "\nEOF\n"@),
        ),
        action_of(req, Phase::ReloadServices) == ActionView::Run(RELOAD_SERVICES@),
        action_of(req, Phase::EnableService) == ActionView::Run(ENABLE_SERVICE@),
        action_of(req, Phase::StartService) == ActionView::Run(START_SERVICE@),
{
    assert(write_service_command() =~= "cat << 'EOF' > /etc/systemd/system/os-watchdog.service\n"@
        + (SERVICE_FILE@ + "\nEOF\n"@));
}

/// The configuration that is written is, between the words that write it, a
/// server whose port is digits that read back as the port of the request, and no
/// nodes.
pub proof fn law_written_config_holds_the_port(req: DeployRequest)
    ensures
        exists|digits: Seq<char>|
            parsed_u64(digits) == Some(req.port as u64) && digits[0] != '+' && action_of(
                req,
                Phase::WriteConfig,
            ) == ActionView::Run(
                "cat << 'EOF' > /etc/os-watchdog/config.yaml\n"@ + ("server:\n  port: "@ + (
                #[trigger] (digits + "\nnodes: []\n"@)) + "\nEOF\n"@),
            ),
{
    let digits = decimal(req.port as nat);
    law_decimal_reads_back(req.port as u64);
    law_decimal_is_digits(req.port as nat);
    assert(write_config_command(req.port) =~= "cat << 'EOF' > /etc/os-watchdog/config.yaml\n"@ + (
    "server:\n  port: "@ + (digits + "\nnodes: []\n"@) + "\nEOF\n"@));
}

/// A deployment goes from phase to phase in this order as long as all goes well:
/// with the password if there is one, in answer to prompts if it was not taken,
/// and with the private key otherwise.
pub proof fn law_order_of_deployment(req: DeployRequest, accepted: bool)
    ensures
        ({
            let good = Ok::<(), Seq<char>>(());
            &&& next_of(req, Phase::Connect, good) == ProgressView::Continue(Phase::OpenSession)
            &&& next_of(req, Phase::OpenSession, good) == ProgressView::Continue(Phase::Handshake)
            &&& req.password is Some ==> next_of(req, Phase::Handshake, good)
                == ProgressView::Continue(Phase::TryPassword)
            &&& req.password is None && req.private_key is Some ==> next_of(
                req,
                Phase::Handshake,
                good,
            ) == ProgressView::Continue(Phase::StoreKey)
            &&& next_of(req, Phase::TryPassword, good) == ProgressView::Continue(Phase::Confirm)
            &&& next_of(req, Phase::TryPrompts, good) == ProgressView::Continue(Phase::Confirm)
            &&& next_of(req, Phase::StoreKey, good) == ProgressView::Continue(Phase::TryKey)
            &&& next_of(req, Phase::TryKey, good) == ProgressView::Continue(
                Phase::RemoveKey { accepted: true },
            )
            &&& next_of(req, Phase::RemoveKey { accepted: true }, good) == ProgressView::Continue(
                Phase::Confirm,
            )
            &&& next_of(req, Phase::Confirm, good) == ProgressView::Continue(Phase::AddUser)
            &&& next_of(req, Phase::InstallTools, good) == ProgressView::Continue(
                Phase::LocateProgram,
            )
            &&& next_of(req, Phase::LocateProgram, good) == ProgressView::Continue(
                Phase::StopService,
            )
            &&& next_of(req, Phase::CopyProgram, good) == ProgressView::Continue(
                Phase::MakeConfigDir,
            )
        }),
{
}

/// The commands that may fail lead on however they went, and after the last one
/// the deployment has succeeded.
pub proof fn law_commands_that_may_fail(req: DeployRequest, outcome: Result<(), Seq<char>>)
    ensures
        next_of(req, Phase::AddUser, outcome) == ProgressView::Continue(Phase::JoinAdmins),
        next_of(req, Phase::JoinAdmins, outcome) == ProgressView::Continue(Phase::AllowSudo),
        next_of(req, Phase::AllowSudo, outcome) == ProgressView::Continue(Phase::InstallTools),
        next_of(req, Phase::StopService, outcome) == ProgressView::Continue(Phase::CopyProgram),
        next_of(req, Phase::MakeConfigDir, outcome) == ProgressView::Continue(Phase::WriteConfig),
        next_of(req, Phase::WriteConfig, outcome) == ProgressView::Continue(Phase::OwnConfig),
        next_of(req, Phase::OwnConfig, outcome) == ProgressView::Continue(Phase::WriteService),
        next_of(req, Phase::WriteService, outcome) == ProgressView::Continue(Phase::ReloadServices),
        next_of(req, Phase::ReloadServices, outcome) == ProgressView::Continue(
            Phase::EnableService,
        ),
        next_of(req, Phase::EnableService, outcome) == ProgressView::Continue(Phase::StartService),
        next_of(req, Phase::StartService, outcome) matches ProgressView::Finished(answer)
            && answer.success && answer.message == DEPLOYED@,
{
}

/// The step ends the deployment without success and with this message.
pub open spec fn ends_with(step: ProgressView, message: Seq<char>) -> bool {
    step matches ProgressView::Finished(answer) && !answer.success && answer.message == message
}

/// A failure that ends a deployment is answered with what failed and, where there
/// is one, the reason; a password that was not taken is tried once more, and a
/// key that was not taken is removed first.
pub proof fn law_failures_are_answered(req: DeployRequest, reason: Seq<char>, any: Result<(), Seq<char>>)
    ensures
        ({
            let bad = Err::<(), Seq<char>>(reason);
            let good = Ok::<(), Seq<char>>(());
            &&& ends_with(next_of(req, Phase::Connect, bad), "Failed to connect: "@ + reason)
            &&& ends_with(
                next_of(req, Phase::OpenSession, bad),
                "Failed to create SSH session: "@ + reason,
            )
            &&& ends_with(next_of(req, Phase::Handshake, bad), "SSH handshake failed: "@ + reason)
            &&& req.password is None && req.private_key is None ==> ends_with(
                next_of(req, Phase::Handshake, good),
                "No password or private key provided"@,
            )
            &&& next_of(req, Phase::TryPassword, bad) == ProgressView::Continue(Phase::TryPrompts)
            &&& ends_with(next_of(req, Phase::TryPrompts, bad), PASSWORD_REJECTED@)
            &&& ends_with(
                next_of(req, Phase::StoreKey, bad),
                "Failed to write temp key: "@ + reason,
            )
            &&& next_of(req, Phase::TryKey, bad) == ProgressView::Continue(
                Phase::RemoveKey { accepted: false },
            )
            &&& ends_with(
                next_of(req, Phase::RemoveKey { accepted: false }, any),
                KEY_REJECTED@,
            )
            &&& next_of(req, Phase::RemoveKey { accepted: true }, any) == ProgressView::Continue(
                Phase::Confirm,
            )
            &&& ends_with(next_of(req, Phase::Confirm, bad), "Authentication failed"@)
            &&& ends_with(next_of(req, Phase::InstallTools, bad), "Env setup failed: "@ + reason)
            &&& ends_with(
                next_of(req, Phase::LocateProgram, bad),
                "Could not find current exe: "@ + reason,
            )
            &&& ends_with(next_of(req, Phase::CopyProgram, bad), "SCP failed: "@ + reason)
        }),
{
}

} // verus!
