//! The background service: what each operation on it does, the `systemctl`
//! command lines it runs, and the files it writes.
use vstd::prelude::*;

use crate::text::{push_all, string_from, trim, trim_text};

verus! {

/// The user unit that runs the client.
pub const SERVICE_UNIT: &'static str = "noip-duc.service";

/// An operation on the background service.
#[derive(Clone, Copy, Debug, PartialEq, Eq, Structural)]
pub enum Op {
    Install,
    Uninstall,
    Start,
    Stop,
    Enable,
    Disable,
    UpdateConfig,
}

impl Op {
    /// What the interface shows while the operation runs.
    pub open spec fn label_text(self) -> Seq<char> {
        match self {
            Op::Install => "Installing service\u{2026}"@,
            Op::Uninstall => "Removing service\u{2026}"@,
            Op::Start => "Starting service\u{2026}"@,
            Op::Stop => "Stopping service\u{2026}"@,
            Op::Enable => "Enabling autostart\u{2026}"@,
            Op::Disable => "Disabling autostart\u{2026}"@,
            Op::UpdateConfig => "Updating service config\u{2026}"@,
        }
    }

    /// What the interface shows while the operation runs.
    pub fn label(self) -> (s: &'static str)
        ensures
            s@ == self.label_text(),
    {
        match self {
            Op::Install => "Installing service\u{2026}",
            Op::Uninstall => "Removing service\u{2026}",
            Op::Start => "Starting service\u{2026}",
            Op::Stop => "Stopping service\u{2026}",
            Op::Enable => "Enabling autostart\u{2026}",
            Op::Disable => "Disabling autostart\u{2026}",
            Op::UpdateConfig => "Updating service config\u{2026}",
        }
    }
}

/// The outcome of an operation.
#[derive(Debug)]
pub struct OpResult {
    pub op: Op,
    pub result: Result<(), String>,
}

/// What an operation may need; the operations that need none ignore it.
#[derive(Default, Clone)]
pub struct OpArgs {
    pub username: String,
    pub password: String,
    pub hostnames: String,
}

/// The work an operation stands for.
pub enum ServiceTask {
    /// Write the environment and unit files, then reload the user manager.
    Install { username: String, password: String, hostnames: String },
    Uninstall,
    Start,
    Stop,
    Enable,
    Disable,
}

/// The work of an operation: installing and updating the configuration both
/// (re)write the service with the given credentials and hostnames.
pub fn service_task(op: Op, args: OpArgs) -> (t: ServiceTask)
    ensures
        match op {
            Op::Install | Op::UpdateConfig => t matches ServiceTask::Install {
                username,
                password,
                hostnames,
            } && username == args.username && password == args.password && hostnames
                == args.hostnames,
            Op::Uninstall => t matches ServiceTask::Uninstall,
            Op::Start => t matches ServiceTask::Start,
            Op::Stop => t matches ServiceTask::Stop,
            Op::Enable => t matches ServiceTask::Enable,
            Op::Disable => t matches ServiceTask::Disable,
        },
{
    match op {
        Op::Install | Op::UpdateConfig => {
            let OpArgs { username, password, hostnames } = args;
            ServiceTask::Install { username, password, hostnames }
        },
        Op::Uninstall => ServiceTask::Uninstall,
        Op::Start => ServiceTask::Start,
        Op::Stop => ServiceTask::Stop,
        Op::Enable => ServiceTask::Enable,
        Op::Disable => ServiceTask::Disable,
    }
}

/// The arguments of `systemctl --user <verb> noip-duc.service`.
pub open spec fn unit_command(verb: Seq<char>) -> Seq<Seq<char>> {
    seq!["--user"@, verb, SERVICE_UNIT@]
}

fn unit_args(verb: &str) -> (args: Vec<String>)
    ensures
        args@.map_values(|s: String| s@) == unit_command(verb@),
{
    let mut args: Vec<String> = Vec::new();
    args.push(string_from("--user"));
    args.push(string_from(verb));
    args.push(string_from(SERVICE_UNIT));
    assert(args@.map_values(|s: String| s@) =~= unit_command(verb@));
    args
}

/// The `systemctl` arguments that start the service.
pub fn svc_start() -> (args: Vec<String>)
    ensures
        args@.map_values(|s: String| s@) == unit_command("start"@),
{
    unit_args("start")
}

/// The `systemctl` arguments that stop the service.
pub fn svc_stop() -> (args: Vec<String>)
    ensures
        args@.map_values(|s: String| s@) == unit_command("stop"@),
{
    unit_args("stop")
}

/// The `systemctl` arguments that start the service at login.
pub fn svc_enable() -> (args: Vec<String>)
    ensures
        args@.map_values(|s: String| s@) == unit_command("enable"@),
{
    unit_args("enable")
}

/// The `systemctl` arguments that no longer start the service at login.
pub fn svc_disable() -> (args: Vec<String>)
    ensures
        args@.map_values(|s: String| s@) == unit_command("disable"@),
{
    unit_args("disable")
}

/// The `systemctl` arguments that make the user manager reread its units.
pub fn daemon_reload() -> (args: Vec<String>)
    ensures
        args@.map_values(|s: String| s@) == seq!["--user"@, "daemon-reload"@],
{
    let mut args: Vec<String> = Vec::new();
    args.push(string_from("--user"));
    args.push(string_from("daemon-reload"));
    assert(args@.map_values(|s: String| s@) =~= seq!["--user"@, "daemon-reload"@]);
    args
}

/// The outcome of a `systemctl` run: success, or its error output trimmed.
pub fn systemctl_outcome(success: bool, stderr: &str) -> (r: Result<(), String>)
    ensures
        success ==> r is Ok,
        !success ==> (r matches Err(m) && m@ == trim(stderr@)),
{
    if success {
        Ok(())
    } else {
        Err(trim_text(stderr))
    }
}

/// The environment file of the service: the credentials and hostnames the
/// client reads at start.
pub open spec fn env_file_text(
    username: Seq<char>,
    password: Seq<char>,
    hostnames: Seq<char>,
) -> Seq<char> {
    "NOIP_USERNAME="@ + username + "\nNOIP_PASSWORD="@ + password + "\nNOIP_HOSTNAMES="@
        + hostnames + "\n"@
}

/// The environment file of the service.
pub fn service_env_content(username: &str, password: &str, hostnames: &str) -> (s: String)
    ensures
        s@ == env_file_text(username@, password@, hostnames@),
{
    let mut s = string_from("NOIP_USERNAME=");
    push_all(&mut s, username);
    push_all(&mut s, "\nNOIP_PASSWORD=");
    push_all(&mut s, password);
    push_all(&mut s, "\nNOIP_HOSTNAMES=");
    push_all(&mut s, hostnames);
    push_all(&mut s, "\n");
    s
}

/// The unit file up to the path of the environment file.
pub const UNIT_HEAD: &'static str = "[Unit]\nDescription=No-IP Dynamic DNS Update Client\nAfter=network-online.target\nWants=network-online.target\n\n[Service]\nType=simple\nEnvironmentFile=";

/// The unit file between the environment file and the program.
pub const UNIT_MIDDLE: &'static str = "\nExecStart=";

/// The unit file after the program: restarts, sandboxing and limits.
pub const UNIT_TAIL: &'static str = "\nRestart=on-failure\nRestartSec=30\n\n# Hardening\nNoNewPrivileges=true\nProtectSystem=strict\nProtectHome=read-only\nProtectKernelTunables=true\nProtectKernelModules=true\nProtectKernelLogs=true\nProtectControlGroups=true\nProtectClock=true\nProtectHostname=true\nPrivateTmp=true\nPrivateDevices=true\nLockPersonality=true\nRestrictAddressFamilies=AF_INET AF_INET6\nRestrictNamespaces=true\nRestrictRealtime=true\nRestrictSUIDSGID=true\nMemoryDenyWriteExecute=true\nSystemCallArchitectures=native\nSystemCallFilter=@system-service\nSystemCallFilter=~@privileged @resources\nUMask=0077\nMemoryMax=64M\nTasksMax=16\nCPUQuota=10%%\n\n[Install]\nWantedBy=default.target\n";

/// The user unit that runs `program` with the variables of `env_file`.
pub open spec fn unit_file_text(env_file: Seq<char>, program: Seq<char>) -> Seq<char> {
    UNIT_HEAD@ + env_file + UNIT_MIDDLE@ + program + UNIT_TAIL@
}

/// The user unit that runs `program` with the variables of `env_file`.
pub fn service_unit_content(env_file: &str, program: &str) -> (s: String)
    ensures
        s@ == unit_file_text(env_file@, program@),
{
    let mut s = string_from(UNIT_HEAD);
    push_all(&mut s, env_file);
    push_all(&mut s, UNIT_MIDDLE);
    push_all(&mut s, program);
    push_all(&mut s, UNIT_TAIL);
    s
}

} // verus!
