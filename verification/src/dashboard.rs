//! The decisions of the desktop client's window: which screen it shows, what
//! each button and each message from the background work does to its state,
//! and what outside work (saving, the credential store, the updater, the
//! background service) it asks for in turn.
use vstd::prelude::*;

use crate::cli::humantime_duration;
use crate::config::{has_host, host_value, remembered, selected_names, AppConfig};
use crate::hosts_api::FetchResult;
use crate::secrets::Slot;
use crate::service::{Op, OpArgs, OpResult};
use crate::text::{decimal, decimal_u64, join_strings, join_with, push_all, string_from, trim, trim_text};
use crate::update::Interval;

verus! {

/// The screen the window shows.
#[derive(Clone, Copy, Debug, PartialEq, Eq, Structural)]
pub enum Screen {
    Login,
    Fetching,
    Dashboard,
}

/// A line of the activity log is a success.
pub const LOG_OK: u8 = 0;

/// A line of the activity log is a failure.
pub const LOG_FAILED: u8 = 2;

/// Outside work the window asks for, in the order it must be done.
pub enum Effect {
    /// Switch the window's colours to dark (`true`) or light.
    ApplyTheme(bool),
    /// Write the settings file.
    SaveConfig,
    /// Keep a secret of this account in the credential store.
    StoreSecret(String, Slot, String),
    /// Drop a secret of this account from the credential store.
    DeleteSecret(String, Slot),
    /// Look up the public address in the background.
    DetectIp,
    /// List the account's hostnames with this API key in the background.
    FetchHosts(String),
    /// Tell the running updater to quit, and close the channel to it.
    QuitUpdater,
    /// Stop listening to the updater's notifications.
    StopListening,
    /// Run an updater for this account and these hostnames, with fresh
    /// channels for its control and its notifications.
    StartUpdater(String, String, Vec<String>),
    /// Tell the updater to check at once.
    UpdateNow,
    /// Run an operation on the background service.
    RunServiceOp(Op, OpArgs),
    /// Read the background service's state again.
    RefreshService,
    /// Add a line, stamped with the local time, to the activity log.
    Log(u8, String),
}

/// What an effect asks for, as plain values.
pub enum EffectView {
    ApplyTheme(bool),
    SaveConfig,
    StoreSecret(Seq<char>, Slot, Seq<char>),
    DeleteSecret(Seq<char>, Slot),
    DetectIp,
    FetchHosts(Seq<char>),
    QuitUpdater,
    StopListening,
    StartUpdater(Seq<char>, Seq<char>, Seq<Seq<char>>),
    UpdateNow,
    RunServiceOp(Op, Seq<char>, Seq<char>, Seq<char>),
    RefreshService,
    Log(u8, Seq<char>),
}

impl View for Effect {
    type V = EffectView;

    open spec fn view(&self) -> EffectView {
        match self {
            Effect::ApplyTheme(dark) => EffectView::ApplyTheme(*dark),
            Effect::SaveConfig => EffectView::SaveConfig,
            Effect::StoreSecret(account, slot, value) => EffectView::StoreSecret(
                account@,
                *slot,
                value@,
            ),
            Effect::DeleteSecret(account, slot) => EffectView::DeleteSecret(account@, *slot),
            Effect::DetectIp => EffectView::DetectIp,
            Effect::FetchHosts(key) => EffectView::FetchHosts(key@),
            Effect::QuitUpdater => EffectView::QuitUpdater,
            Effect::StopListening => EffectView::StopListening,
            Effect::StartUpdater(user, pass, hosts) => EffectView::StartUpdater(
                user@,
                pass@,
                hosts@.map_values(|h: String| h@),
            ),
            Effect::UpdateNow => EffectView::UpdateNow,
            Effect::RunServiceOp(op, args) => EffectView::RunServiceOp(
                *op,
                args.username@,
                args.password@,
                args.hostnames@,
            ),
            Effect::RefreshService => EffectView::RefreshService,
            Effect::Log(level, msg) => EffectView::Log(*level, msg@),
        }
    }
}

/// The plain values of a list of effects.
pub open spec fn views(effects: Seq<Effect>) -> Seq<EffectView> {
    effects.map_values(|e: Effect| e@)
}

/// Everything the window keeps but the hostnames, as plain values.
pub struct Panel {
    pub screen: Screen,
    pub username: Seq<char>,
    pub password: Seq<char>,
    pub api_key: Seq<char>,
    pub save_password: bool,
    pub dark_mode: bool,
    pub legacy_password: Seq<char>,
    pub legacy_api_key: Seq<char>,
    pub pw_input: Seq<char>,
    pub api_key_input: Seq<char>,
    pub login_err: Seq<char>,
    pub show_api_key: bool,
    pub save_pw_checked: bool,
    pub running: bool,
    pub linked: bool,
    pub ip: Seq<char>,
    pub status_text: Seq<char>,
    pub next_check: Option<Seq<char>>,
    pub host_input: Seq<char>,
    pub svc_installed: bool,
    pub svc_running: bool,
    pub svc_enabled: bool,
    pub svc_msg: Seq<char>,
    pub svc_op_in_flight: Option<Op>,
}

/// The state of the window.
pub struct DucState {
    /// The settings, with the secrets in use.
    pub cfg: AppConfig,
    pub screen: Screen,
    /// What the password field holds.
    pub pw_input: String,
    /// What the API key field holds.
    pub api_key_input: String,
    /// Why the last sign-in failed, shown under the form.
    pub login_err: String,
    /// Whether the API key field is open.
    pub show_api_key: bool,
    /// Whether "Remember password" is ticked.
    pub save_pw_checked: bool,
    /// Whether the in-app updater runs.
    pub running: bool,
    /// Whether a control channel to an updater is open.
    pub linked: bool,
    /// The public address, as last seen.
    pub ip: String,
    /// The updater's last news.
    pub status_text: String,
    /// When the updater checks next.
    pub next_check: Option<String>,
    /// What the new-hostname field holds.
    pub host_input: String,
    pub svc_installed: bool,
    pub svc_running: bool,
    pub svc_enabled: bool,
    /// Why the last operation on the background service failed.
    pub svc_msg: String,
    /// The operation on the background service under way.
    pub svc_op_in_flight: Option<Op>,
}

/// The text an optional string holds.
pub open spec fn opt_view(o: Option<String>) -> Option<Seq<char>> {
    match o {
        Some(s) => Some(s@),
        None => None,
    }
}

impl View for DucState {
    type V = Panel;

    open spec fn view(&self) -> Panel {
        Panel {
            screen: self.screen,
            username: self.cfg.username@,
            password: self.cfg.password@,
            api_key: self.cfg.api_key@,
            save_password: self.cfg.save_password,
            dark_mode: self.cfg.dark_mode,
            legacy_password: self.cfg.legacy_password@,
            legacy_api_key: self.cfg.legacy_api_key@,
            pw_input: self.pw_input@,
            api_key_input: self.api_key_input@,
            login_err: self.login_err@,
            show_api_key: self.show_api_key,
            save_pw_checked: self.save_pw_checked,
            running: self.running,
            linked: self.linked,
            ip: self.ip@,
            status_text: self.status_text@,
            next_check: opt_view(self.next_check),
            host_input: self.host_input@,
            svc_installed: self.svc_installed,
            svc_running: self.svc_running,
            svc_enabled: self.svc_enabled,
            svc_msg: self.svc_msg@,
            svc_op_in_flight: self.svc_op_in_flight,
        }
    }
}

/// The window after the updater stops.
pub open spec fn stopped(p: Panel) -> Panel {
    Panel { running: false, linked: false, status_text: "Idle"@, next_check: None, ..p }
}

/// What stopping the updater asks for.
pub open spec fn stop_effects(p: Panel) -> Seq<EffectView> {
    (if p.linked {
        seq![EffectView::QuitUpdater]
    } else {
        Seq::empty()
    }) + seq![EffectView::StopListening, EffectView::Log(LOG_OK, "Updater stopped"@)]
}

/// The message logged when the updater starts for `n` hostnames.
pub open spec fn started_message(n: nat) -> Seq<char> {
    "Updater started \u{2014} "@ + decimal(n) + " host(s)"@
}

/// The window after the Start button, with these hostnames: nothing happens
/// when none is selected.
pub open spec fn started(p: Panel, hosts: Seq<(Seq<char>, bool)>) -> Panel {
    if selected_names(hosts).len() == 0 {
        p
    } else {
        Panel { running: true, linked: true, status_text: "Running"@, ..p }
    }
}

/// What the Start button asks for: an updater already linked is told to
/// quit before a new one runs for the selected hostnames.
pub open spec fn start_effects(p: Panel, hosts: Seq<(Seq<char>, bool)>) -> Seq<EffectView> {
    let sel = selected_names(hosts);
    if sel.len() == 0 {
        Seq::empty()
    } else {
        (if p.linked {
            seq![EffectView::QuitUpdater]
        } else {
            Seq::empty()
        }) + seq![
            EffectView::StartUpdater(p.username, p.password, sel),
            EffectView::Log(LOG_OK, started_message(sel.len())),
        ]
    }
}

/// The credential-store writes that keep the secrets of `username`.
pub open spec fn remember_effects(username: Seq<char>, password: Seq<char>, api_key: Seq<char>) -> Seq<EffectView> {
    if username.len() == 0 {
        Seq::empty()
    } else {
        remembered(password, api_key).map_values(
            |x: (Slot, Seq<char>)| EffectView::StoreSecret(username, x.0, x.1),
        )
    }
}

/// The credential-store deletions that forget the secrets of `username`.
pub open spec fn forget_effects(username: Seq<char>) -> Seq<EffectView> {
    if username.len() == 0 {
        Seq::empty()
    } else {
        seq![
            EffectView::DeleteSecret(username, Slot::Password),
            EffectView::DeleteSecret(username, Slot::ApiKey),
        ]
    }
}

/// The Sign In button does something: there is a username besides blanks,
/// and a password.
pub open spec fn can_sign_in_spec(p: Panel) -> bool {
    trim(p.username).len() > 0 && p.pw_input.len() > 0
}

/// The window after signing in: the form becomes the account, and the
/// hostnames are listed first when an API key was given.
pub open spec fn signed_in(p: Panel) -> Panel {
    Panel {
        username: trim(p.username),
        password: p.pw_input,
        api_key: p.api_key_input,
        save_password: p.save_pw_checked,
        screen: if p.api_key_input.len() > 0 {
            Screen::Fetching
        } else {
            Screen::Dashboard
        },
        ..p
    }
}

/// What signing in asks for: remember or forget the secrets as the box
/// says, save, list the hostnames when an API key was given, and look up
/// the public address.
pub open spec fn sign_in_effects(p: Panel) -> Seq<EffectView> {
    let u = trim(p.username);
    (if p.save_pw_checked {
        remember_effects(u, p.pw_input, p.api_key_input)
    } else {
        forget_effects(u)
    }) + seq![EffectView::SaveConfig] + (if p.api_key_input.len() > 0 {
        seq![EffectView::FetchHosts(p.api_key_input)]
    } else {
        Seq::empty()
    }) + seq![EffectView::DetectIp]
}

/// The window after signing out: the updater stops and the account, its
/// secrets and the form are cleared.
pub open spec fn signed_out(p: Panel) -> Panel {
    Panel {
        username: Seq::empty(),
        password: Seq::empty(),
        api_key: Seq::empty(),
        pw_input: Seq::empty(),
        api_key_input: Seq::empty(),
        save_password: false,
        save_pw_checked: false,
        screen: Screen::Login,
        ..stopped(p)
    }
}

/// What signing out asks for: stop the updater, forget the secrets, save.
pub open spec fn sign_out_effects(p: Panel) -> Seq<EffectView> {
    stop_effects(p) + forget_effects(p.username) + seq![EffectView::SaveConfig]
}

/// The window as it opens on these settings: a signed-in account goes
/// straight to the dashboard, with an updater for the selected hostnames.
pub open spec fn opened(cfg: AppConfig) -> Panel {
    let logged_in = cfg.username@.len() > 0 && cfg.password@.len() > 0;
    if logged_in {
        started(opened_before_start(cfg), cfg.hosts@)
    } else {
        opened_before_start(cfg)
    }
}

/// What opening the window asks for: its colours; for a signed-in account
/// the public address and an updater for the selected hostnames; the
/// background service's state.
pub open spec fn open_effects(cfg: AppConfig) -> Seq<EffectView> {
    let logged_in = cfg.username@.len() > 0 && cfg.password@.len() > 0;
    seq![EffectView::ApplyTheme(cfg.dark_mode)] + (if logged_in {
        seq![EffectView::DetectIp] + start_effects(opened_before_start(cfg), cfg.hosts@)
    } else {
        Seq::empty()
    }) + seq![EffectView::RefreshService]
}

/// The window as it opens, before the updater starts.
pub open spec fn opened_before_start(cfg: AppConfig) -> Panel {
    let logged_in = cfg.username@.len() > 0 && cfg.password@.len() > 0;
    Panel {
        screen: if logged_in {
            Screen::Dashboard
        } else {
            Screen::Login
        },
        username: cfg.username@,
        password: cfg.password@,
        api_key: cfg.api_key@,
        save_password: cfg.save_password,
        dark_mode: cfg.dark_mode,
        legacy_password: cfg.legacy_password@,
        legacy_api_key: cfg.legacy_api_key@,
        pw_input: cfg.password@,
        api_key_input: cfg.api_key@,
        login_err: Seq::empty(),
        show_api_key: false,
        save_pw_checked: cfg.save_password,
        running: false,
        linked: false,
        ip: "Detecting\u{2026}"@,
        status_text: "Idle"@,
        next_check: None,
        host_input: Seq::empty(),
        svc_installed: false,
        svc_running: false,
        svc_enabled: false,
        svc_msg: Seq::empty(),
        svc_op_in_flight: None,
    }
}

/// The window after a change to the hostnames: an updater that runs
/// restarts on the new selection.
pub open spec fn after_hosts_changed(p: Panel, hosts: Seq<(Seq<char>, bool)>) -> Panel {
    if p.running {
        started(stopped(p), hosts)
    } else {
        p
    }
}

/// What a change to the hostnames asks for: save, and restart an updater
/// that runs.
pub open spec fn hosts_changed_effects(p: Panel, hosts: Seq<(Seq<char>, bool)>) -> Seq<EffectView> {
    seq![EffectView::SaveConfig] + if p.running {
        stop_effects(p) + start_effects(stopped(p), hosts)
    } else {
        Seq::empty()
    }
}

/// The message shown when the background service is started while the
/// in-app updater runs.
pub const RACE_MESSAGE: &'static str =
    "Stop the in-app updater before starting the background service.";

/// The service buttons the window offers, in the order it shows them.
pub open spec fn offered(p: Panel, hosts: Seq<(Seq<char>, bool)>) -> Seq<Op> {
    if !p.svc_installed {
        if selected_names(hosts).len() == 0 {
            Seq::empty()
        } else {
            seq![Op::Install]
        }
    } else {
        seq![
            if p.svc_running {
                Op::Stop
            } else {
                Op::Start
            },
            if p.svc_enabled {
                Op::Disable
            } else {
                Op::Enable
            },
            Op::UpdateConfig,
            Op::Uninstall,
        ]
    }
}

/// Whether the window offers a button for `op`.
pub open spec fn is_offered(p: Panel, hosts: Seq<(Seq<char>, bool)>, op: Op) -> bool {
    if !p.svc_installed {
        op == Op::Install && selected_names(hosts).len() > 0
    } else {
        match op {
            Op::Install => false,
            Op::Start => !p.svc_running,
            Op::Stop => p.svc_running,
            Op::Enable => !p.svc_enabled,
            Op::Disable => p.svc_enabled,
            Op::UpdateConfig | Op::Uninstall => true,
        }
    }
}

/// What an operation on the service is handed: installing and updating the
/// configuration take the account and the selected hostnames, joined by
/// commas; the others take nothing.
pub open spec fn op_request(p: Panel, hosts: Seq<(Seq<char>, bool)>, op: Op) -> EffectView {
    if op == Op::Install || op == Op::UpdateConfig {
        EffectView::RunServiceOp(op, p.username, p.password, join_with(selected_names(hosts), ","@))
    } else {
        EffectView::RunServiceOp(op, Seq::empty(), Seq::empty(), Seq::empty())
    }
}

/// What the log says when an operation on the service went through.
pub open spec fn done_text(op: Op) -> Seq<char> {
    match op {
        Op::Install => "Service installed"@,
        Op::Uninstall => "Service removed"@,
        Op::Start => "Service started"@,
        Op::Stop => "Service stopped"@,
        Op::Enable => "Autostart enabled"@,
        Op::Disable => "Autostart disabled"@,
        Op::UpdateConfig => "Service config updated"@,
    }
}

/// What the log says when an operation on the service ended.
pub open spec fn done_line(op: Op, result: Result<(), String>) -> EffectView {
    match result {
        Ok(()) => EffectView::Log(LOG_OK, done_text(op)),
        Err(e) => EffectView::Log(LOG_FAILED, done_text(op) + " failed: "@ + e@),
    }
}

/// `humantime::parse_duration` reads `text` as `wait`.
pub open spec fn reads_back(text: Seq<char>, wait: Interval) -> bool {
    humantime_duration(text) == Ok::<Interval, Seq<char>>(wait)
}

/// What `humantime::format_duration` writes for a span.
pub uninterp spec fn humantime_formatted(secs: u64, nanos: u32) -> Seq<char>;

/// `humantime::format_duration`, written out: the text is named by
/// `humantime_formatted`, and, as the crate's documentation guarantees,
/// `humantime::parse_duration` reads it back as the same span.
#[verifier::external_body]
fn format_wait(wait: Interval) -> (text: String)
    requires
        wait.wf(),
    ensures
        text@ == humantime_formatted(wait.secs, wait.nanos),
        reads_back(text@, wait),
{
    humantime::format_duration(std::time::Duration::new(wait.secs, wait.nanos)).to_string()
}

/// What the updater reports, as the window reads it.
pub enum Note {
    /// It is about to look up the public address.
    CheckIp,
    /// The public address changed to this one.
    IpChanged(String),
    /// The hostnames now point to this address.
    Updated(String),
    /// The hostnames already point to this address.
    NoUpdateNeeded(String),
    /// It waits this long before the next check.
    NextCheck(Interval),
    /// An update failed, for this reason.
    UpdateFailed(String),
    /// Something else went wrong.
    Error(String),
    /// It stops.
    Quitting,
    /// Anything the window does not show.
    Other,
}

/// The window after a report of the updater.
pub open spec fn noted(p: Panel, n: Note) -> Panel {
    match n {
        Note::CheckIp => Panel { status_text: "Checking IP\u{2026}"@, ..p },
        Note::IpChanged(current) => Panel { ip: current@, ..p },
        Note::NoUpdateNeeded(ip) => Panel { status_text: "Up to date ("@ + ip@ + ")"@, ..p },
        Note::NextCheck(wait) => Panel {
            next_check: Some(humantime_formatted(wait.secs, wait.nanos)),
            status_text: "Running"@,
            ..p
        },
        Note::Quitting => Panel { running: false, status_text: "Idle"@, ..p },
        _ => p,
    }
}

/// What a report of the updater asks for: a line in the log, or nothing.
pub open spec fn note_effects(n: Note) -> Seq<EffectView> {
    match n {
        Note::IpChanged(current) => seq![EffectView::Log(LOG_OK, "IP changed to "@ + current@)],
        Note::Updated(current) => seq![EffectView::Log(LOG_OK, "DNS updated \u{2192} "@ + current@)],
        Note::UpdateFailed(e) => seq![EffectView::Log(LOG_FAILED, "Update failed: "@ + e@)],
        Note::Error(e) => seq![EffectView::Log(LOG_FAILED, e@)],
        _ => Seq::empty(),
    }
}

/// `"{n} of {total} selected"`.
pub open spec fn hosts_summary_text(hosts: Seq<(Seq<char>, bool)>) -> Seq<char> {
    decimal(selected_names(hosts).len()) + " of "@ + decimal(hosts.len()) + " selected"@
}

/// What the log says when an operation on the service went through.
pub fn done_label(op: Op) -> (s: &'static str)
    ensures
        s@ == done_text(op),
{
    match op {
        Op::Install => "Service installed",
        Op::Uninstall => "Service removed",
        Op::Start => "Service started",
        Op::Stop => "Service stopped",
        Op::Enable => "Autostart enabled",
        Op::Disable => "Autostart disabled",
        Op::UpdateConfig => "Service config updated",
    }
}

/// Only one updater works for the window at a time: starting one first
/// tells an updater still linked to quit, stopping tells it to quit and
/// unlinks it, and after a start the window is linked exactly when an
/// updater was linked or hostnames are selected.
pub proof fn law_one_updater_at_a_time(p: Panel, hosts: Seq<(Seq<char>, bool)>)
    ensures
        p.linked && start_effects(p, hosts).len() > 0 ==> start_effects(p, hosts)[0]
            == EffectView::QuitUpdater,
        p.linked ==> stop_effects(p)[0] == EffectView::QuitUpdater,
        !stopped(p).linked && !stopped(p).running,
        started(p, hosts).linked == (p.linked || selected_names(hosts).len() > 0),
{
}

/// A service button does something exactly when the window shows it.
pub proof fn law_shown_buttons_are_the_working_ones(
    p: Panel,
    hosts: Seq<(Seq<char>, bool)>,
    op: Op,
)
    ensures
        offered(p, hosts).contains(op) <==> is_offered(p, hosts, op),
{
    let o = offered(p, hosts);
    if is_offered(p, hosts, op) {
        if !p.svc_installed {
            assert(o[0] == op);
        } else {
            match op {
                Op::Start | Op::Stop => assert(o[0] == op),
                Op::Enable | Op::Disable => assert(o[1] == op),
                Op::UpdateConfig => assert(o[2] == op),
                Op::Uninstall => assert(o[3] == op),
                Op::Install => {},
            }
        }
    }
}

/// Install and Update Config hand the service the same thing: the account
/// and the selected hostnames joined by commas; the other operations hand
/// it nothing.
pub proof fn law_config_operations_carry_the_account(p: Panel, hosts: Seq<(Seq<char>, bool)>, op: Op)
    ensures
        op_request(p, hosts, Op::UpdateConfig) == EffectView::RunServiceOp(
            Op::UpdateConfig,
            p.username,
            p.password,
            join_with(selected_names(hosts), seq![',']),
        ),
        op_request(p, hosts, Op::Install) == EffectView::RunServiceOp(
            Op::Install,
            p.username,
            p.password,
            join_with(selected_names(hosts), seq![',']),
        ),
        op != Op::Install && op != Op::UpdateConfig ==> op_request(p, hosts, op)
            == EffectView::RunServiceOp(op, Seq::empty(), Seq::empty(), Seq::empty()),
{
    reveal_strlit(",");
    assert(","@ =~= seq![',']);
}

/// Adds one effect at the end.
fn emit(effects: &mut Vec<Effect>, e: Effect)
    ensures
        views(final(effects)@) == views(old(effects)@).push(e@),
{
    effects.push(e);
    assert(views(effects@) =~= views(old(effects)@).push(e@));
}

/// Adds the effects of `more` at the end, in order.
fn append(effects: &mut Vec<Effect>, more: Vec<Effect>)
    ensures
        views(final(effects)@) == views(old(effects)@) + views(more@),
{
    let ghost added = more@;
    let mut more = more;
    effects.append(&mut more);
    assert(views(effects@) =~= views(old(effects)@) + views(added));
}

/// The credential-store writes of the given entries of `account`.
fn store_effects(account: &String, w: Vec<(Slot, String)>) -> (e: Vec<Effect>)
    ensures
        views(e@) == w@.map_values(|x: (Slot, String)| (x.0, x.1@)).map_values(
            |x: (Slot, Seq<char>)| EffectView::StoreSecret(account@, x.0, x.1),
        ),
{
    let ghost target = w@.map_values(|x: (Slot, String)| (x.0, x.1@)).map_values(
        |x: (Slot, Seq<char>)| EffectView::StoreSecret(account@, x.0, x.1),
    );
    let mut e: Vec<Effect> = Vec::new();
    let mut k: usize = 0;
    while k < w.len()
        invariant
            0 <= k <= w@.len(),
            target.len() == w@.len(),
            target == w@.map_values(|x: (Slot, String)| (x.0, x.1@)).map_values(
                |x: (Slot, Seq<char>)| EffectView::StoreSecret(account@, x.0, x.1),
            ),
            e@.len() == k,
            views(e@) == target.take(k as int),
        decreases w@.len() - k,
    {
        let slot = w[k].0;
        let value = w[k].1.clone();
        let ghost before = e@;
        e.push(Effect::StoreSecret(account.clone(), slot, value));
        proof {
            assert(target[k as int] == EffectView::StoreSecret(
                account@,
                w@[k as int].0,
                w@[k as int].1@,
            ));
            assert forall|i: int| 0 <= i < k + 1 implies #[trigger] views(e@)[i] == target.take(
                k + 1 as int,
            )[i] by {
                if i < k {
                    assert(e@[i] == before[i]);
                    assert(views(before)[i] == target.take(k as int)[i]);
                }
            }
            assert(views(e@) =~= target.take(k + 1 as int));
        }
        k = k + 1;
    }
    assert(target.take(k as int) =~= target);
    e
}

/// The credential-store deletions of the given entries of `account`.
fn delete_effects(account: &String, d: Vec<Slot>) -> (e: Vec<Effect>)
    ensures
        views(e@) == d@.map_values(|s: Slot| EffectView::DeleteSecret(account@, s)),
{
    let ghost target = d@.map_values(|s: Slot| EffectView::DeleteSecret(account@, s));
    let mut e: Vec<Effect> = Vec::new();
    let mut k: usize = 0;
    while k < d.len()
        invariant
            0 <= k <= d@.len(),
            target == d@.map_values(|s: Slot| EffectView::DeleteSecret(account@, s)),
            e@.len() == k,
            views(e@) == target.take(k as int),
        decreases d@.len() - k,
    {
        let ghost before = e@;
        e.push(Effect::DeleteSecret(account.clone(), d[k]));
        proof {
            assert forall|i: int| 0 <= i < k + 1 implies #[trigger] views(e@)[i] == target.take(
                k + 1 as int,
            )[i] by {
                if i < k {
                    assert(e@[i] == before[i]);
                    assert(views(before)[i] == target.take(k as int)[i]);
                }
            }
            assert(views(e@) =~= target.take(k + 1 as int));
        }
        k = k + 1;
    }
    assert(target.take(k as int) =~= target);
    e
}

impl DucState {
    /// Stops the in-app updater.
    pub fn stop_updater(&mut self) -> (effects: Vec<Effect>)
        ensures
            final(self)@ == stopped(old(self)@),
            final(self).cfg.hosts@ == old(self).cfg.hosts@,
            views(effects@) == stop_effects(old(self)@),
    {
        let mut effects: Vec<Effect> = Vec::new();
        if self.linked {
            emit(&mut effects, Effect::QuitUpdater);
        }
        self.linked = false;
        emit(&mut effects, Effect::StopListening);
        self.running = false;
        self.status_text = string_from("Idle");
        self.next_check = None;
        emit(&mut effects, Effect::Log(LOG_OK, string_from("Updater stopped")));
        assert(views(effects@) =~= stop_effects(old(self)@));
        effects
    }

    /// Starts the in-app updater for the selected hostnames.
    pub fn start_updater(&mut self) -> (effects: Vec<Effect>)
        ensures
            final(self)@ == started(old(self)@, old(self).cfg.hosts@),
            final(self).cfg.hosts@ == old(self).cfg.hosts@,
            views(effects@) == start_effects(old(self)@, old(self).cfg.hosts@),
    {
        let sel = self.cfg.selected_hosts();
        let mut effects: Vec<Effect> = Vec::new();
        if sel.len() == 0 {
            assert(views(effects@) =~= start_effects(old(self)@, old(self).cfg.hosts@));
            return effects;
        }
        if self.linked {
            emit(&mut effects, Effect::QuitUpdater);
        }
        let n = sel.len();
        emit(&mut effects, Effect::StartUpdater(self.cfg.username.clone(), self.cfg.password.clone(), sel));
        self.linked = true;
        self.running = true;
        self.status_text = string_from("Running");
        let mut msg = string_from("Updater started \u{2014} ");
        let d = decimal_u64(n as u64);
        push_all(&mut msg, d.as_str());
        push_all(&mut msg, " host(s)");
        emit(&mut effects, Effect::Log(LOG_OK, msg));
        assert(views(effects@) =~= start_effects(old(self)@, old(self).cfg.hosts@));
        effects
    }

    /// Opens the window on these settings (`DucApp::new`).
    pub fn new(cfg: AppConfig) -> (r: (DucState, Vec<Effect>))
        ensures
            r.0@ == opened(cfg),
            r.0.cfg.hosts@ == cfg.hosts@,
            views(r.1@) == open_effects(cfg),
    {
        let ghost c = cfg;
        let logged_in = !cfg.username.as_str().is_empty() && !cfg.password.as_str().is_empty();
        let mut effects: Vec<Effect> = Vec::new();
        emit(&mut effects, Effect::ApplyTheme(cfg.dark_mode));
        let pw_input = cfg.password.clone();
        let api_key_input = cfg.api_key.clone();
        let save_pw = cfg.save_password;
        let mut st = DucState {
            cfg,
            screen: if logged_in {
                Screen::Dashboard
            } else {
                Screen::Login
            },
            pw_input,
            api_key_input,
            login_err: String::new(),
            show_api_key: false,
            save_pw_checked: save_pw,
            running: false,
            linked: false,
            ip: string_from("Detecting\u{2026}"),
            status_text: string_from("Idle"),
            next_check: None,
            host_input: String::new(),
            svc_installed: false,
            svc_running: false,
            svc_enabled: false,
            svc_msg: String::new(),
            svc_op_in_flight: None,
        };
        assert(st@ == opened_before_start(c));
        if logged_in {
            emit(&mut effects, Effect::DetectIp);
            let more = st.start_updater();
            append(&mut effects, more);
        }
        emit(&mut effects, Effect::RefreshService);
        assert(views(effects@) =~= open_effects(c));
        (st, effects)
    }

    /// Whether the Sign In button does something.
    pub fn can_sign_in(&self) -> (b: bool)
        ensures
            b == can_sign_in_spec(self@),
    {
        let u = trim_text(self.cfg.username.as_str());
        !u.as_str().is_empty() && !self.pw_input.as_str().is_empty()
    }

    /// The Sign In button: the form becomes the account (`do_login`).
    pub fn press_sign_in(&mut self) -> (effects: Vec<Effect>)
        ensures
            can_sign_in_spec(old(self)@) ==> final(self)@ == signed_in(old(self)@) && views(effects@)
                == sign_in_effects(old(self)@),
            !can_sign_in_spec(old(self)@) ==> final(self)@ == old(self)@ && effects@.len() == 0,
            final(self).cfg.hosts@ == old(self).cfg.hosts@,
    {
        let mut effects: Vec<Effect> = Vec::new();
        if !self.can_sign_in() {
            return effects;
        }
        self.cfg.username = trim_text(self.cfg.username.as_str());
        self.cfg.password = self.pw_input.clone();
        self.cfg.api_key = self.api_key_input.clone();
        self.cfg.save_password = self.save_pw_checked;
        if self.save_pw_checked {
            let w = self.cfg.remember_secrets();
            effects = store_effects(&self.cfg.username, w);
            assert(views(effects@) == remember_effects(
                self.cfg.username@,
                self.cfg.password@,
                self.cfg.api_key@,
            ));
        } else {
            let d = self.cfg.forget_secrets();
            effects = delete_effects(&self.cfg.username, d);
            assert(views(effects@) =~= forget_effects(self.cfg.username@));
        }
        emit(&mut effects, Effect::SaveConfig);
        if !self.api_key_input.as_str().is_empty() {
            emit(&mut effects, Effect::FetchHosts(self.api_key_input.clone()));
            self.screen = Screen::Fetching;
        } else {
            self.screen = Screen::Dashboard;
        }
        emit(&mut effects, Effect::DetectIp);
        assert(views(effects@) =~= sign_in_effects(old(self)@));
        effects
    }

    /// The Sign Out button.
    pub fn sign_out(&mut self) -> (effects: Vec<Effect>)
        ensures
            final(self)@ == signed_out(old(self)@),
            final(self).cfg.hosts@ == old(self).cfg.hosts@,
            views(effects@) == sign_out_effects(old(self)@),
    {
        let mut effects = self.stop_updater();
        let d = self.cfg.forget_secrets();
        let gone = delete_effects(&self.cfg.username, d);
        assert(views(gone@) =~= forget_effects(old(self)@.username));
        append(&mut effects, gone);
        self.cfg.username = String::new();
        self.cfg.password = String::new();
        self.cfg.api_key = String::new();
        self.pw_input = String::new();
        self.api_key_input = String::new();
        self.cfg.save_password = false;
        self.save_pw_checked = false;
        emit(&mut effects, Effect::SaveConfig);
        self.screen = Screen::Login;
        assert(views(effects@) =~= sign_out_effects(old(self)@));
        effects
    }

    /// The light/dark switch.
    pub fn toggle_theme(&mut self) -> (effects: Vec<Effect>)
        ensures
            final(self)@ == (Panel { dark_mode: !old(self)@.dark_mode, ..old(self)@ }),
            final(self).cfg.hosts@ == old(self).cfg.hosts@,
            views(effects@) == seq![
                EffectView::ApplyTheme(!old(self)@.dark_mode),
                EffectView::SaveConfig,
            ],
    {
        self.cfg.dark_mode = !self.cfg.dark_mode;
        let mut effects: Vec<Effect> = Vec::new();
        emit(&mut effects, Effect::ApplyTheme(self.cfg.dark_mode));
        emit(&mut effects, Effect::SaveConfig);
        assert(views(effects@) =~= seq![
            EffectView::ApplyTheme(!old(self)@.dark_mode),
            EffectView::SaveConfig,
        ]);
        effects
    }

    /// The Refresh button: an updater that is linked checks at once.
    pub fn refresh(&self) -> (effects: Vec<Effect>)
        ensures
            views(effects@) == if self.linked {
                seq![EffectView::UpdateNow]
            } else {
                Seq::empty()
            },
    {
        let mut effects: Vec<Effect> = Vec::new();
        if self.linked {
            emit(&mut effects, Effect::UpdateNow);
        }
        assert(views(effects@) =~= if self.linked {
            seq![EffectView::UpdateNow]
        } else {
            Seq::empty()
        });
        effects
    }

    /// Saves, and restarts an updater that runs, after a change to the
    /// hostnames.
    fn hosts_changed(&mut self) -> (effects: Vec<Effect>)
        ensures
            final(self)@ == after_hosts_changed(old(self)@, old(self).cfg.hosts@),
            final(self).cfg.hosts@ == old(self).cfg.hosts@,
            views(effects@) == hosts_changed_effects(old(self)@, old(self).cfg.hosts@),
    {
        let mut effects: Vec<Effect> = Vec::new();
        emit(&mut effects, Effect::SaveConfig);
        if self.running {
            let stop = self.stop_updater();
            append(&mut effects, stop);
            let start = self.start_updater();
            append(&mut effects, start);
        }
        assert(views(effects@) =~= hosts_changed_effects(old(self)@, old(self).cfg.hosts@));
        effects
    }

    /// The checkbox of hostname `name`: flips whether it is selected.
    pub fn toggle_host(&mut self, name: &str) -> (effects: Vec<Effect>)
        ensures
            match host_value(old(self).cfg.hosts@, name@) {
                Some(on) => {
                    &&& forall|other: Seq<char>|
                        #![trigger host_value(final(self).cfg.hosts@, other)]
                        host_value(final(self).cfg.hosts@, other) == if other == name@ {
                            Some(!on)
                        } else {
                            host_value(old(self).cfg.hosts@, other)
                        }
                    &&& final(self)@ == after_hosts_changed(old(self)@, final(self).cfg.hosts@)
                    &&& views(effects@) == hosts_changed_effects(
                        old(self)@,
                        final(self).cfg.hosts@,
                    )
                },
                None => {
                    &&& final(self)@ == old(self)@
                    &&& final(self).cfg.hosts@ == old(self).cfg.hosts@
                    &&& effects@.len() == 0
                },
            },
    {
        match self.cfg.hosts.get(name) {
            Some(on) => {
                self.cfg.hosts.set(string_from(name), !on);
                self.hosts_changed()
            },
            None => Vec::new(),
        }
    }

    /// The bin next to hostname `name`: drops it.
    pub fn remove_host(&mut self, name: &str) -> (effects: Vec<Effect>)
        ensures
            forall|other: Seq<char>|
                #![trigger host_value(final(self).cfg.hosts@, other)]
                host_value(final(self).cfg.hosts@, other) == if other == name@ {
                    None
                } else {
                    host_value(old(self).cfg.hosts@, other)
                },
            final(self)@ == after_hosts_changed(old(self)@, final(self).cfg.hosts@),
            views(effects@) == hosts_changed_effects(old(self)@, final(self).cfg.hosts@),
    {
        self.cfg.hosts.remove(name);
        self.hosts_changed()
    }

    /// The Add Host button: adds the hostname typed, without blanks around
    /// it, selected; a name already there keeps its selection. Nothing
    /// happens when only blanks were typed.
    pub fn add_host(&mut self) -> (effects: Vec<Effect>)
        ensures
            ({
                let h = trim(old(self).host_input@);
                let cleared = Panel { host_input: Seq::empty(), ..old(self)@ };
                if h.len() == 0 {
                    &&& final(self)@ == old(self)@
                    &&& final(self).cfg.hosts@ == old(self).cfg.hosts@
                    &&& effects@.len() == 0
                } else {
                    &&& forall|other: Seq<char>|
                        #![trigger host_value(final(self).cfg.hosts@, other)]
                        host_value(final(self).cfg.hosts@, other) == if other == h && !has_host(
                            old(self).cfg.hosts@,
                            h,
                        ) {
                            Some(true)
                        } else {
                            host_value(old(self).cfg.hosts@, other)
                        }
                    &&& final(self)@ == after_hosts_changed(cleared, final(self).cfg.hosts@)
                    &&& views(effects@) == hosts_changed_effects(cleared, final(self).cfg.hosts@)
                }
            }),
    {
        let h = trim_text(self.host_input.as_str());
        if h.as_str().is_empty() {
            return Vec::new();
        }
        self.cfg.hosts.insert_if_absent(h, true);
        self.host_input = String::new();
        self.hosts_changed()
    }

    /// The service buttons the window offers, in the order it shows them.
    pub fn service_buttons(&self) -> (v: Vec<Op>)
        ensures
            v@ == offered(self@, self.cfg.hosts@),
    {
        let mut v: Vec<Op> = Vec::new();
        if !self.svc_installed {
            if !self.cfg.hosts.selected().is_empty() {
                v.push(Op::Install);
            }
        } else {
            v.push(if self.svc_running {
                Op::Stop
            } else {
                Op::Start
            });
            v.push(if self.svc_enabled {
                Op::Disable
            } else {
                Op::Enable
            });
            v.push(Op::UpdateConfig);
            v.push(Op::Uninstall);
        }
        assert(v@ =~= offered(self@, self.cfg.hosts@));
        v
    }

    /// Whether the window shows a button for `op`.
    fn offers(&self, op: Op) -> (b: bool)
        ensures
            b == is_offered(self@, self.cfg.hosts@, op),
    {
        if !self.svc_installed {
            return op == Op::Install && !self.cfg.hosts.selected().is_empty();
        }
        match op {
            Op::Install => false,
            Op::Start => !self.svc_running,
            Op::Stop => self.svc_running,
            Op::Enable => !self.svc_enabled,
            Op::Disable => self.svc_enabled,
            Op::UpdateConfig | Op::Uninstall => true,
        }
    }

    /// A service button: while an operation runs, or for a button not
    /// offered, nothing happens; the background service does not start
    /// while the in-app updater runs; otherwise the operation starts.
    pub fn press_service_button(&mut self, op: Op) -> (effects: Vec<Effect>)
        ensures
            final(self).cfg.hosts@ == old(self).cfg.hosts@,
            old(self).svc_op_in_flight is Some || !is_offered(old(self)@, old(self).cfg.hosts@, op)
                ==> final(self)@ == old(self)@ && effects@.len() == 0,
            old(self).svc_op_in_flight is None && is_offered(old(self)@, old(self).cfg.hosts@, op)
                && op == Op::Start && old(self).running ==> final(self)@ == (Panel {
                svc_msg: RACE_MESSAGE@,
                ..old(self)@
            }) && effects@.len() == 0,
            old(self).svc_op_in_flight is None && is_offered(old(self)@, old(self).cfg.hosts@, op)
                && !(op == Op::Start && old(self).running) ==> final(self)@ == (Panel {
                svc_op_in_flight: Some(op),
                svc_msg: Seq::empty(),
                ..old(self)@
            }) && views(effects@) == seq![op_request(old(self)@, old(self).cfg.hosts@, op)],
    {
        let mut effects: Vec<Effect> = Vec::new();
        if self.svc_op_in_flight.is_some() || !self.offers(op) {
            return effects;
        }
        if op == Op::Start && self.running {
            self.svc_msg = string_from(RACE_MESSAGE);
            return effects;
        }
        let args = if op == Op::Install || op == Op::UpdateConfig {
            let sel = self.cfg.hosts.selected();
            OpArgs {
                username: self.cfg.username.clone(),
                password: self.cfg.password.clone(),
                hostnames: join_strings(&sel, ","),
            }
        } else {
            OpArgs { username: String::new(), password: String::new(), hostnames: String::new() }
        };
        self.svc_op_in_flight = Some(op);
        self.svc_msg = String::new();
        emit(&mut effects, Effect::RunServiceOp(op, args));
        assert(views(effects@) =~= seq![op_request(old(self)@, old(self).cfg.hosts@, op)]);
        effects
    }

    /// An operation on the service ended: log how, and read the service's
    /// state again.
    pub fn service_op_done(&mut self, res: OpResult) -> (effects: Vec<Effect>)
        ensures
            final(self)@ == (Panel {
                svc_msg: match res.result {
                    Ok(()) => Seq::empty(),
                    Err(e) => e@,
                },
                svc_op_in_flight: None,
                ..old(self)@
            }),
            final(self).cfg.hosts@ == old(self).cfg.hosts@,
            views(effects@) == seq![done_line(res.op, res.result), EffectView::RefreshService],
    {
        let mut effects: Vec<Effect> = Vec::new();
        let label = done_label(res.op);
        match res.result {
            Ok(()) => {
                emit(&mut effects, Effect::Log(LOG_OK, string_from(label)));
                self.svc_msg = String::new();
            },
            Err(e) => {
                let mut msg = string_from(label);
                push_all(&mut msg, " failed: ");
                push_all(&mut msg, e.as_str());
                emit(&mut effects, Effect::Log(LOG_FAILED, msg));
                self.svc_msg = e;
            },
        }
        self.svc_op_in_flight = None;
        emit(&mut effects, Effect::RefreshService);
        effects
    }

    /// The background service's state, as just read.
    pub fn set_service_status(&mut self, installed: bool, running: bool, enabled: bool)
        ensures
            final(self)@ == (Panel {
                svc_installed: installed,
                svc_running: running,
                svc_enabled: enabled,
                ..old(self)@
            }),
            final(self).cfg.hosts@ == old(self).cfg.hosts@,
    {
        self.svc_installed = installed;
        self.svc_running = running;
        self.svc_enabled = enabled;
    }

    /// The public address, as just looked up.
    pub fn ip_detected(&mut self, ip: String)
        ensures
            final(self)@ == (Panel { ip: ip@, ..old(self)@ }),
            final(self).cfg.hosts@ == old(self).cfg.hosts@,
    {
        self.ip = ip;
    }

    /// A report of the updater.
    pub fn notified(&mut self, n: Note) -> (effects: Vec<Effect>)
        requires
            n matches Note::NextCheck(wait) ==> wait.wf(),
        ensures
            final(self)@ == noted(old(self)@, n),
            final(self).cfg.hosts@ == old(self).cfg.hosts@,
            views(effects@) == note_effects(n),
            n matches Note::NextCheck(wait) ==> final(self)@.next_check matches Some(t) && reads_back(
                t,
                wait,
            ),
    {
        let mut effects: Vec<Effect> = Vec::new();
        match n {
            Note::CheckIp => {
                self.status_text = string_from("Checking IP\u{2026}");
            },
            Note::IpChanged(current) => {
                let mut msg = string_from("IP changed to ");
                push_all(&mut msg, current.as_str());
                self.ip = current;
                emit(&mut effects, Effect::Log(LOG_OK, msg));
            },
            Note::Updated(current) => {
                let mut msg = string_from("DNS updated \u{2192} ");
                push_all(&mut msg, current.as_str());
                emit(&mut effects, Effect::Log(LOG_OK, msg));
            },
            Note::NoUpdateNeeded(ip) => {
                let mut msg = string_from("Up to date (");
                push_all(&mut msg, ip.as_str());
                push_all(&mut msg, ")");
                self.status_text = msg;
            },
            Note::NextCheck(wait) => {
                self.next_check = Some(format_wait(wait));
                self.status_text = string_from("Running");
            },
            Note::UpdateFailed(e) => {
                let mut msg = string_from("Update failed: ");
                push_all(&mut msg, e.as_str());
                emit(&mut effects, Effect::Log(LOG_FAILED, msg));
            },
            Note::Error(e) => {
                emit(&mut effects, Effect::Log(LOG_FAILED, e));
            },
            Note::Quitting => {
                self.running = false;
                self.status_text = string_from("Idle");
            },
            Note::Other => {},
        }
        assert(views(effects@) =~= note_effects(n));
        effects
    }

    /// The hostnames listed with the API key arrived, or the listing failed.
    pub fn fetch_done(&mut self, r: FetchResult) -> (effects: Vec<Effect>)
        ensures
            match r {
                FetchResult::Hosts(hosts) => {
                    let shown = Panel { screen: Screen::Dashboard, ..old(self)@ };
                    &&& forall|other: Seq<char>|
                        #![trigger host_value(final(self).cfg.hosts@, other)]
                        host_value(final(self).cfg.hosts@, other) == if host_value(
                            old(self).cfg.hosts@,
                            other,
                        ) is Some {
                            host_value(old(self).cfg.hosts@, other)
                        } else if hosts@.map_values(|s: String| s@).contains(other) {
                            Some(true)
                        } else {
                            None
                        }
                    &&& final(self)@ == started(shown, final(self).cfg.hosts@)
                    &&& views(effects@) == seq![EffectView::SaveConfig] + start_effects(
                        shown,
                        final(self).cfg.hosts@,
                    )
                },
                FetchResult::Failed(e) => {
                    &&& final(self)@ == (Panel {
                        login_err: e@,
                        screen: Screen::Login,
                        ..old(self)@
                    })
                    &&& final(self).cfg.hosts@ == old(self).cfg.hosts@
                    &&& effects@.len() == 0
                },
            },
    {
        match r {
            FetchResult::Hosts(hosts) => {
                self.cfg.add_hosts(hosts);
                let mut effects: Vec<Effect> = Vec::new();
                emit(&mut effects, Effect::SaveConfig);
                self.screen = Screen::Dashboard;
                let start = self.start_updater();
                append(&mut effects, start);
                effects
            },
            FetchResult::Failed(e) => {
                self.login_err = e;
                self.screen = Screen::Login;
                Vec::new()
            },
        }
    }

    /// The word next to the updater's dot.
    pub fn status_word(&self) -> (s: &'static str)
        ensures
            s@ == if self.running {
                "Running"@
            } else {
                "Stopped"@
            },
    {
        if self.running {
            "Running"
        } else {
            "Stopped"
        }
    }

    /// The word next to the background service's dot.
    pub fn service_state_text(&self) -> (s: &'static str)
        ensures
            s@ == if self.svc_running {
                "Running"@
            } else if self.svc_installed {
                "Stopped"@
            } else {
                "Not installed"@
            },
    {
        if self.svc_running {
            "Running"
        } else if self.svc_installed {
            "Stopped"
        } else {
            "Not installed"
        }
    }

    /// Whether both the in-app updater and the background service run, so
    /// that the window warns of duplicate updates.
    pub fn shows_duplicate_warning(&self) -> (b: bool)
        ensures
            b == (self.running && self.svc_running),
    {
        self.running && self.svc_running
    }

    /// The Hosts line of the status card.
    pub fn hosts_summary(&self) -> (s: String)
        ensures
            s@ == hosts_summary_text(self.cfg.hosts@),
    {
        let n = self.cfg.hosts.selected().len();
        let total = self.cfg.hosts.len();
        let mut s = decimal_u64(n as u64);
        push_all(&mut s, " of ");
        let t = decimal_u64(total as u64);
        push_all(&mut s, t.as_str());
        push_all(&mut s, " selected");
        s
    }

    /// The text of the link that opens or closes the API key field.
    pub fn api_key_toggle_text(&self) -> (s: &'static str)
        ensures
            s@ == if self.show_api_key {
                "Hide API key"@
            } else {
                "I have an API key"@
            },
    {
        if self.show_api_key {
            "Hide API key"
        } else {
            "I have an API key"
        }
    }

    /// The hint of the light/dark switch.
    pub fn theme_hint(&self) -> (s: &'static str)
        ensures
            s@ == if self.cfg.dark_mode {
                "Switch to light mode"@
            } else {
                "Switch to dark mode"@
            },
    {
        if self.cfg.dark_mode {
            "Switch to light mode"
        } else {
            "Switch to dark mode"
        }
    }
}

} // verus!
