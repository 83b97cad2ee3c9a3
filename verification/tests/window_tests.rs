use noip_duc::config::AppConfig;
use noip_duc::dashboard::{DucState, Effect, Note, Screen, LOG_FAILED, LOG_OK, RACE_MESSAGE};
use noip_duc::hosts_api::FetchResult;
use noip_duc::secrets::Slot;
use noip_duc::service::{Op, OpResult};
use noip_duc::update::Interval;

fn account(username: &str, password: &str, hosts: &[(&str, bool)]) -> AppConfig {
    let mut cfg = AppConfig::empty();
    cfg.username = username.to_string();
    cfg.password = password.to_string();
    for (h, on) in hosts {
        cfg.hosts.set(h.to_string(), *on);
    }
    cfg
}

fn is_log(e: &Effect, level: u8, text: &str) -> bool {
    matches!(e, Effect::Log(l, m) if *l == level && m == text)
}

fn is_start(e: &Effect, user: &str, pass: &str, hosts: &[&str]) -> bool {
    matches!(e, Effect::StartUpdater(u, p, h) if u == user && p == pass && h == hosts)
}

#[test]
fn opening_signed_in_starts_the_updater() {
    let cfg = account("me", "pw", &[("b.ddns.net", true), ("a.ddns.net", false)]);
    let (st, effects) = DucState::new(cfg);
    assert_eq!(st.screen, Screen::Dashboard);
    assert!(st.running && st.linked);
    assert_eq!(st.status_text, "Running");
    assert_eq!(st.ip, "Detecting\u{2026}");
    assert_eq!(st.pw_input, "pw");
    assert_eq!(effects.len(), 5);
    assert!(matches!(effects[0], Effect::ApplyTheme(false)));
    assert!(matches!(effects[1], Effect::DetectIp));
    assert!(is_start(&effects[2], "me", "pw", &["b.ddns.net"]));
    assert!(is_log(&effects[3], LOG_OK, "Updater started \u{2014} 1 host(s)"));
    assert!(matches!(effects[4], Effect::RefreshService));
}

#[test]
fn opening_signed_out_shows_the_form() {
    let mut cfg = AppConfig::empty();
    cfg.dark_mode = true;
    let (st, effects) = DucState::new(cfg);
    assert_eq!(st.screen, Screen::Login);
    assert!(!st.running);
    assert_eq!(st.status_text, "Idle");
    assert_eq!(effects.len(), 2);
    assert!(matches!(effects[0], Effect::ApplyTheme(true)));
    assert!(matches!(effects[1], Effect::RefreshService));
}

#[test]
fn opening_with_nothing_selected_does_not_start() {
    let cfg = account("me", "pw", &[("a.ddns.net", false)]);
    let (st, effects) = DucState::new(cfg);
    assert_eq!(st.screen, Screen::Dashboard);
    assert!(!st.running);
    assert_eq!(effects.len(), 3);
    assert!(matches!(effects[1], Effect::DetectIp));
}

#[test]
fn sign_in_needs_a_username_and_a_password() {
    let (mut st, _) = DucState::new(AppConfig::empty());
    st.cfg.username = "   ".to_string();
    st.pw_input = "pw".to_string();
    assert!(!st.can_sign_in());
    assert!(st.press_sign_in().is_empty());
    assert_eq!(st.screen, Screen::Login);
    st.cfg.username = "me".to_string();
    st.pw_input = String::new();
    assert!(!st.can_sign_in());
    assert!(st.press_sign_in().is_empty());
}

#[test]
fn sign_in_with_an_api_key_remembers_and_lists_hosts() {
    let (mut st, _) = DucState::new(AppConfig::empty());
    st.cfg.username = "  me@example.com ".to_string();
    st.pw_input = "pw".to_string();
    st.api_key_input = "key".to_string();
    st.save_pw_checked = true;
    let effects = st.press_sign_in();
    assert_eq!(st.cfg.username, "me@example.com");
    assert_eq!(st.cfg.password, "pw");
    assert_eq!(st.cfg.api_key, "key");
    assert!(st.cfg.save_password);
    assert_eq!(st.screen, Screen::Fetching);
    assert_eq!(effects.len(), 5);
    assert!(matches!(&effects[0], Effect::StoreSecret(a, Slot::Password, v) if a == "me@example.com" && v == "pw"));
    assert!(matches!(&effects[1], Effect::StoreSecret(a, Slot::ApiKey, v) if a == "me@example.com" && v == "key"));
    assert!(matches!(effects[2], Effect::SaveConfig));
    assert!(matches!(&effects[3], Effect::FetchHosts(k) if k == "key"));
    assert!(matches!(effects[4], Effect::DetectIp));
}

#[test]
fn sign_in_without_remembering_forgets() {
    let (mut st, _) = DucState::new(AppConfig::empty());
    st.cfg.username = "me".to_string();
    st.pw_input = "pw".to_string();
    let effects = st.press_sign_in();
    assert_eq!(st.screen, Screen::Dashboard);
    assert_eq!(effects.len(), 4);
    assert!(matches!(&effects[0], Effect::DeleteSecret(a, Slot::Password) if a == "me"));
    assert!(matches!(&effects[1], Effect::DeleteSecret(a, Slot::ApiKey) if a == "me"));
    assert!(matches!(effects[2], Effect::SaveConfig));
    assert!(matches!(effects[3], Effect::DetectIp));
}

#[test]
fn sign_out_stops_and_forgets_the_account() {
    let mut cfg = account("me", "pw", &[("a.ddns.net", true)]);
    cfg.api_key = "key".to_string();
    cfg.save_password = true;
    let (mut st, _) = DucState::new(cfg);
    let effects = st.sign_out();
    assert_eq!(st.screen, Screen::Login);
    assert!(!st.running && !st.linked);
    assert!(st.cfg.username.is_empty() && st.cfg.password.is_empty() && st.cfg.api_key.is_empty());
    assert!(st.pw_input.is_empty() && st.api_key_input.is_empty());
    assert!(!st.cfg.save_password && !st.save_pw_checked);
    assert_eq!(effects.len(), 6);
    assert!(matches!(effects[0], Effect::QuitUpdater));
    assert!(matches!(effects[1], Effect::StopListening));
    assert!(is_log(&effects[2], LOG_OK, "Updater stopped"));
    assert!(matches!(&effects[3], Effect::DeleteSecret(a, Slot::Password) if a == "me"));
    assert!(matches!(&effects[4], Effect::DeleteSecret(a, Slot::ApiKey) if a == "me"));
    assert!(matches!(effects[5], Effect::SaveConfig));
}

#[test]
fn stop_and_refresh_follow_the_link() {
    let (mut st, _) = DucState::new(account("me", "pw", &[("a.ddns.net", true)]));
    assert!(matches!(st.refresh()[..], [Effect::UpdateNow]));
    let effects = st.stop_updater();
    assert_eq!(effects.len(), 3);
    assert_eq!(st.status_text, "Idle");
    assert!(st.next_check.is_none());
    assert!(st.refresh().is_empty());
    let again = st.stop_updater();
    assert_eq!(again.len(), 2);
    assert!(matches!(again[0], Effect::StopListening));
}

#[test]
fn starting_again_quits_the_linked_updater_first() {
    let (mut st, _) = DucState::new(account("me", "pw", &[("a.ddns.net", true), ("b.ddns.net", true)]));
    let effects = st.start_updater();
    assert_eq!(effects.len(), 3);
    assert!(matches!(effects[0], Effect::QuitUpdater));
    assert!(is_start(&effects[1], "me", "pw", &["a.ddns.net", "b.ddns.net"]));
    assert!(is_log(&effects[2], LOG_OK, "Updater started \u{2014} 2 host(s)"));
}

#[test]
fn the_theme_switch_applies_and_saves() {
    let (mut st, _) = DucState::new(AppConfig::empty());
    assert_eq!(st.theme_hint(), "Switch to dark mode");
    let effects = st.toggle_theme();
    assert!(st.cfg.dark_mode);
    assert_eq!(st.theme_hint(), "Switch to light mode");
    assert!(matches!(effects[..], [Effect::ApplyTheme(true), Effect::SaveConfig]));
}

#[test]
fn adding_a_host_trims_it_and_restarts_the_updater() {
    let (mut st, _) = DucState::new(account("me", "pw", &[("b.ddns.net", true)]));
    st.host_input = "  a.ddns.net ".to_string();
    let effects = st.add_host();
    assert!(st.host_input.is_empty());
    assert_eq!(st.cfg.hosts.get("a.ddns.net"), Some(true));
    assert!(st.running && st.linked);
    assert_eq!(effects.len(), 6);
    assert!(matches!(effects[0], Effect::SaveConfig));
    assert!(matches!(effects[1], Effect::QuitUpdater));
    assert!(matches!(effects[2], Effect::StopListening));
    assert!(is_log(&effects[3], LOG_OK, "Updater stopped"));
    assert!(is_start(&effects[4], "me", "pw", &["a.ddns.net", "b.ddns.net"]));
    assert!(is_log(&effects[5], LOG_OK, "Updater started \u{2014} 2 host(s)"));
}

#[test]
fn adding_blanks_does_nothing() {
    let (mut st, _) = DucState::new(account("me", "pw", &[]));
    st.host_input = "   ".to_string();
    assert!(st.add_host().is_empty());
    assert_eq!(st.host_input, "   ");
    assert_eq!(st.cfg.hosts.len(), 0);
}

#[test]
fn host_edits_while_stopped_only_save() {
    let (mut st, _) = DucState::new(account("me", "pw", &[("a.ddns.net", false), ("b.ddns.net", true)]));
    st.stop_updater();
    let toggled = st.toggle_host("a.ddns.net");
    assert_eq!(st.cfg.hosts.get("a.ddns.net"), Some(true));
    assert!(matches!(toggled[..], [Effect::SaveConfig]));
    assert!(st.toggle_host("missing").is_empty());
    let removed = st.remove_host("b.ddns.net");
    assert_eq!(st.cfg.hosts.get("b.ddns.net"), None);
    assert!(matches!(removed[..], [Effect::SaveConfig]));
    assert_eq!(st.hosts_summary(), "1 of 1 selected");
}

#[test]
fn unselecting_the_last_host_stops_the_updater() {
    let (mut st, _) = DucState::new(account("me", "pw", &[("a.ddns.net", true)]));
    let effects = st.toggle_host("a.ddns.net");
    assert!(!st.running);
    assert_eq!(st.hosts_summary(), "0 of 1 selected");
    assert_eq!(effects.len(), 4);
    assert!(is_log(&effects[3], LOG_OK, "Updater stopped"));
}

#[test]
fn service_buttons_follow_the_service_state() {
    let (mut st, _) = DucState::new(account("me", "pw", &[("a.ddns.net", false)]));
    assert!(st.service_buttons().is_empty());
    assert_eq!(st.service_state_text(), "Not installed");
    st.cfg.hosts.set("a.ddns.net".to_string(), true);
    assert_eq!(st.service_buttons(), vec![Op::Install]);
    st.set_service_status(true, false, true);
    assert_eq!(st.service_state_text(), "Stopped");
    assert_eq!(st.service_buttons(), vec![Op::Start, Op::Disable, Op::UpdateConfig, Op::Uninstall]);
    st.set_service_status(true, true, false);
    assert_eq!(st.service_state_text(), "Running");
    assert_eq!(st.service_buttons(), vec![Op::Stop, Op::Enable, Op::UpdateConfig, Op::Uninstall]);
}

#[test]
fn installing_hands_over_the_selected_hosts() {
    let (mut st, _) = DucState::new(account("me", "pw", &[("b.ddns.net", true), ("a.ddns.net", true), ("c.ddns.net", false)]));
    st.stop_updater();
    let effects = st.press_service_button(Op::Install);
    assert_eq!(st.svc_op_in_flight, Some(Op::Install));
    assert_eq!(effects.len(), 1);
    assert!(matches!(&effects[0], Effect::RunServiceOp(Op::Install, a)
        if a.username == "me" && a.password == "pw" && a.hostnames == "a.ddns.net,b.ddns.net"));
}

#[test]
fn one_service_operation_at_a_time() {
    let (mut st, _) = DucState::new(account("me", "pw", &[("a.ddns.net", true)]));
    st.set_service_status(true, true, true);
    let first = st.press_service_button(Op::Stop);
    assert!(matches!(&first[..], [Effect::RunServiceOp(Op::Stop, a)] if a.username.is_empty() && a.hostnames.is_empty()));
    assert!(st.press_service_button(Op::Disable).is_empty());
    assert_eq!(st.svc_op_in_flight, Some(Op::Stop));
}

#[test]
fn buttons_not_shown_do_nothing() {
    let (mut st, _) = DucState::new(account("me", "pw", &[("a.ddns.net", true)]));
    assert!(st.press_service_button(Op::Uninstall).is_empty());
    st.set_service_status(true, true, false);
    assert!(st.press_service_button(Op::Start).is_empty());
    assert!(st.press_service_button(Op::Install).is_empty());
    assert_eq!(st.svc_op_in_flight, None);
}

#[test]
fn the_service_does_not_start_while_the_updater_runs() {
    let (mut st, _) = DucState::new(account("me", "pw", &[("a.ddns.net", true)]));
    st.set_service_status(true, false, false);
    assert!(st.running);
    assert!(st.press_service_button(Op::Start).is_empty());
    assert_eq!(st.svc_msg, RACE_MESSAGE);
    assert_eq!(st.svc_op_in_flight, None);
    st.stop_updater();
    let effects = st.press_service_button(Op::Start);
    assert!(matches!(effects[..], [Effect::RunServiceOp(Op::Start, _)]));
    assert!(st.svc_msg.is_empty());
}

#[test]
fn the_duplicate_warning_needs_both_running() {
    let (mut st, _) = DucState::new(account("me", "pw", &[("a.ddns.net", true)]));
    assert!(!st.shows_duplicate_warning());
    st.set_service_status(true, true, false);
    assert!(st.shows_duplicate_warning());
    st.stop_updater();
    assert!(!st.shows_duplicate_warning());
}

#[test]
fn finished_service_operations_are_logged() {
    let (mut st, _) = DucState::new(account("me", "pw", &[]));
    st.svc_op_in_flight = Some(Op::Install);
    let failed = st.service_op_done(OpResult { op: Op::Install, result: Err("boom".to_string()) });
    assert_eq!(st.svc_msg, "boom");
    assert_eq!(st.svc_op_in_flight, None);
    assert_eq!(failed.len(), 2);
    assert!(is_log(&failed[0], LOG_FAILED, "Service installed failed: boom"));
    assert!(matches!(failed[1], Effect::RefreshService));
    let done = st.service_op_done(OpResult { op: Op::Disable, result: Ok(()) });
    assert!(st.svc_msg.is_empty());
    assert!(is_log(&done[0], LOG_OK, "Autostart disabled"));
}

#[test]
fn updater_reports_change_the_window() {
    let (mut st, _) = DucState::new(account("me", "pw", &[("a.ddns.net", true)]));
    assert!(st.notified(Note::CheckIp).is_empty());
    assert_eq!(st.status_text, "Checking IP\u{2026}");
    let changed = st.notified(Note::IpChanged("192.0.2.7".to_string()));
    assert_eq!(st.ip, "192.0.2.7");
    assert!(is_log(&changed[0], LOG_OK, "IP changed to 192.0.2.7"));
    let updated = st.notified(Note::Updated("192.0.2.7".to_string()));
    assert!(is_log(&updated[0], LOG_OK, "DNS updated \u{2192} 192.0.2.7"));
    st.notified(Note::NoUpdateNeeded("192.0.2.7".to_string()));
    assert_eq!(st.status_text, "Up to date (192.0.2.7)");
    let failed = st.notified(Note::UpdateFailed("NoHost".to_string()));
    assert!(is_log(&failed[0], LOG_FAILED, "Update failed: NoHost"));
    let err = st.notified(Note::Error("lookup failed".to_string()));
    assert!(is_log(&err[0], LOG_FAILED, "lookup failed"));
    assert!(st.notified(Note::Other).is_empty());
    st.notified(Note::Quitting);
    assert!(!st.running);
    assert_eq!(st.status_text, "Idle");
    assert_eq!(st.status_word(), "Stopped");
}

#[test]
fn the_next_check_is_written_out() {
    let (mut st, _) = DucState::new(account("me", "pw", &[("a.ddns.net", true)]));
    assert!(st.notified(Note::NextCheck(Interval::from_secs(300))).is_empty());
    assert_eq!(st.next_check.as_deref(), Some("5m"));
    assert_eq!(st.status_text, "Running");
    st.notified(Note::NextCheck(Interval::new(9420, 32_000_000)));
    assert_eq!(st.next_check.as_deref(), Some("2h 37m 32ms"));
}

#[test]
fn listed_hosts_are_added_and_watched() {
    let (mut st, _) = DucState::new(account("me", "pw", &[("a.ddns.net", false)]));
    st.screen = Screen::Fetching;
    let effects = st.fetch_done(FetchResult::Hosts(vec!["a.ddns.net".to_string(), "b.ddns.net".to_string()]));
    assert_eq!(st.screen, Screen::Dashboard);
    assert_eq!(st.cfg.hosts.get("a.ddns.net"), Some(false));
    assert_eq!(st.cfg.hosts.get("b.ddns.net"), Some(true));
    assert!(st.running);
    assert_eq!(effects.len(), 3);
    assert!(matches!(effects[0], Effect::SaveConfig));
    assert!(is_start(&effects[1], "me", "pw", &["b.ddns.net"]));
}

#[test]
fn a_failed_listing_returns_to_the_form() {
    let (mut st, _) = DucState::new(AppConfig::empty());
    st.screen = Screen::Fetching;
    let effects = st.fetch_done(FetchResult::Failed("HTTP 401 Unauthorized".to_string()));
    assert!(effects.is_empty());
    assert_eq!(st.screen, Screen::Login);
    assert_eq!(st.login_err, "HTTP 401 Unauthorized");
}

#[test]
fn the_api_key_link_text() {
    let (mut st, _) = DucState::new(AppConfig::empty());
    assert_eq!(st.api_key_toggle_text(), "I have an API key");
    st.show_api_key = true;
    assert_eq!(st.api_key_toggle_text(), "Hide API key");
}
