use noip_duc::cli::{
    check_interval_allowed, daemon_id, duration_in_range, effective_log_level, parse_duration_arg,
    DaemonId, LogLevel, DURATION_TOO_LARGE,
};
use noip_duc::clock::{format_clock, utc_clock};
use noip_duc::config::{AppConfig, HostSet};
use noip_duc::config::legacy_secrets;
use noip_duc::hosts_api::{
    hosts_from_reply, hosts_in_text, hosts_reply, names_from, parse_hosts, text_member, FetchResult,
    Json,
};
use noip_duc::secrets::{Slot, SERVICE};
use noip_duc::service::{
    daemon_reload, service_env_content, service_task, service_unit_content, svc_disable,
    svc_enable, svc_start, svc_stop, systemctl_outcome, Op, OpArgs, OpResult, ServiceTask,
};
use noip_duc::text::{compare_text, decimal_u64, trim_text, TextOrder};
use noip_duc::update::Interval;

#[test]
fn log_level_choice() {
    assert_eq!(effective_log_level(None, 0), LogLevel::Info);
    assert_eq!(effective_log_level(None, 1), LogLevel::Debug);
    assert_eq!(effective_log_level(None, 2), LogLevel::Trace);
    assert_eq!(effective_log_level(Some(LogLevel::Error), 3), LogLevel::Error);
    assert_eq!(LogLevel::Critical.as_str(), "critical");
    assert_eq!(LogLevel::Warn.as_str(), "warn");
}

#[test]
fn check_interval_minimum() {
    assert!(check_interval_allowed(Interval::from_secs(120)));
    assert!(!check_interval_allowed(Interval::new(119, 999_999_999)));
    assert!(check_interval_allowed(Interval::from_secs(300)));
}

#[test]
fn duration_arguments() {
    assert_eq!(parse_duration_arg("5m").unwrap(), Interval::from_secs(300));
    assert_eq!(parse_duration_arg("10s").unwrap(), Interval::from_secs(10));
    assert_eq!(parse_duration_arg("2h 37min").unwrap(), Interval::from_secs(9420));
    assert_eq!(parse_duration_arg("32ms").unwrap(), Interval::new(0, 32_000_000));
    assert!(parse_duration_arg("five").is_err());
    assert!(parse_duration_arg("").is_err());
}

#[test]
fn host_set_keeps_names_in_order() {
    let mut h = HostSet::new();
    assert!(h.is_empty());
    h.insert_if_absent("b.ddns.net".to_string(), true);
    h.insert_if_absent("a.ddns.net".to_string(), false);
    h.insert_if_absent("c.ddns.net".to_string(), true);
    h.insert_if_absent("b.ddns.net".to_string(), false);
    assert_eq!(h.len(), 3);
    assert_eq!(h.names(), vec!["a.ddns.net", "b.ddns.net", "c.ddns.net"]);
    assert_eq!(h.get("b.ddns.net"), Some(true));
    assert_eq!(h.get("a.ddns.net"), Some(false));
    assert_eq!(h.get("zzz"), None);
    h.set("a.ddns.net".to_string(), true);
    assert_eq!(h.get("a.ddns.net"), Some(true));
    h.set("B".to_string(), false);
    assert_eq!(h.names(), vec!["B", "a.ddns.net", "b.ddns.net", "c.ddns.net"]);
    h.remove("b.ddns.net");
    h.remove("missing");
    assert_eq!(h.get("b.ddns.net"), None);
    assert_eq!(h.selected(), vec!["a.ddns.net", "c.ddns.net"]);
}

#[test]
fn selected_hosts_of_config() {
    let mut c = AppConfig::empty();
    c.hosts.set("z".to_string(), true);
    c.hosts.set("m".to_string(), false);
    c.hosts.set("a".to_string(), true);
    assert_eq!(c.selected_hosts(), vec!["a", "z"]);
    c.add_hosts(vec!["m".to_string(), "n".to_string(), "n".to_string()]);
    assert_eq!(c.hosts.get("m"), Some(false));
    assert_eq!(c.hosts.get("n"), Some(true));
    assert_eq!(c.selected_hosts(), vec!["a", "n", "z"]);
}

#[test]
fn remembering_and_forgetting_secrets() {
    let mut c = AppConfig::empty();
    c.password = "pw".to_string();
    assert!(c.remember_secrets().is_empty());
    assert!(c.forget_secrets().is_empty());
    c.username = "me".to_string();
    let w = c.remember_secrets();
    assert_eq!(w, vec![(Slot::Password, "pw".to_string())]);
    c.api_key = "key".to_string();
    let w = c.remember_secrets();
    assert_eq!(
        w,
        vec![(Slot::Password, "pw".to_string()), (Slot::ApiKey, "key".to_string())]
    );
    assert_eq!(c.forget_secrets(), vec![Slot::Password, Slot::ApiKey]);
    assert!(!c.wants_remembered_secrets());
    c.save_password = true;
    assert!(c.wants_remembered_secrets());
}

#[test]
fn legacy_secrets_move_once() {
    let mut c = AppConfig::empty();
    c.legacy_password = "old".to_string();
    c.legacy_api_key = "k".to_string();
    // Without an account nothing moves.
    assert!(c.migrate_legacy_secrets().is_empty());
    assert_eq!(c.legacy_password, "old");
    c.username = "me".to_string();
    let w = c.migrate_legacy_secrets();
    assert_eq!(
        w,
        vec![(Slot::Password, "old".to_string()), (Slot::ApiKey, "k".to_string())]
    );
    assert_eq!(c.password, "old");
    assert_eq!(c.api_key, "k");
    assert_eq!(c.legacy_password, "");
    assert!(c.migrate_legacy_secrets().is_empty());
}

#[test]
fn keyring_targets() {
    assert_eq!(Slot::Password.target(), "password");
    assert_eq!(Slot::ApiKey.target(), "api-key");
    assert_eq!(SERVICE, "noip-duc");
}

#[test]
fn service_labels_and_tasks() {
    assert_eq!(Op::Install.label(), "Installing service\u{2026}");
    assert_eq!(Op::UpdateConfig.label(), "Updating service config\u{2026}");
    let args = OpArgs {
        username: "u".into(),
        password: "p".into(),
        hostnames: "a,b".into(),
    };
    match service_task(Op::UpdateConfig, args.clone()) {
        ServiceTask::Install { username, password, hostnames } => {
            assert_eq!((username.as_str(), password.as_str(), hostnames.as_str()), ("u", "p", "a,b"));
        }
        _ => panic!("expected an install"),
    }
    assert!(matches!(service_task(Op::Stop, args), ServiceTask::Stop));
    let r = OpResult { op: Op::Start, result: Ok(()) };
    assert_eq!(r.op, Op::Start);
}

#[test]
fn systemctl_command_lines() {
    assert_eq!(svc_start(), vec!["--user", "start", "noip-duc.service"]);
    assert_eq!(svc_stop(), vec!["--user", "stop", "noip-duc.service"]);
    assert_eq!(svc_enable(), vec!["--user", "enable", "noip-duc.service"]);
    assert_eq!(svc_disable(), vec!["--user", "disable", "noip-duc.service"]);
    assert_eq!(daemon_reload(), vec!["--user", "daemon-reload"]);
    assert!(systemctl_outcome(true, "ignored").is_ok());
    assert_eq!(
        systemctl_outcome(false, "  Unit not found.\n").unwrap_err(),
        "Unit not found."
    );
}

#[test]
fn service_files() {
    assert_eq!(
        service_env_content("me", "pw", "a,b"),
        "NOIP_USERNAME=me\nNOIP_PASSWORD=pw\nNOIP_HOSTNAMES=a,b\n"
    );
    let unit = service_unit_content("/home/me/.config/noip-duc/service.env", "/usr/bin/noip-duc");
    assert!(unit.starts_with("[Unit]\nDescription=No-IP Dynamic DNS Update Client\n"));
    assert!(unit.contains("\nEnvironmentFile=/home/me/.config/noip-duc/service.env\nExecStart=/usr/bin/noip-duc\nRestart=on-failure\n"));
    assert!(unit.contains("\nRestartSec=30\n\n# Hardening\nNoNewPrivileges=true\n"));
    assert!(unit.contains("\nCPUQuota=10%%\n\n[Install]\nWantedBy=default.target\n"));
    assert!(unit.ends_with("WantedBy=default.target\n"));
}

fn obj(fields: Vec<(&str, Json)>) -> Json {
    Json::Object(fields.into_iter().map(|(k, v)| (k.to_string(), v)).collect())
}

#[test]
fn host_listings() {
    let top = Json::Array(vec![
        Json::Str("a.ddns.net".into()),
        obj(vec![("hostname", Json::Str("b.ddns.net".into()))]),
        obj(vec![("host", Json::Number), ("name", Json::Str("skipped".into()))]),
        obj(vec![("fqdn", Json::Str("c.ddns.net".into()))]),
        Json::Null,
    ]);
    assert_eq!(parse_hosts(&top).unwrap(), vec!["a.ddns.net", "b.ddns.net", "c.ddns.net"]);
    if let Json::Array(items) = &top {
        assert_eq!(names_from(items).len(), 3);
    }
    let wrapped = obj(vec![
        ("records", Json::Array(vec![Json::Bool(true)])),
        ("data", Json::Array(vec![obj(vec![("name", Json::Str("d.ddns.net".into()))])])),
        ("hosts", Json::Array(vec![Json::Str("e".into())])),
    ]);
    assert_eq!(parse_hosts(&wrapped).unwrap(), vec!["d.ddns.net"]);
    assert!(parse_hosts(&Json::Array(vec![])).is_none());
    assert!(parse_hosts(&obj(vec![("other", Json::Array(vec![Json::Str("x".into())]))])).is_none());
}

#[test]
fn host_listing_replies() {
    assert_eq!(
        hosts_reply(401, "401 Unauthorized", None).unwrap_err(),
        "Invalid API key \u{2014} generate one at my.noip.com/auth/api-keys"
    );
    assert_eq!(
        hosts_reply(500, "500 Internal Server Error", None).unwrap_err(),
        "API error HTTP 500 Internal Server Error"
    );
    assert_eq!(hosts_reply(200, "200 OK", None).unwrap_err(), "No hosts found");
    let doc = Json::Array(vec![Json::Str("a".into())]);
    assert_eq!(hosts_reply(200, "200 OK", Some(&doc)).unwrap(), vec!["a"]);
    let f = FetchResult::Hosts(vec!["a".into()]);
    assert!(matches!(f, FetchResult::Hosts(v) if v.len() == 1));
}

#[test]
fn clock_texts() {
    assert_eq!(format_clock(7, 5, 9), "07:05:09");
    assert_eq!(format_clock(23, 59, 10), "23:59:10");
    assert_eq!(utc_clock(86_400 * 3 + 3600 * 13 + 60 * 4 + 2), "13:04:02");
    assert_eq!(utc_clock(0), "00:00:00");
}

#[test]
fn text_helpers() {
    assert_eq!(decimal_u64(0), "0");
    assert_eq!(decimal_u64(18446744073709551615), "18446744073709551615");
    assert_eq!(trim_text(" \t x y \n"), "x y");
    assert_eq!(compare_text("a", "b"), TextOrder::Less);
    assert_eq!(compare_text("ab", "a"), TextOrder::Greater);
    assert_eq!(compare_text("é", "z"), TextOrder::Greater);
    assert_eq!(compare_text("x", "x"), TextOrder::Equal);
}

#[test]
fn daemon_ids_are_numbers_else_names() {
    assert_eq!(daemon_id("1000"), DaemonId::Id(1000));
    assert_eq!(daemon_id("+7"), DaemonId::Id(7));
    assert_eq!(daemon_id("007"), DaemonId::Id(7));
    assert_eq!(daemon_id("4294967295"), DaemonId::Id(u32::MAX));
    assert_eq!(daemon_id("4294967296"), DaemonId::Name("4294967296".to_string()));
    assert_eq!(daemon_id("nobody"), DaemonId::Name("nobody".to_string()));
    assert_eq!(daemon_id("12a"), DaemonId::Name("12a".to_string()));
    assert_eq!(daemon_id("+"), DaemonId::Name("+".to_string()));
    assert_eq!(daemon_id(""), DaemonId::Name(String::new()));
    assert_eq!(daemon_id("-1"), DaemonId::Name("-1".to_string()));
    for s in ["0", "+12", "99999999999", "x1", " 1"] {
        let expected = match s.parse::<u32>() {
            Ok(v) => DaemonId::Id(v),
            Err(_) => DaemonId::Name(s.to_string()),
        };
        assert_eq!(daemon_id(s), expected);
    }
}

#[test]
fn legacy_secrets_are_read_as_text_members() {
    let doc = Json::Object(vec![
        ("username".to_string(), Json::Str("me".to_string())),
        ("password".to_string(), Json::Str("old secret".to_string())),
        ("api_key".to_string(), Json::Number),
    ]);
    assert_eq!(text_member(&doc, "password"), "old secret");
    assert_eq!(text_member(&doc, "api_key"), "");
    assert_eq!(text_member(&doc, "missing"), "");
    assert_eq!(text_member(&Json::Str("password".to_string()), "password"), "");
}

#[test]
fn oversized_durations_are_refused() {
    assert!(duration_in_range("5m"));
    assert!(duration_in_range("499999999999s"));
    assert!(!duration_in_range("500000000000s"));
    assert!(duration_in_range("1.5h 30m"));
    assert!(!duration_in_range("18446744073709551615s 1000ms"));
    assert!(!duration_in_range("18446744073 709551615s 1000000000ns"));
    assert!(!duration_in_range("18446744073 709551615s 500ms 500ms"));
    assert!(duration_in_range("1 000s"));
    assert_eq!(
        parse_duration_arg("18446744073 709551615s 500ms 500ms"),
        Err(DURATION_TOO_LARGE.to_string())
    );
    assert_eq!(parse_duration_arg("1 000s").unwrap(), Interval::from_secs(1000));
    assert_eq!(
        parse_duration_arg("18446744073709551615s 1000ms"),
        Err(DURATION_TOO_LARGE.to_string())
    );
    assert_eq!(parse_duration_arg("100000000000ns").unwrap(), Interval::from_secs(100));
    assert_eq!(parse_duration_arg("1.5h").unwrap(), Interval::from_secs(5400));
}

#[test]
fn listings_are_read_from_the_reply_text() {
    assert_eq!(
        hosts_in_text(r#"["a.ddns.net", {"hostname": "b.ddns.net"}, 3]"#).unwrap(),
        vec!["a.ddns.net", "b.ddns.net"]
    );
    assert_eq!(
        hosts_in_text(r#"{"data": [{"fqdn": "c.ddns.net", "id": 7}]}"#).unwrap(),
        vec!["c.ddns.net"]
    );
    assert!(hosts_in_text("not json").is_none());
    assert!(hosts_in_text("[]").is_none());
    assert_eq!(
        hosts_from_reply(200, "200 OK", r#"{"hosts": ["x.ddns.net"]}"#).unwrap(),
        vec!["x.ddns.net"]
    );
    assert_eq!(hosts_from_reply(200, "200 OK", "<html>").unwrap_err(), "No hosts found");
    assert_eq!(
        hosts_from_reply(401, "401 Unauthorized", "").unwrap_err(),
        "Invalid API key \u{2014} generate one at my.noip.com/auth/api-keys"
    );
    assert_eq!(
        hosts_from_reply(503, "503 Service Unavailable", "").unwrap_err(),
        "API error HTTP 503 Service Unavailable"
    );
}

#[test]
fn legacy_secrets_are_read_from_the_settings_text() {
    let (pw, key) = legacy_secrets(r#"{"username": "me", "password": "old", "api_key": "k1"}"#);
    assert_eq!(pw, "old");
    assert_eq!(key, "k1");
    let (pw, key) = legacy_secrets(r#"{"username": "me", "password": 5}"#);
    assert_eq!(pw, "");
    assert_eq!(key, "");
    assert_eq!(legacy_secrets("{"), (String::new(), String::new()));
}

#[test]
fn selected_hosts_come_in_name_order() {
    let mut cfg = AppConfig::empty();
    cfg.hosts.set("b".to_string(), true);
    cfg.hosts.set("a".to_string(), true);
    cfg.hosts.set("c".to_string(), false);
    assert_eq!(cfg.selected_hosts(), vec!["a", "b"]);
}
