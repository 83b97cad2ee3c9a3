use noip_duc::hostnames::{is_hostname, is_label, is_rr_label, parse_hostnames};

#[test]
fn is_rr_label_good() {
    for s in ["SERVER-1", "SERVER_1", "_TEST", "_test", "test-"] {
        assert!(is_rr_label(s), r#"input="{s}""#);
    }
}

#[test]
fn is_rr_label_bad() {
    for s in ["SERVER 1", "-test", "^TEST", "te&st", "te|t"] {
        assert!(!is_rr_label(s), r#"input="{s}""#);
    }
}

#[test]
fn is_hostname_good() {
    for s in ["h", "h.test", "h.example.com", "h.example.com@test"] {
        assert!(is_hostname(s), r#"input="{s}""#);
    }
}

#[test]
fn is_hostname_bad() {
    for s in [
        " ",
        "h test",
        "h.example com",
        "h.example.com@-test",
        "h.example.com^test",
    ] {
        assert!(!is_hostname(s), r#"input="{s}""#);
    }
}

#[test]
fn labels() {
    assert!(is_label("a-b"));
    assert!(!is_label(""));
    assert!(!is_label("-a"));
    assert!(!is_label("a-"));
    assert!(!is_label("a_b"));
    assert!(!is_hostname("a..b"));
    assert!(!is_hostname("h@t@u"));
    assert!(!is_hostname("h@"));
}

#[test]
fn at_most_63_labels() {
    let ok = vec!["a"; 63].join(".");
    let too_many = vec!["a"; 64].join(".");
    assert!(is_hostname(&ok));
    assert!(!is_hostname(&too_many));
}

#[test]
fn parse_hostnames_trims_and_keeps_groups() {
    let v = parse_hostnames(" a.ddns.net , Group1,b.example.com@rr_1 ").unwrap();
    assert_eq!(v, vec!["a.ddns.net", "Group1", "b.example.com@rr_1"]);
    // An empty piece is an (empty) group name.
    let v = parse_hostnames("a,,b").unwrap();
    assert_eq!(v, vec!["a", "", "b"]);
}

#[test]
fn parse_hostnames_refuses_first_invalid_entry() {
    let e = parse_hostnames("ok.example.com,bad host,-x").unwrap_err();
    assert_eq!(
        e,
        "invalid hostname bad host. Hostnames must be a comma separated list of hostnames and group names."
    );
}

#[test]
fn parse_hostnames_refuses_long_lists() {
    let long = "a".repeat(4000);
    assert_eq!(parse_hostnames(&long).unwrap_err(), "hostnames too long");
    let almost = "a".repeat(3999);
    assert_eq!(parse_hostnames(&almost).unwrap(), vec![almost.clone()]);
    // The limit counts bytes: 2000 two-byte characters reach it.
    let wide = "é".repeat(2000);
    assert_eq!(parse_hostnames(&wide).unwrap_err(), "hostnames too long");
}

#[test]
fn joined_hostnames_read_back() {
    let names = vec!["a.ddns.net".to_string(), "grp".to_string(), "x.y@z".to_string()];
    assert_eq!(parse_hostnames(&names.join(",")).unwrap(), names);
}
