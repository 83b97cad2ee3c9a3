use noip_duc::update::{
    encode_username, parse_response, query_encode_str, update_request, Interval, UpdateError,
    FOREVER,
};

#[test]
fn good_response_means_changed() {
    assert!(matches!(
        parse_response(200, "OK", "good 192.0.2.1\n"),
        Ok(true)
    ));
}

#[test]
fn nochg_response_means_unchanged() {
    assert!(matches!(
        parse_response(200, "OK", "nochg 192.0.2.1\n"),
        Ok(false)
    ));
}

#[test]
fn nohost_response_maps_to_nohost_error() {
    assert!(matches!(
        parse_response(200, "OK", "nohost"),
        Err(UpdateError::NoHost)
    ));
}

#[test]
fn badauth_body_maps_to_badauth_error() {
    assert!(matches!(
        parse_response(200, "OK", "badauth"),
        Err(UpdateError::BadAuth)
    ));
}

#[test]
fn badagent_response_maps_to_badagent_error() {
    assert!(matches!(
        parse_response(200, "OK", "badagent"),
        Err(UpdateError::BadAgent)
    ));
}

#[test]
fn not_donator_response_maps_to_not_donator_error() {
    assert!(matches!(
        parse_response(200, "OK", "!donator"),
        Err(UpdateError::NotDonator)
    ));
}

#[test]
fn abuse_response_maps_to_abuse_error() {
    assert!(matches!(
        parse_response(200, "OK", "abuse"),
        Err(UpdateError::Abuse)
    ));
}

#[test]
fn server_outage_911_maps_to_nine_one_one() {
    assert!(matches!(
        parse_response(200, "OK", "911"),
        Err(UpdateError::NineOneOne)
    ));
}

#[test]
fn unknown_body_falls_through() {
    match parse_response(200, "OK", "wat") {
        Err(UpdateError::Unknown(s)) => assert_eq!(s, "wat"),
        other => panic!("expected Unknown, got {other:?}"),
    }
}

#[test]
fn http_401_short_circuits_to_badauth_regardless_of_body() {
    assert!(matches!(
        parse_response(401, "Unauthorized", "ignored"),
        Err(UpdateError::BadAuth)
    ));
}

#[test]
fn non_200_non_401_status_propagates_with_reason() {
    match parse_response(503, "Service Unavailable", "") {
        Err(UpdateError::StatusCode(c, r)) => {
            assert_eq!(c, 503);
            assert_eq!(r, "Service Unavailable");
        }
        other => panic!("expected StatusCode, got {other:?}"),
    }
}

#[test]
fn trailing_whitespace_is_stripped_before_match() {
    assert!(matches!(
        parse_response(200, "OK", "abuse\r\n"),
        Err(UpdateError::Abuse)
    ));
}

#[test]
fn permanent_errors_back_off_for_two_weeks() {
    for e in [
        UpdateError::BadAuth,
        UpdateError::BadAgent,
        UpdateError::NoHost,
        UpdateError::NotDonator,
        UpdateError::Abuse,
    ] {
        let d = e.retry_backoff(0, Interval::from_secs(300));
        assert_eq!(
            d,
            Interval::from_secs(FOREVER),
            "{e:?} should back off forever, got {d:?}"
        );
    }
}

#[test]
fn transient_errors_use_base_interval_at_first() {
    let d = UpdateError::Connection("dns".into()).retry_backoff(0, Interval::from_secs(300));
    assert_eq!(d, Interval::from_secs(300));
}

#[test]
fn transient_backoff_grows_with_retries() {
    let e = UpdateError::NineOneOne;
    let base = Interval::new(300, 5);
    assert_eq!(e.retry_backoff(1, base), Interval::new(300, 5));
    assert_eq!(e.retry_backoff(2, base), Interval::new(600, 5));
    assert_eq!(e.retry_backoff(3, base), Interval::new(900, 5));
    assert_eq!(e.retry_backoff(4, base), Interval::new(3900, 5));
    assert_eq!(e.retry_backoff(5, base), Interval::new(86700, 5));
    assert_eq!(e.retry_backoff(255, base), Interval::new(86700, 5));
    assert_eq!(FOREVER, 1_209_600);
}

#[test]
fn permanent_backoff_ignores_retry_and_base() {
    let d = UpdateError::Abuse.retry_backoff(7, Interval::new(5, 9));
    assert_eq!(d, Interval::from_secs(FOREVER));
}

#[test]
fn nochg_without_address_is_unknown() {
    match parse_response(200, "OK", "nochg\n") {
        Err(UpdateError::Unknown(s)) => assert_eq!(s, "nochg"),
        other => panic!("expected Unknown, got {other:?}"),
    }
}

#[test]
fn unicode_trailing_space_is_stripped() {
    assert!(matches!(
        parse_response(200, "OK", "911\u{3000}\u{a0}\t"),
        Err(UpdateError::NineOneOne)
    ));
}

#[test]
fn leading_space_is_kept() {
    match parse_response(200, "OK", " abuse") {
        Err(UpdateError::Unknown(s)) => assert_eq!(s, " abuse"),
        other => panic!("expected Unknown, got {other:?}"),
    }
}

#[test]
fn error_messages() {
    assert_eq!(UpdateError::BadAuth.message(), "Incorrect credentials");
    assert_eq!(
        UpdateError::StatusCode(503, "Service Unavailable".into()).message(),
        "HTTP error 503 Service Unavailable"
    );
    assert_eq!(
        UpdateError::StatusCode(-12, "x".into()).message(),
        "HTTP error -12 x"
    );
    assert_eq!(
        UpdateError::StatusCode(i32::MIN, "y".into()).message(),
        "HTTP error -2147483648 y"
    );
    assert_eq!(
        UpdateError::Unknown("wat".into()).message(),
        "unknown error, received 'wat'"
    );
    assert_eq!(
        UpdateError::Connection("dns".into()).message(),
        "Connection failed, dns"
    );
    assert_eq!(
        UpdateError::NoHost.message(),
        "No host or group was specified. Please create a group with a password to update at https://my.noip.com/dynamic-dns/groups"
    );
}

#[test]
fn username_colons_are_escaped() {
    assert_eq!(encode_username("group:user"), "group%3Auser");
    assert_eq!(encode_username("a::b"), "a%3A%3Ab");
    assert_eq!(encode_username("plain"), "plain");
}

#[test]
fn query_encoding_of_special_and_non_ascii() {
    assert_eq!(query_encode_str("a b\"#<>c"), "a%20b%22%23%3C%3Ec");
    assert_eq!(query_encode_str("\u{7f}\u{1}"), "%7F%01");
    assert_eq!(query_encode_str("é"), "%C3%A9");
    assert_eq!(query_encode_str("2001:db8::1"), "2001:db8::1");
}

#[test]
fn request_without_hostnames() {
    let r = update_request("user", "pass", None, "192.0.2.1");
    assert_eq!(r.url, "https://dynupdate.no-ip.com/nic/update?myip=192.0.2.1");
    assert_eq!(r.authorization, "Basic dXNlcjpwYXNz");
}

#[test]
fn request_with_hostnames_and_escaped_username() {
    let hosts = vec!["a.ddns.net".to_string(), "b c".to_string()];
    let r = update_request("g:u", "p", Some(&hosts), "192.0.2.1");
    assert_eq!(
        r.url,
        "https://dynupdate.no-ip.com/nic/update?myip=192.0.2.1&hostname=a.ddns.net,b%20c"
    );
    // base64("g%3Au:p")
    assert_eq!(r.authorization, "Basic ZyUzQXU6cA==");
    let r = update_request("ab", "", None, "1");
    // base64("ab:")
    assert_eq!(r.authorization, "Basic YWI6");
}
