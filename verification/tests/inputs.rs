use std::time::Duration;

use proxy_tunnels::authority::{authority, authority_for};
use proxy_tunnels::config::{check_timeout, join_configuration, Http3TunnelSpec};
use proxy_tunnels::credentials::Http3ProxyCredentials;
use proxy_tunnels::error::{broken, StreamErrorKind, TunnelError};
use proxy_tunnels::outside::{IpFamily, PUBLIC_ROOTS};
use proxy_tunnels::text::{decimal_text, strip_brackets, trim_brackets};

fn profile() -> Http3TunnelSpec {
    Http3TunnelSpec {
        proxy_config_id: "h3-fixture".into(),
        revision: "1".into(),
        host: "127.0.0.1".into(),
        port: 443,
        credentials: None,
        request_timeout: Duration::from_secs(3),
    }
}

fn refused(text: &str) -> TunnelError {
    TunnelError::Configuration(text.into())
}

#[test]
fn credentials_are_redacted_and_inputs_cannot_inject_authorities() {
    let credentials =
        Http3ProxyCredentials::new("fixture-user".into(), "fixture-secret".into()).unwrap();
    assert!(!credentials.debug_text().contains("fixture-secret"));
    assert!(!format!("{:?}", credentials.header()).contains("Zml4"));
    for invalid in [
        "",
        "bad\r\nhost",
        "https://example.org",
        "user@example.org",
        "example.org:443",
        "example.org/path",
        "example.org?query",
    ] {
        assert!(authority(invalid, 563).is_err(), "{invalid:?}");
    }
    assert!(Http3ProxyCredentials::new("user:other".into(), "test".into()).is_err());
    assert!(authority("example.org", 0).is_err());
}

#[test]
fn debug_text_shows_neither_value() {
    let credentials =
        Http3ProxyCredentials::new("fixture-user".into(), "fixture-secret".into()).unwrap();
    assert_eq!(credentials.debug_text(), "Http3ProxyCredentials(<redacted>)");
}

#[test]
fn header_is_basic_and_sensitive() {
    let credentials = Http3ProxyCredentials::new("fixture".into(), "fixture-only".into()).unwrap();
    let header = credentials.header();
    assert_eq!(header.as_bytes(), b"Basic Zml4dHVyZTpmaXh0dXJlLW9ubHk=");
    assert!(header.is_sensitive());
    let copy = credentials.clone().header();
    assert_eq!(copy.as_bytes(), header.as_bytes());
}

#[test]
fn header_pads_as_the_length_asks() {
    let value = |password: &str| {
        let credentials = Http3ProxyCredentials::new("u".into(), password.into()).unwrap();
        credentials.header().to_str().unwrap().to_string()
    };
    assert_eq!(value(""), "Basic dTo=");
    assert_eq!(value("p"), "Basic dTpw");
    assert_eq!(value("pw"), "Basic dTpwdw==");
    assert_eq!(value("\u{fc}>?"), "Basic dTrDvD4/");
}

#[test]
fn different_credentials_have_different_headers() {
    let pairs = [("a", "b:c"), ("a", "b"), ("ab", ":c"), ("a", ""), ("b", "")];
    let mut seen = Vec::new();
    for (username, password) in pairs {
        let credentials = Http3ProxyCredentials::new(username.into(), password.into()).unwrap();
        let bytes = credentials.header().as_bytes().to_vec();
        assert!(!seen.contains(&bytes));
        seen.push(bytes);
    }
}

#[test]
fn credentials_have_limits() {
    let made = |username: String, password: String| Http3ProxyCredentials::new(username, password);
    assert!(made("u".repeat(255), "p".repeat(4096)).is_ok());
    assert!(made("u".repeat(256), "p".into()).is_err());
    assert!(made("u".into(), "p".repeat(4097)).is_err());
    assert!(made("\u{fc}".repeat(127), "p".into()).is_ok());
    assert!(made("\u{fc}".repeat(128), "p".into()).is_err());
    assert!(made("".into(), "p".into()).is_err());
    assert!(made("u\n".into(), "p".into()).is_err());
    assert!(made("u".into(), "p\u{7f}".into()).is_err());
    assert!(made("u".into(), "p\u{9f}".into()).is_err());
    assert!(made("u".into(), "p\u{a0}:".into()).is_ok());
    assert_eq!(
        made("u:".into(), "p".into()).err(),
        Some(refused("invalid HTTP/3 proxy credentials"))
    );
}

#[test]
fn authorities_name_the_destination() {
    let text = |host: &str, port: u16| authority(host, port).unwrap().as_str().to_string();
    assert_eq!(
        text("never-resolve-locally.invalid", 563),
        "never-resolve-locally.invalid:563"
    );
    assert_eq!(text("2001:db8::123", 563), "[2001:db8::123]:563");
    assert_eq!(text("[2001:db8::123]", 563), "[2001:db8::123]:563");
    assert_eq!(text("::ffff:192.0.2.1", 1), "[::ffff:192.0.2.1]:1");
    assert_eq!(text("1:2:3:4:5:6:7::", 443), "[1:2:3:4:5:6:7::]:443");
    assert_eq!(text("127.0.0.1", 65535), "127.0.0.1:65535");
    assert_eq!(text("[example.org]", 80), "example.org:80");
    assert_eq!(text("a_b-c.D9", 10), "a_b-c.D9:10");
    assert_eq!(text("-", 1), "-:1");
    assert_eq!(text(&"a".repeat(253), 443), format!("{}:443", "a".repeat(253)));
}

#[test]
fn other_hosts_are_refused() {
    let long = "a".repeat(254);
    for host in [
        "[]",
        "[[::1]]",
        "[::1",
        "::1]",
        "::1%eth0",
        "1:2:3:4:5:6:7:8:9",
        "b\u{fc}cher.example",
        "a b",
        "a%20b",
        long.as_str(),
    ] {
        assert_eq!(
            authority(host, 443).err(),
            Some(refused("invalid HTTP/3 tunnel host or port")),
            "{host:?}"
        );
    }
}

#[test]
fn configurations_are_checked() {
    assert!(profile().validate().is_ok());
    let mut spec = profile();
    spec.host = "user@example.org".into();
    spec.request_timeout = Duration::ZERO;
    assert_eq!(
        spec.validate(),
        Err(refused("invalid HTTP/3 tunnel host or port"))
    );
    let timeout_fault = refused("HTTP/3 request timeout must be within (0, 300] seconds");
    for (timeout, accepted) in [
        (Duration::ZERO, false),
        (Duration::from_nanos(1), true),
        (Duration::from_secs(300), true),
        (Duration::new(300, 1), false),
        (Duration::MAX, false),
    ] {
        let mut spec = profile();
        spec.request_timeout = timeout;
        if accepted {
            assert_eq!(spec.validate(), Ok(()));
        } else {
            assert_eq!(spec.validate(), Err(timeout_fault.clone()));
        }
    }
    let mut spec = profile();
    spec.port = 0;
    assert!(spec.validate().is_err());
}

#[test]
fn a_copied_configuration_is_the_same() {
    let mut spec = profile();
    spec.credentials =
        Some(Http3ProxyCredentials::new("fixture".into(), "fixture-only".into()).unwrap());
    let copy = spec.clone();
    assert_eq!(copy.proxy_config_id, "h3-fixture");
    assert_eq!(copy.revision, "1");
    assert_eq!(copy.host, "127.0.0.1");
    assert_eq!(copy.port, 443);
    assert_eq!(copy.request_timeout, Duration::from_secs(3));
    assert_eq!(
        copy.credentials.unwrap().header(),
        spec.credentials.unwrap().header()
    );
}

#[test]
fn brackets_and_numbers() {
    assert_eq!(strip_brackets("[a]"), "a");
    assert_eq!(strip_brackets("["), "[");
    assert_eq!(strip_brackets("[[a]]"), "[a]");
    assert_eq!(trim_brackets("[[a]]"), "a");
    assert_eq!(trim_brackets("[[a"), "a");
    assert_eq!(trim_brackets("[]]"), "");
    for n in [0u16, 7, 10, 99, 563, 65535] {
        assert_eq!(decimal_text(n), n.to_string());
    }
}

#[test]
fn broken_streams_are_resets() {
    let error = broken();
    assert_eq!(error.kind, StreamErrorKind::ConnectionReset);
    assert_eq!(error.message, "HTTP/3 tunnel stream closed or reset");
}

#[test]
fn a_shown_configuration_redacts_the_credentials() {
    let mut spec = profile();
    spec.revision = "a\"b\n".into();
    spec.request_timeout = Duration::from_millis(1500);
    assert_eq!(
        spec.debug_text(),
        "Http3TunnelSpec { proxy_config_id: \"h3-fixture\", revision: \"a\\\"b\\n\", \
         host: \"127.0.0.1\", port: 443, credentials: None, request_timeout: 1.5s }"
    );
    let shown = |username: &str, password: &str| {
        let mut spec = profile();
        spec.credentials =
            Some(Http3ProxyCredentials::new(username.into(), password.into()).unwrap());
        spec.debug_text()
    };
    assert_eq!(
        shown("fixture-user", "fixture-secret"),
        "Http3TunnelSpec { proxy_config_id: \"h3-fixture\", revision: \"1\", \
         host: \"127.0.0.1\", port: 443, \
         credentials: Some(Http3ProxyCredentials(<redacted>)), request_timeout: 3s }"
    );
    assert_eq!(shown("fixture-user", "fixture-secret"), shown("u", ""));
}

#[test]
fn shown_parts_are_joined_in_order() {
    assert_eq!(
        join_configuration("a", "b", "c", 7, true, "d"),
        "Http3TunnelSpec { proxy_config_id: a, revision: b, host: c, port: 7, \
         credentials: Some(Http3ProxyCredentials(<redacted>)), request_timeout: d }"
    );
}

#[test]
fn the_family_decides_on_brackets() {
    let text = |host: &str, family: Option<IpFamily>| {
        authority_for(host, family, 563).map(|made| made.as_str().to_string())
    };
    assert_eq!(text("::1", Some(IpFamily::V6)), Ok("[::1]:563".into()));
    assert_eq!(text("192.0.2.1", Some(IpFamily::V4)), Ok("192.0.2.1:563".into()));
    assert_eq!(text("example.org", None), Ok("example.org:563".into()));
    assert_eq!(
        text("::1", None),
        Err(refused("invalid HTTP/3 tunnel host or port"))
    );
    assert_eq!(
        text("", Some(IpFamily::V6)),
        Err(refused("invalid HTTP/3 tunnel host or port"))
    );
    assert_eq!(
        text("a b", Some(IpFamily::V4)),
        Err(refused("invalid CONNECT authority"))
    );
}

#[test]
fn timeouts_are_checked_by_the_nanosecond() {
    let fault = refused("HTTP/3 request timeout must be within (0, 300] seconds");
    assert_eq!(check_timeout(0), Err(fault.clone()));
    assert_eq!(check_timeout(1), Ok(()));
    assert_eq!(check_timeout(300_000_000_000), Ok(()));
    assert_eq!(check_timeout(300_000_000_001), Err(fault));
}

#[test]
fn the_public_root_table_has_the_stated_length() {
    assert_eq!(webpki_roots::TLS_SERVER_ROOTS.len(), PUBLIC_ROOTS);
}
