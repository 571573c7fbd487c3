use std::time::Duration;

use proxy_tunnels::bootstrap::{
    bind_address, Bootstrap, BootstrapEvent, BootstrapStage, HandshakeOutcome,
};
use proxy_tunnels::config::Http3TunnelSpec;
use proxy_tunnels::credentials::Http3ProxyCredentials;
use proxy_tunnels::dial::{Dial, DialEvent, DialStage};
use proxy_tunnels::error::TunnelError;
use proxy_tunnels::outside::IpFamily;
use proxy_tunnels::provider::{Http3TunnelProvider, ProxyEndpoint, MAX_STREAMS};
use proxy_tunnels::sessions::{Admission, Sessions};

fn profile(host: &str) -> Http3TunnelSpec {
    Http3TunnelSpec {
        proxy_config_id: "h3-fixture".into(),
        revision: "1".into(),
        host: host.into(),
        port: 4433,
        credentials: Some(
            Http3ProxyCredentials::new("fixture".into(), "fixture-only".into()).unwrap(),
        ),
        request_timeout: Duration::from_secs(3),
    }
}

fn provider(host: &str) -> Http3TunnelProvider {
    Http3TunnelProvider::new(profile(host)).unwrap()
}

fn failure(detail: &str) -> TunnelError {
    TunnelError::Http3Connect {
        host: "proxy.example".into(),
        port: 4433,
        detail: detail.into(),
    }
}

fn dial(events: Vec<DialEvent>) -> (Dial, bool) {
    let mut dial = provider("proxy.example")
        .dial("destination.invalid", 563, false)
        .unwrap();
    let mut retire = false;
    for event in events {
        retire |= dial.step(event);
    }
    (dial, retire)
}

fn dial_error(events: Vec<DialEvent>) -> TunnelError {
    dial(events).0.into_error().unwrap()
}

fn way(host: &str, events: &[BootstrapEvent]) -> Bootstrap {
    let mut way = Bootstrap::begin(&provider(host));
    for event in events {
        way.step(*event);
    }
    way
}

fn way_error(events: &[BootstrapEvent]) -> TunnelError {
    way("proxy.example", events).into_error().unwrap()
}

#[test]
fn providers_need_a_valid_configuration_and_roots() {
    assert!(Http3TunnelProvider::new(profile("[::1]")).is_ok());
    let refused = |made: Result<Http3TunnelProvider, TunnelError>| made.err().unwrap();
    assert_eq!(
        refused(Http3TunnelProvider::new(profile("a/b"))),
        TunnelError::Configuration("invalid HTTP/3 tunnel host or port".into())
    );
    assert_eq!(
        refused(Http3TunnelProvider::with_root_certificates(
            profile("proxy.example"),
            rustls::RootCertStore::empty()
        )),
        TunnelError::Configuration("HTTP/3 proxy trust store is empty".into())
    );
    let mut late = profile("proxy.example");
    late.request_timeout = Duration::from_secs(301);
    assert_eq!(
        refused(Http3TunnelProvider::with_root_certificates(
            late,
            rustls::RootCertStore::empty()
        )),
        TunnelError::Configuration(
            "HTTP/3 request timeout must be within (0, 300] seconds".into()
        )
    );
    let mut roots = rustls::RootCertStore::empty();
    roots.roots.push(webpki_roots::TLS_SERVER_ROOTS[0].clone());
    assert!(Http3TunnelProvider::with_root_certificates(profile("proxy.example"), roots).is_ok());
}

#[test]
fn providers_describe_their_proxy() {
    let made = provider("proxy.example");
    assert_eq!(made.describe(), "HTTP/3 CONNECT proxy at proxy.example:4433");
    assert_eq!(made.connect_error("detail"), failure("detail"));
    assert_eq!(made.specification().host, "proxy.example");
    assert_eq!(made.endpoint().tls_error(), TunnelError::Http3Tls {
        host: "proxy.example".into(),
        port: 4433,
    });
}

#[test]
fn connections_have_the_stated_limits() {
    let text = format!("{:?}", provider("proxy.example").client_config());
    for limit in [
        "stream_receive_window: 2097152",
        "receive_window: 33554432",
        "send_window: 33554432",
        "max_concurrent_bidi_streams: 0",
        "max_concurrent_uni_streams: 16",
        "keep_alive_interval: Some(15s)",
        "max_idle_timeout: Some(90000)",
    ] {
        assert!(text.contains(limit), "{limit} in {text}");
    }
}

#[test]
fn requests_carry_the_authority_and_the_credentials() {
    let made = provider("proxy.example");
    let dial = made.dial("2001:db8::123", 563, false).unwrap();
    let request = made.connect_request(&dial).unwrap();
    assert_eq!(request.method(), http::Method::CONNECT);
    assert_eq!(request.version(), http::Version::HTTP_3);
    assert!(request.uri().scheme().is_none());
    assert!(request.uri().path_and_query().is_none());
    assert_eq!(
        request.uri().authority().unwrap().as_str(),
        "[2001:db8::123]:563"
    );
    assert_eq!(request.headers().len(), 1);
    let value = request
        .headers()
        .get(http::header::PROXY_AUTHORIZATION)
        .unwrap();
    assert_eq!(value.as_bytes(), b"Basic Zml4dHVyZTpmaXh0dXJlLW9ubHk=");
    assert!(value.is_sensitive());
}

#[test]
fn requests_without_credentials_carry_no_fields() {
    let mut spec = profile("proxy.example");
    spec.credentials = None;
    let made = Http3TunnelProvider::new(spec).unwrap();
    let dial = made
        .dial("never-resolve-locally.invalid", 563, false)
        .unwrap();
    let request = made.connect_request(&dial).unwrap();
    assert_eq!(request.method(), http::Method::CONNECT);
    assert_eq!(request.version(), http::Version::HTTP_3);
    assert_eq!(
        request.uri().to_string(),
        "never-resolve-locally.invalid:563"
    );
    assert!(request.headers().is_empty());
}

#[test]
fn bad_destinations_and_stopped_providers_are_refused_at_once() {
    let made = provider("proxy.example");
    assert_eq!(
        made.dial("user@example.org", 563, true).err(),
        Some(TunnelError::Configuration(
            "invalid HTTP/3 tunnel host or port".into()
        ))
    );
    assert_eq!(
        made.dial("destination.invalid", 563, true).err(),
        Some(failure("provider stopped"))
    );
}

#[test]
fn a_dial_goes_step_by_step() {
    let (mut dial, _) = dial(vec![]);
    assert!(matches!(dial.current(), DialStage::Acquire));
    dial.step(DialEvent::Answered(Some(200)));
    assert!(matches!(dial.current(), DialStage::Acquire));
    dial.step(DialEvent::Admitted(true));
    assert!(matches!(dial.current(), DialStage::Session));
    dial.step(DialEvent::Session(Ok(())));
    assert!(matches!(dial.current(), DialStage::Send));
    assert!(!dial.step(DialEvent::Sent(true)));
    assert!(matches!(dial.current(), DialStage::Await));
    dial.step(DialEvent::Answered(Some(200)));
    assert!(matches!(dial.current(), DialStage::Open));
    dial.step(DialEvent::Opened(true));
    assert!(matches!(dial.current(), DialStage::Connected));
    dial.step(DialEvent::Stopped);
    assert!(matches!(dial.current(), DialStage::Connected));
    assert_eq!(dial.into_error(), None);
}

#[test]
fn refusals_end_a_dial_with_their_status() {
    for status in [407u16, 302, 403, 502, 199, 300] {
        let error = dial_error(vec![
            DialEvent::Admitted(true),
            DialEvent::Session(Ok(())),
            DialEvent::Sent(true),
            DialEvent::Answered(Some(status)),
            DialEvent::Answered(Some(200)),
            DialEvent::Opened(true),
        ]);
        assert_eq!(error, TunnelError::Http3ProxyStatus { status });
    }
}

#[test]
fn failed_steps_end_a_dial() {
    assert_eq!(
        dial_error(vec![DialEvent::Admitted(false)]),
        failure("provider stopped")
    );
    let cause = TunnelError::Http3Tls {
        host: "proxy.example".into(),
        port: 4433,
    };
    assert_eq!(
        dial_error(vec![
            DialEvent::Admitted(true),
            DialEvent::Session(Err(cause.clone()))
        ]),
        cause
    );
    assert_eq!(
        dial_error(vec![
            DialEvent::Admitted(true),
            DialEvent::Session(Ok(())),
            DialEvent::Sent(true),
            DialEvent::Answered(None)
        ]),
        failure("invalid or interrupted CONNECT response")
    );
    assert_eq!(
        dial_error(vec![
            DialEvent::Admitted(true),
            DialEvent::Session(Ok(())),
            DialEvent::Sent(true),
            DialEvent::Answered(Some(204)),
            DialEvent::Opened(false)
        ]),
        failure("provider stopped")
    );
}

#[test]
fn a_session_without_new_streams_is_retired() {
    let (dial, retire) = dial(vec![
        DialEvent::Admitted(true),
        DialEvent::Session(Ok(())),
        DialEvent::Sent(false),
    ]);
    assert!(retire);
    assert_eq!(
        dial.into_error(),
        Some(failure("HTTP/3 connection cannot open a new stream"))
    );
}

#[test]
fn stop_and_deadline_end_a_dial_at_any_step() {
    assert_eq!(
        dial_error(vec![DialEvent::Stopped]),
        failure("provider stopped")
    );
    assert_eq!(
        dial_error(vec![
            DialEvent::Admitted(true),
            DialEvent::Session(Ok(())),
            DialEvent::Sent(true),
            DialEvent::TimedOut,
            DialEvent::Answered(Some(200))
        ]),
        failure("HTTP/3 dial deadline exceeded")
    );
}

#[test]
fn addresses_are_not_looked_up() {
    let literal = way("[::1]", &[BootstrapEvent::Selected(Admission::Connect)]);
    assert_eq!(literal.server_name(), "::1");
    assert!(literal.is_literal());
    assert!(matches!(
        literal.current(),
        BootstrapStage::Bind { index: 0, count: 1 }
    ));
    let literal = way("127.0.0.1", &[BootstrapEvent::Selected(Admission::Connect)]);
    assert!(matches!(
        literal.current(),
        BootstrapStage::Bind { index: 0, count: 1 }
    ));
    let named = way(
        "[proxy.example]",
        &[BootstrapEvent::Selected(Admission::Connect)],
    );
    assert_eq!(named.server_name(), "proxy.example");
    assert!(!named.is_literal());
    assert!(matches!(named.current(), BootstrapStage::Lookup));
    assert_eq!(bind_address(true), "0.0.0.0:0");
    assert_eq!(bind_address(false), "[::]:0");
}

#[test]
fn a_usable_session_is_reused() {
    let reuse = way("proxy.example", &[BootstrapEvent::Selected(Admission::Reuse)]);
    assert!(matches!(reuse.current(), BootstrapStage::Reuse));
    assert_eq!(
        way_error(&[BootstrapEvent::Selected(Admission::LimitReached)]),
        failure("HTTP/3 draining connection limit reached")
    );
}

#[test]
fn lookups_can_fail_or_find_nothing() {
    let connect = BootstrapEvent::Selected(Admission::Connect);
    assert_eq!(
        way_error(&[connect, BootstrapEvent::LookupFailed]),
        failure("proxy endpoint DNS lookup failed")
    );
    assert_eq!(
        way_error(&[connect, BootstrapEvent::Resolved(0)]),
        failure("proxy endpoint has no addresses")
    );
}

#[test]
fn addresses_are_tried_in_turn_and_at_most_eight() {
    let mut way = way(
        "proxy.example",
        &[
            BootstrapEvent::Selected(Admission::Connect),
            BootstrapEvent::Resolved(20),
        ],
    );
    for tried in 0..8usize {
        assert!(
            matches!(way.current(), BootstrapStage::Bind { index, count: 8 } if *index == tried)
        );
        way.step(BootstrapEvent::Bound(true));
        way.step(BootstrapEvent::Started(true));
        let outcome = if tried % 2 == 0 {
            HandshakeOutcome::Failed
        } else {
            HandshakeOutcome::TransportError(0x200)
        };
        way.step(BootstrapEvent::Shaken(outcome));
    }
    assert_eq!(way.into_error(), Some(failure("QUIC handshake failed")));
}

#[test]
fn tls_failures_are_final() {
    for code in [0x100u64, 0x12a, 0x1ff] {
        let error = way_error(&[
            BootstrapEvent::Selected(Admission::Connect),
            BootstrapEvent::Resolved(2),
            BootstrapEvent::Bound(true),
            BootstrapEvent::Started(true),
            BootstrapEvent::Shaken(HandshakeOutcome::TransportError(code)),
            BootstrapEvent::Bound(true),
        ]);
        assert_eq!(
            error,
            TunnelError::Http3Tls {
                host: "proxy.example".into(),
                port: 4433
            }
        );
    }
    let other = way(
        "proxy.example",
        &[
            BootstrapEvent::Selected(Admission::Connect),
            BootstrapEvent::Resolved(2),
            BootstrapEvent::Bound(true),
            BootstrapEvent::Started(true),
            BootstrapEvent::Shaken(HandshakeOutcome::TransportError(0xff)),
        ],
    );
    assert!(matches!(
        other.current(),
        BootstrapStage::Bind { index: 1, count: 2 }
    ));
}

#[test]
fn failed_steps_end_the_way_to_a_session() {
    let start = [
        BootstrapEvent::Selected(Admission::Connect),
        BootstrapEvent::Resolved(1),
    ];
    let after = |more: &[BootstrapEvent]| {
        let mut events = start.to_vec();
        events.extend_from_slice(more);
        way_error(&events)
    };
    assert_eq!(
        after(&[BootstrapEvent::Bound(false)]),
        failure("could not bind QUIC UDP socket")
    );
    assert_eq!(
        after(&[BootstrapEvent::Bound(true), BootstrapEvent::Started(false)]),
        failure("invalid QUIC endpoint configuration")
    );
    let connected = [
        BootstrapEvent::Bound(true),
        BootstrapEvent::Started(true),
        BootstrapEvent::Shaken(HandshakeOutcome::Connected),
    ];
    let mut events = connected.to_vec();
    events.push(BootstrapEvent::Initialized(false));
    assert_eq!(after(&events), failure("HTTP/3 initialization failed"));
    let mut events = connected.to_vec();
    events.push(BootstrapEvent::Initialized(true));
    events.push(BootstrapEvent::Registered(false));
    assert_eq!(after(&events), failure("provider stopped"));
}

#[test]
fn a_registered_session_is_ready() {
    let ready = way(
        "proxy.example",
        &[
            BootstrapEvent::Selected(Admission::Connect),
            BootstrapEvent::Resolved(1),
            BootstrapEvent::Bound(true),
            BootstrapEvent::Started(true),
            BootstrapEvent::Shaken(HandshakeOutcome::Connected),
            BootstrapEvent::Initialized(true),
            BootstrapEvent::Registered(true),
        ],
    );
    assert!(matches!(ready.current(), BootstrapStage::Ready));
    assert_eq!(ready.into_error(), None);
}

#[test]
fn a_session_that_comes_after_a_shutdown_is_refused() {
    let mut sessions: Sessions<u32, u32> = Sessions::new();
    assert!(sessions.drain().is_empty());
    let registered = sessions.register(1, 1, false);
    assert!(!registered);
    assert_eq!(sessions.current_session(), None);
    assert_eq!(
        way_error(&[
            BootstrapEvent::Selected(Admission::Connect),
            BootstrapEvent::Resolved(1),
            BootstrapEvent::Bound(true),
            BootstrapEvent::Started(true),
            BootstrapEvent::Shaken(HandshakeOutcome::Connected),
            BootstrapEvent::Initialized(true),
            BootstrapEvent::Registered(registered),
        ]),
        failure("provider stopped")
    );
}

#[test]
fn the_family_decides_on_the_lookup() {
    let endpoint = || ProxyEndpoint {
        host: "[::1]".into(),
        port: 4433,
    };
    let mut literal = Bootstrap::towards(endpoint(), "::1".into(), Some(IpFamily::V6));
    literal.step(BootstrapEvent::Selected(Admission::Connect));
    assert!(matches!(
        literal.current(),
        BootstrapStage::Bind { index: 0, count: 1 }
    ));
    let mut named = Bootstrap::towards(endpoint(), "name".into(), None);
    named.step(BootstrapEvent::Selected(Admission::Connect));
    assert_eq!(named.server_name(), "name");
    assert!(matches!(named.current(), BootstrapStage::Lookup));
}

#[test]
fn places_are_taken_on_admission_and_given_back() {
    let made = provider("proxy.example");
    let mut free = MAX_STREAMS;
    let mut streams = Vec::new();
    while free > 0 {
        let mut dial = made.dial("destination.invalid", 563, false).unwrap();
        dial.step(DialEvent::Admitted(true));
        free -= 1;
        dial.step(DialEvent::Session(Ok(())));
        dial.step(DialEvent::Sent(true));
        dial.step(DialEvent::Answered(Some(200)));
        dial.step(DialEvent::Opened(true));
        assert!(matches!(dial.current(), DialStage::Connected));
        streams.push(dial);
    }
    assert_eq!(streams.len(), 128);
    let mut waiting = made.dial("destination.invalid", 563, false).unwrap();
    for event in [
        DialEvent::Session(Ok(())),
        DialEvent::Sent(true),
        DialEvent::Answered(Some(200)),
        DialEvent::Opened(true),
    ] {
        waiting.step(event);
        assert!(matches!(waiting.current(), DialStage::Acquire));
    }
    streams.pop();
    free += 1;
    waiting.step(DialEvent::Admitted(true));
    free -= 1;
    assert!(matches!(waiting.current(), DialStage::Session));
    waiting.step(DialEvent::TimedOut);
    assert!(matches!(waiting.current(), DialStage::Failed(_)));
    free += 1;
    assert_eq!(free + streams.len(), MAX_STREAMS);
}
