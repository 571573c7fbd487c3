//! How a dial comes by a session: reuse one, or connect to the proxy.
use vstd::prelude::*;

use crate::authority::accepted_host_has_at_most_one_bracket_pair;
use crate::error::{TunnelError, TunnelErrorView};
use crate::outside::{ip_family, parse_ip, IpFamily};
use crate::provider::{Http3TunnelProvider, ProxyEndpoint};
use crate::sessions::{
    sessions_are_bounded_and_current_is_kept, sessions_next, sessions_run,
    stopped_provider_takes_no_session, Admission, SessionsOp,
};
use crate::text::{strip_brackets_spec, trim_brackets, trim_brackets_spec};

verus! {

/// Addresses of the proxy that are tried.
pub const MAX_ADDRESSES: usize = 8;

/// How a QUIC handshake ended.
#[derive(Clone, Copy, Debug, PartialEq, Eq, Structural)]
pub enum HandshakeOutcome {
    Connected,
    /// The transport reported an error with this code.
    TransportError(u64),
    /// It failed in some other way.
    Failed,
}

/// Whether a QUIC transport error code stands for a TLS alert.
pub open spec fn is_tls_alert(code: u64) -> bool {
    0x100 <= code <= 0x1ff
}

/// Whether the handshake failed because of TLS, such as an untrusted certificate.
pub open spec fn is_tls_failure(outcome: HandshakeOutcome) -> bool {
    outcome matches HandshakeOutcome::TransportError(code) && is_tls_alert(code)
}

/// What happened to the step that was outstanding.
#[derive(Clone, Copy, Debug, PartialEq, Eq, Structural)]
pub enum BootstrapEvent {
    /// The sessions were looked at.
    Selected(Admission),
    /// The proxy's name was looked up, with this many addresses.
    Resolved(usize),
    /// The proxy's name could not be looked up.
    LookupFailed,
    /// A UDP socket was bound, or not.
    Bound(bool),
    /// A connection was started, or its configuration was refused.
    Started(bool),
    /// The handshake ended.
    Shaken(HandshakeOutcome),
    /// HTTP/3 was set up on the connection, or not.
    Initialized(bool),
    /// The session was taken on, or refused because the provider is stopped.
    Registered(bool),
}

/// Where the way to a session stands, and so what to do next. `index` counts the addresses that
/// failed so far, out of `count`.
pub enum BootstrapStage {
    /// Look at the sessions.
    Select,
    /// Use the current session.
    Reuse,
    /// Look up the proxy's name.
    Lookup,
    /// Bind a UDP socket for the address at `index`.
    Bind { index: usize, count: usize },
    /// Start a connection to the address at `index`.
    Start { index: usize, count: usize },
    /// Wait for the handshake with the address at `index`.
    Handshake { index: usize, count: usize },
    /// Set up HTTP/3 on the connection.
    Initialize,
    /// Take on the session.
    Register,
    /// Use the new session.
    Ready,
    /// Report the error.
    Failed(TunnelError),
}

/// The mathematical value of a [`BootstrapStage`].
pub enum BootstrapStageView {
    Select,
    Reuse,
    Lookup,
    Bind { index: nat, count: nat },
    Start { index: nat, count: nat },
    Handshake { index: nat, count: nat },
    Initialize,
    Register,
    Ready,
    Failed(TunnelErrorView),
}

impl View for BootstrapStage {
    type V = BootstrapStageView;

    open spec fn view(&self) -> BootstrapStageView {
        match *self {
            BootstrapStage::Select => BootstrapStageView::Select,
            BootstrapStage::Reuse => BootstrapStageView::Reuse,
            BootstrapStage::Lookup => BootstrapStageView::Lookup,
            BootstrapStage::Bind { index, count } => BootstrapStageView::Bind {
                index: index as nat,
                count: count as nat,
            },
            BootstrapStage::Start { index, count } => BootstrapStageView::Start {
                index: index as nat,
                count: count as nat,
            },
            BootstrapStage::Handshake { index, count } => BootstrapStageView::Handshake {
                index: index as nat,
                count: count as nat,
            },
            BootstrapStage::Initialize => BootstrapStageView::Initialize,
            BootstrapStage::Register => BootstrapStageView::Register,
            BootstrapStage::Ready => BootstrapStageView::Ready,
            BootstrapStage::Failed(error) => BootstrapStageView::Failed(error@),
        }
    }
}

/// The proxy as the way to a session sees it: the host and the port that errors name, and whether
/// the host is an IP address, so that there is nothing to look up.
pub struct ProxyView {
    pub host: Seq<char>,
    pub port: u16,
    pub literal: bool,
}

/// The stage after a step failed.
pub open spec fn failed_step(proxy: ProxyView, detail: Seq<char>) -> BootstrapStageView {
    BootstrapStageView::Failed(
        TunnelErrorView::Http3Connect { host: proxy.host, port: proxy.port, detail },
    )
}

/// The stage that follows `stage` on `event`. An event that does not answer the outstanding step
/// changes nothing.
pub open spec fn bootstrap_next(
    proxy: ProxyView,
    stage: BootstrapStageView,
    event: BootstrapEvent,
) -> BootstrapStageView {
    match (stage, event) {
        (BootstrapStageView::Select, BootstrapEvent::Selected(admission)) => match admission {
            Admission::Reuse => BootstrapStageView::Reuse,
            Admission::LimitReached => failed_step(
                proxy,
                "HTTP/3 draining connection limit reached"@,
            ),
            Admission::Connect => if proxy.literal {
                BootstrapStageView::Bind { index: 0, count: 1 }
            } else {
                BootstrapStageView::Lookup
            },
        },
        (BootstrapStageView::Lookup, BootstrapEvent::Resolved(found)) => if found == 0 {
            failed_step(proxy, "proxy endpoint has no addresses"@)
        } else {
            BootstrapStageView::Bind {
                index: 0,
                count: if found <= MAX_ADDRESSES {
                    found as nat
                } else {
                    MAX_ADDRESSES as nat
                },
            }
        },
        (BootstrapStageView::Lookup, BootstrapEvent::LookupFailed) => failed_step(
            proxy,
            "proxy endpoint DNS lookup failed"@,
        ),
        (BootstrapStageView::Bind { index, count }, BootstrapEvent::Bound(bound)) => if bound {
            BootstrapStageView::Start { index, count }
        } else {
            failed_step(proxy, "could not bind QUIC UDP socket"@)
        },
        (BootstrapStageView::Start { index, count }, BootstrapEvent::Started(started)) => if started {
            BootstrapStageView::Handshake { index, count }
        } else {
            failed_step(proxy, "invalid QUIC endpoint configuration"@)
        },
        (
            BootstrapStageView::Handshake { index, count },
            BootstrapEvent::Shaken(outcome),
        ) => if outcome == HandshakeOutcome::Connected {
            BootstrapStageView::Initialize
        } else if is_tls_failure(outcome) {
            BootstrapStageView::Failed(
                TunnelErrorView::Http3Tls { host: proxy.host, port: proxy.port },
            )
        } else if index + 1 < count {
            BootstrapStageView::Bind { index: index + 1, count }
        } else {
            failed_step(proxy, "QUIC handshake failed"@)
        },
        (BootstrapStageView::Initialize, BootstrapEvent::Initialized(done)) => if done {
            BootstrapStageView::Register
        } else {
            failed_step(proxy, "HTTP/3 initialization failed"@)
        },
        (BootstrapStageView::Register, BootstrapEvent::Registered(registered)) => if registered {
            BootstrapStageView::Ready
        } else {
            failed_step(proxy, "provider stopped"@)
        },
        _ => stage,
    }
}

/// The stage after a series of events.
pub open spec fn bootstrap_run(
    proxy: ProxyView,
    stage: BootstrapStageView,
    events: Seq<BootstrapEvent>,
) -> BootstrapStageView
    decreases events.len(),
{
    if events.len() == 0 {
        stage
    } else {
        bootstrap_next(proxy, bootstrap_run(proxy, stage, events.drop_last()), events.last())
    }
}

/// The way of one dial to a session.
pub struct Bootstrap {
    endpoint: ProxyEndpoint,
    name: String,
    literal: bool,
    stage: BootstrapStage,
}

impl Bootstrap {
    /// The proxy.
    pub closed spec fn proxy(&self) -> ProxyView {
        ProxyView { host: self.endpoint.host@, port: self.endpoint.port, literal: self.literal }
    }

    /// What is looked up, and what the certificate must be for: the host without brackets.
    pub closed spec fn name(&self) -> Seq<char> {
        self.name@
    }

    /// Where the way stands.
    pub closed spec fn stage(&self) -> BootstrapStageView {
        self.stage@
    }

    #[verifier::type_invariant]
    closed spec fn well_formed(&self) -> bool {
        bootstrap_well_formed(self.stage@)
    }

    /// Sets out for a session with the provider's proxy.
    pub fn begin(provider: &Http3TunnelProvider) -> (way: Self)
        ensures
            way.stage() == BootstrapStageView::Select,
            way.name() == trim_brackets_spec(provider.configuration().host@),
            way.name() == strip_brackets_spec(provider.configuration().host@),
            way.proxy() == (ProxyView {
                host: provider.configuration().host@,
                port: provider.configuration().port,
                literal: ip_family(trim_brackets_spec(provider.configuration().host@)) is Some,
            }),
    {
        let profile = provider.specification();
        proof {
            accepted_host_has_at_most_one_bracket_pair(profile.host@, profile.port);
        }
        let endpoint = provider.endpoint();
        let name = trim_brackets(endpoint.host.as_str()).to_owned();
        let family = parse_ip(name.as_str());
        Bootstrap::towards(endpoint, name, family)
    }

    /// Sets out for a session with the proxy at `endpoint`, whose host without brackets is `name`,
    /// an IP address of the given family or a name to look up.
    pub fn towards(endpoint: ProxyEndpoint, name: String, family: Option<IpFamily>) -> (way: Self)
        ensures
            way.stage() == BootstrapStageView::Select,
            way.name() == name@,
            way.proxy() == (ProxyView {
                host: endpoint.host@,
                port: endpoint.port,
                literal: family is Some,
            }),
    {
        Bootstrap { endpoint, name, literal: family.is_some(), stage: BootstrapStage::Select }
    }

    /// What is looked up, and what the certificate must be for.
    pub fn server_name(&self) -> (name: &str)
        ensures
            name@ == self.name(),
    {
        self.name.as_str()
    }

    /// Whether the server name is an IP address, so that there is nothing to look up.
    pub fn is_literal(&self) -> (literal: bool)
        ensures
            literal == self.proxy().literal,
    {
        self.literal
    }

    /// Where the way stands, and so what to do next.
    pub fn current(&self) -> (stage: &BootstrapStage)
        ensures
            stage@ == self.stage(),
            bootstrap_well_formed(stage@),
    {
        proof {
            use_type_invariant(self);
        }
        &self.stage
    }

    fn fail(&mut self, detail: &str)
        ensures
            final(self).stage() == failed_step(old(self).proxy(), detail@),
            final(self).proxy() == old(self).proxy(),
            final(self).name() == old(self).name(),
    {
        let error = self.endpoint.connect_error(detail);
        self.stage = BootstrapStage::Failed(error);
    }

    /// Takes in what happened to the outstanding step.
    pub fn step(&mut self, event: BootstrapEvent)
        ensures
            final(self).stage() == bootstrap_next(old(self).proxy(), old(self).stage(), event),
            final(self).proxy() == old(self).proxy(),
            final(self).name() == old(self).name(),
    {
        proof {
            use_type_invariant(&*self);
        }
        match (&self.stage, event) {
            (BootstrapStage::Select, BootstrapEvent::Selected(admission)) => match admission {
                Admission::Reuse => {
                    self.stage = BootstrapStage::Reuse;
                },
                Admission::LimitReached => {
                    self.fail("HTTP/3 draining connection limit reached");
                },
                Admission::Connect => {
                    if self.literal {
                        self.stage = BootstrapStage::Bind { index: 0, count: 1 };
                    } else {
                        self.stage = BootstrapStage::Lookup;
                    }
                },
            },
            (BootstrapStage::Lookup, BootstrapEvent::Resolved(found)) => {
                if found == 0 {
                    self.fail("proxy endpoint has no addresses");
                } else {
                    let count: usize = if found <= MAX_ADDRESSES {
                        found
                    } else {
                        MAX_ADDRESSES
                    };
                    self.stage = BootstrapStage::Bind { index: 0, count };
                }
            },
            (BootstrapStage::Lookup, BootstrapEvent::LookupFailed) => {
                self.fail("proxy endpoint DNS lookup failed");
            },
            (BootstrapStage::Bind { index, count }, BootstrapEvent::Bound(bound)) => {
                if bound {
                    self.stage = BootstrapStage::Start { index: *index, count: *count };
                } else {
                    self.fail("could not bind QUIC UDP socket");
                }
            },
            (BootstrapStage::Start { index, count }, BootstrapEvent::Started(started)) => {
                if started {
                    self.stage = BootstrapStage::Handshake { index: *index, count: *count };
                } else {
                    self.fail("invalid QUIC endpoint configuration");
                }
            },
            (BootstrapStage::Handshake { index, count }, BootstrapEvent::Shaken(outcome)) => {
                let next: usize = *index + 1;
                let count: usize = *count;
                match outcome {
                    HandshakeOutcome::Connected => {
                        self.stage = BootstrapStage::Initialize;
                    },
                    HandshakeOutcome::TransportError(code) if 0x100 <= code && code <= 0x1ff => {
                        let error = self.endpoint.tls_error();
                        self.stage = BootstrapStage::Failed(error);
                    },
                    _ => {
                        if next < count {
                            self.stage = BootstrapStage::Bind { index: next, count };
                        } else {
                            self.fail("QUIC handshake failed");
                        }
                    },
                }
            },
            (BootstrapStage::Initialize, BootstrapEvent::Initialized(done)) => {
                if done {
                    self.stage = BootstrapStage::Register;
                } else {
                    self.fail("HTTP/3 initialization failed");
                }
            },
            (BootstrapStage::Register, BootstrapEvent::Registered(registered)) => {
                if registered {
                    self.stage = BootstrapStage::Ready;
                } else {
                    self.fail("provider stopped");
                }
            },
            _ => {},
        }
    }

    /// The error, if the way ended in one.
    pub fn into_error(self) -> (error: Option<TunnelError>)
        ensures
            error is Some <==> self.stage() is Failed,
            error matches Some(failure) ==> self.stage() == BootstrapStageView::Failed(failure@),
    {
        match self.stage {
            BootstrapStage::Failed(error) => Some(error),
            _ => None,
        }
    }
}

/// The local address of the socket for a connection to an IPv4 or an IPv6 address: any port of
/// any interface of the same family.
pub fn bind_address(ipv4: bool) -> (address: &'static str)
    ensures
        address@ == if ipv4 {
            "0.0.0.0:0"@
        } else {
            "[::]:0"@
        },
{
    if ipv4 {
        "0.0.0.0:0"
    } else {
        "[::]:0"
    }
}

/// The address that is tried is one of those that were found, of which there are at most eight.
pub open spec fn bootstrap_well_formed(stage: BootstrapStageView) -> bool {
    match stage {
        BootstrapStageView::Bind { index, count } => index < count <= MAX_ADDRESSES,
        BootstrapStageView::Start { index, count } => index < count <= MAX_ADDRESSES,
        BootstrapStageView::Handshake { index, count } => index < count <= MAX_ADDRESSES,
        _ => true,
    }
}

/// Whether nothing is left to do.
pub open spec fn bootstrap_ended(stage: BootstrapStageView) -> bool {
    stage is Reuse || stage is Ready || stage is Failed
}

/// How many steps can still follow.
pub open spec fn bootstrap_steps_left(stage: BootstrapStageView) -> nat {
    match stage {
        BootstrapStageView::Select => 3 * MAX_ADDRESSES as nat + 6,
        BootstrapStageView::Lookup => 3 * MAX_ADDRESSES as nat + 5,
        BootstrapStageView::Bind { index, count } => (3 * (count - index) + 4) as nat,
        BootstrapStageView::Start { index, count } => (3 * (count - index) + 3) as nat,
        BootstrapStageView::Handshake { index, count } => (3 * (count - index) + 2) as nat,
        BootstrapStageView::Initialize => 2,
        BootstrapStageView::Register => 1,
        _ => 0,
    }
}

/// Every step leads closer to the end, and where the way has ended it stays.
pub proof fn bootstrap_ends(proxy: ProxyView, stage: BootstrapStageView, event: BootstrapEvent)
    requires
        bootstrap_well_formed(stage),
    ensures
        bootstrap_well_formed(bootstrap_next(proxy, stage, event)),
        bootstrap_next(proxy, stage, event) != stage ==> bootstrap_steps_left(
            bootstrap_next(proxy, stage, event),
        ) < bootstrap_steps_left(stage),
        bootstrap_ended(stage) <==> bootstrap_steps_left(stage) == 0,
        bootstrap_ended(stage) ==> bootstrap_next(proxy, stage, event) == stage,
{
}

/// Once the way has ended, no further event changes how.
pub proof fn bootstrap_end_is_final(
    proxy: ProxyView,
    stage: BootstrapStageView,
    events: Seq<BootstrapEvent>,
)
    requires
        bootstrap_ended(stage),
    ensures
        bootstrap_run(proxy, stage, events) == stage,
    decreases events.len(),
{
    if events.len() > 0 {
        bootstrap_end_is_final(proxy, stage, events.drop_last());
    }
}

/// A TLS failure is final: whatever follows, the other addresses are not tried, and the error
/// says that TLS with this proxy failed.
pub proof fn tls_failure_is_never_retried(
    proxy: ProxyView,
    index: nat,
    count: nat,
    outcome: HandshakeOutcome,
    later: Seq<BootstrapEvent>,
)
    requires
        is_tls_failure(outcome),
    ensures
        bootstrap_run(
            proxy,
            bootstrap_next(
                proxy,
                BootstrapStageView::Handshake { index, count },
                BootstrapEvent::Shaken(outcome),
            ),
            later,
        ) == BootstrapStageView::Failed(
            TunnelErrorView::Http3Tls { host: proxy.host, port: proxy.port },
        ),
{
    bootstrap_end_is_final(
        proxy,
        bootstrap_next(
            proxy,
            BootstrapStageView::Handshake { index, count },
            BootstrapEvent::Shaken(outcome),
        ),
        later,
    );
}

/// Whether an error names the given proxy.
pub open spec fn is_about(error: TunnelErrorView, proxy: ProxyView) -> bool {
    match error {
        TunnelErrorView::Http3Connect { host, port, .. } => host == proxy.host && port == proxy.port,
        TunnelErrorView::Http3Tls { host, port } => host == proxy.host && port == proxy.port,
        _ => false,
    }
}

/// From the start, whatever happens: at most eight addresses are tried, an address as host is
/// never looked up, and a failure names the proxy.
pub proof fn bootstrap_stays_with_proxy(proxy: ProxyView, events: Seq<BootstrapEvent>)
    ensures
        ({
            let stage = bootstrap_run(proxy, BootstrapStageView::Select, events);
            &&& bootstrap_well_formed(stage)
            &&& stage is Lookup ==> !proxy.literal
            &&& stage matches BootstrapStageView::Failed(error) ==> is_about(error, proxy)
        }),
    decreases events.len(),
{
    if events.len() > 0 {
        bootstrap_stays_with_proxy(proxy, events.drop_last());
    }
}

/// A new session is used only after a handshake that completed.
pub proof fn new_session_needs_completed_handshake(proxy: ProxyView, events: Seq<BootstrapEvent>)
    requires
        ({
            let stage = bootstrap_run(proxy, BootstrapStageView::Select, events);
            stage is Initialize || stage is Register || stage is Ready
        }),
    ensures
        events.contains(BootstrapEvent::Shaken(HandshakeOutcome::Connected)),
    decreases events.len(),
{
    let before = events.drop_last();
    let stage = bootstrap_run(proxy, BootstrapStageView::Select, before);
    if stage is Initialize || stage is Register || stage is Ready {
        new_session_needs_completed_handshake(proxy, before);
        let i = choose|i: int|
            0 <= i < before.len() && before[i] == BootstrapEvent::Shaken(
                HandshakeOutcome::Connected,
            );
        assert(events[i] == before[i]);
    } else {
        assert(events.last() == BootstrapEvent::Shaken(HandshakeOutcome::Connected));
    }
}

/// A provider that was stopped while a new session was being made does not take it on, whatever
/// came of it, and the way ends with the error that the provider is stopped.
pub proof fn late_session_is_refused<S, W>(
    proxy: ProxyView,
    ops: Seq<SessionsOp<S, W>>,
    session: S,
    reference: W,
    stopping: bool,
)
    requires
        sessions_run(ops).stopped,
    ensures
        sessions_next(
            sessions_run(ops),
            SessionsOp::Register { session, reference, stopping },
        ) == sessions_run(ops),
        sessions_run(ops).current is None,
        sessions_run(ops).kept.len() == 0,
        bootstrap_next(proxy, BootstrapStageView::Register, BootstrapEvent::Registered(false))
            == failed_step(proxy, "provider stopped"@),
{
    sessions_are_bounded_and_current_is_kept(ops);
    stopped_provider_takes_no_session(
        ops,
        SessionsOp::Register { session, reference, stopping },
    );
}

proof fn lemma_run_push(
    proxy: ProxyView,
    stage: BootstrapStageView,
    events: Seq<BootstrapEvent>,
    event: BootstrapEvent,
)
    ensures
        bootstrap_run(proxy, stage, events.push(event)) == bootstrap_next(
            proxy,
            bootstrap_run(proxy, stage, events),
            event,
        ),
{
    assert(events.push(event).drop_last() =~= events);
}

/// The events of a way on which a socket was bound and a connection started for one address after
/// the other, and the handshakes ended like this. A proxy that is no IP address was looked up, with
/// `found` addresses.
pub open spec fn tried(literal: bool, found: usize, outcomes: Seq<HandshakeOutcome>) -> Seq<
    BootstrapEvent,
>
    decreases outcomes.len(),
{
    if outcomes.len() == 0 {
        if literal {
            seq![].push(BootstrapEvent::Selected(Admission::Connect))
        } else {
            seq![].push(BootstrapEvent::Selected(Admission::Connect)).push(
                BootstrapEvent::Resolved(found),
            )
        }
    } else {
        tried(literal, found, outcomes.drop_last()).push(BootstrapEvent::Bound(true)).push(
            BootstrapEvent::Started(true),
        ).push(BootstrapEvent::Shaken(outcomes.last()))
    }
}

/// Whether a handshake failed, but not with a TLS alert, which has a code from 0x100 to 0x1ff.
pub open spec fn failed_to_reach(outcome: HandshakeOutcome) -> bool {
    match outcome {
        HandshakeOutcome::Connected => false,
        HandshakeOutcome::TransportError(code) => code < 0x100 || 0x1ff < code,
        HandshakeOutcome::Failed => true,
    }
}

proof fn lemma_tried(proxy: ProxyView, found: usize, outcomes: Seq<HandshakeOutcome>, addresses: nat)
    requires
        found > 0,
        addresses == if proxy.literal {
            1nat
        } else if found <= 8 {
            found as nat
        } else {
            8
        },
        outcomes.len() <= addresses,
        forall|i: int| 0 <= i < outcomes.len() ==> failed_to_reach(#[trigger] outcomes[i]),
    ensures
        bootstrap_run(
            proxy,
            BootstrapStageView::Select,
            tried(proxy.literal, found, outcomes),
        ) == if outcomes.len() < addresses {
            BootstrapStageView::Bind { index: outcomes.len(), count: addresses }
        } else {
            BootstrapStageView::Failed(
                TunnelErrorView::Http3Connect {
                    host: proxy.host,
                    port: proxy.port,
                    detail: "QUIC handshake failed"@,
                },
            )
        },
    decreases outcomes.len(),
{
    let select = BootstrapStageView::Select;
    let none = Seq::<BootstrapEvent>::empty();
    if outcomes.len() == 0 {
        let connect = BootstrapEvent::Selected(Admission::Connect);
        lemma_run_push(proxy, select, none, connect);
        if !proxy.literal {
            lemma_run_push(proxy, select, none.push(connect), BootstrapEvent::Resolved(found));
        }
    } else {
        let earlier = outcomes.drop_last();
        assert forall|i: int| 0 <= i < earlier.len() implies failed_to_reach(
            #[trigger] earlier[i],
        ) by {
            assert(earlier[i] == outcomes[i]);
        }
        lemma_tried(proxy, found, earlier, addresses);
        let before = tried(proxy.literal, found, earlier);
        let bound = before.push(BootstrapEvent::Bound(true));
        let started = bound.push(BootstrapEvent::Started(true));
        assert(failed_to_reach(outcomes[outcomes.len() - 1]));
        lemma_run_push(proxy, select, before, BootstrapEvent::Bound(true));
        lemma_run_push(proxy, select, bound, BootstrapEvent::Started(true));
        lemma_run_push(proxy, select, started, BootstrapEvent::Shaken(outcomes.last()));
    }
}

/// The addresses of the proxy are tried in turn, at most eight of them. However many could not be
/// reached before, the first that completes the handshake is the one that is used: with HTTP/3 set
/// up and the session taken on, the way ends there. If it fails with a TLS alert, the way ends with
/// that; and if no address is left, it ends with the failed handshake.
pub proof fn first_reachable_address_is_used(
    proxy: ProxyView,
    found: usize,
    unreachable: Seq<HandshakeOutcome>,
    alert: u64,
)
    requires
        found > 0,
        unreachable.len() <= found,
        unreachable.len() <= 8,
        proxy.literal ==> unreachable.len() <= 1,
        forall|i: int| 0 <= i < unreachable.len() ==> failed_to_reach(#[trigger] unreachable[i]),
        0x100 <= alert <= 0x1ff,
    ensures
        ({
            let select = BootstrapStageView::Select;
            let addresses: nat = if proxy.literal {
                1
            } else if found <= 8 {
                found as nat
            } else {
                8
            };
            let reached = tried(
                proxy.literal,
                found,
                unreachable.push(HandshakeOutcome::Connected),
            );
            let refused = tried(
                proxy.literal,
                found,
                unreachable.push(HandshakeOutcome::TransportError(alert)),
            );
            let exhausted = tried(proxy.literal, found, unreachable);
            &&& unreachable.len() < addresses ==> {
                &&& bootstrap_run(proxy, select, exhausted) == (BootstrapStageView::Bind {
                    index: unreachable.len(),
                    count: addresses,
                })
                &&& bootstrap_run(proxy, select, reached) is Initialize
                &&& bootstrap_run(proxy, select, reached.push(BootstrapEvent::Initialized(true))) is Register
                &&& bootstrap_run(
                    proxy,
                    select,
                    reached.push(BootstrapEvent::Initialized(true)).push(
                        BootstrapEvent::Registered(true),
                    ),
                ) is Ready
                &&& bootstrap_run(proxy, select, refused) == BootstrapStageView::Failed(
                    TunnelErrorView::Http3Tls { host: proxy.host, port: proxy.port },
                )
            }
            &&& unreachable.len() == addresses ==> bootstrap_run(proxy, select, exhausted)
                == BootstrapStageView::Failed(
                TunnelErrorView::Http3Connect {
                    host: proxy.host,
                    port: proxy.port,
                    detail: "QUIC handshake failed"@,
                },
            )
        }),
{
    let select = BootstrapStageView::Select;
    let addresses: nat = if proxy.literal {
        1
    } else if found <= 8 {
        found as nat
    } else {
        8
    };
    let before = tried(proxy.literal, found, unreachable);
    let connected = unreachable.push(HandshakeOutcome::Connected);
    let alerted = unreachable.push(HandshakeOutcome::TransportError(alert));
    lemma_tried(proxy, found, unreachable, addresses);
    assert(connected.drop_last() =~= unreachable);
    assert(alerted.drop_last() =~= unreachable);
    let bound = before.push(BootstrapEvent::Bound(true));
    let started = bound.push(BootstrapEvent::Started(true));
    let reached = started.push(BootstrapEvent::Shaken(HandshakeOutcome::Connected));
    assert(tried(proxy.literal, found, connected) == reached);
    lemma_run_push(proxy, select, before, BootstrapEvent::Bound(true));
    lemma_run_push(proxy, select, bound, BootstrapEvent::Started(true));
    lemma_run_push(
        proxy,
        select,
        started,
        BootstrapEvent::Shaken(HandshakeOutcome::Connected),
    );
    lemma_run_push(
        proxy,
        select,
        started,
        BootstrapEvent::Shaken(HandshakeOutcome::TransportError(alert)),
    );
    let initialized = reached.push(BootstrapEvent::Initialized(true));
    lemma_run_push(proxy, select, reached, BootstrapEvent::Initialized(true));
    lemma_run_push(proxy, select, initialized, BootstrapEvent::Registered(true));
}

/// A step that succeeds leads to the next one, with the same address and the same number of
/// addresses; whichever address it is, a completed handshake leads to HTTP/3.
pub proof fn success_leads_on(proxy: ProxyView, index: nat, count: nat, found: usize)
    ensures
        bootstrap_next(
            proxy,
            BootstrapStageView::Select,
            BootstrapEvent::Selected(Admission::Reuse),
        ) is Reuse,
        bootstrap_next(
            proxy,
            BootstrapStageView::Select,
            BootstrapEvent::Selected(Admission::Connect),
        ) == if proxy.literal {
            BootstrapStageView::Bind { index: 0, count: 1 }
        } else {
            BootstrapStageView::Lookup
        },
        found > 0 ==> (bootstrap_next(
            proxy,
            BootstrapStageView::Lookup,
            BootstrapEvent::Resolved(found),
        ) matches BootstrapStageView::Bind { index: first, count: all } && first == 0 && all <= 8
            && all <= found && (all == 8 || all == found)),
        bootstrap_next(
            proxy,
            BootstrapStageView::Bind { index, count },
            BootstrapEvent::Bound(true),
        ) == (BootstrapStageView::Start { index, count }),
        bootstrap_next(
            proxy,
            BootstrapStageView::Start { index, count },
            BootstrapEvent::Started(true),
        ) == (BootstrapStageView::Handshake { index, count }),
        bootstrap_next(
            proxy,
            BootstrapStageView::Handshake { index, count },
            BootstrapEvent::Shaken(HandshakeOutcome::Connected),
        ) is Initialize,
        bootstrap_next(
            proxy,
            BootstrapStageView::Initialize,
            BootstrapEvent::Initialized(true),
        ) is Register,
        bootstrap_next(
            proxy,
            BootstrapStageView::Register,
            BootstrapEvent::Registered(true),
        ) is Ready,
{
}

/// A way that has not failed fails on one of nine occasions and on no other, each with its own
/// error about this proxy.
pub proof fn way_fails_only_for_cause(
    proxy: ProxyView,
    stage: BootstrapStageView,
    event: BootstrapEvent,
    error: TunnelErrorView,
)
    requires
        stage !is Failed,
    ensures
        ({
            let says = |detail: Seq<char>|
                error == (TunnelErrorView::Http3Connect {
                    host: proxy.host,
                    port: proxy.port,
                    detail,
                });
            bootstrap_next(proxy, stage, event) == BootstrapStageView::Failed(error) <==> {
                ||| stage is Select && event == BootstrapEvent::Selected(Admission::LimitReached)
                    && says("HTTP/3 draining connection limit reached"@)
                ||| stage is Lookup && event == BootstrapEvent::LookupFailed && says(
                    "proxy endpoint DNS lookup failed"@,
                )
                ||| stage is Lookup && event == BootstrapEvent::Resolved(0) && says(
                    "proxy endpoint has no addresses"@,
                )
                ||| stage is Bind && event == BootstrapEvent::Bound(false) && says(
                    "could not bind QUIC UDP socket"@,
                )
                ||| stage is Start && event == BootstrapEvent::Started(false) && says(
                    "invalid QUIC endpoint configuration"@,
                )
                ||| stage is Handshake && (event matches BootstrapEvent::Shaken(
                    HandshakeOutcome::TransportError(code),
                ) && 0x100 <= code <= 0x1ff) && error == (TunnelErrorView::Http3Tls {
                    host: proxy.host,
                    port: proxy.port,
                })
                ||| (stage matches BootstrapStageView::Handshake { index, count } && index + 1
                    >= count) && (event matches BootstrapEvent::Shaken(outcome) && failed_to_reach(
                    outcome,
                )) && says("QUIC handshake failed"@)
                ||| stage is Initialize && event == BootstrapEvent::Initialized(false) && says(
                    "HTTP/3 initialization failed"@,
                )
                ||| stage is Register && event == BootstrapEvent::Registered(false) && says(
                    "provider stopped"@,
                )
            }
        }),
{
}

/// A stage changes only on an event that answers it.
pub proof fn other_events_change_no_stage(
    proxy: ProxyView,
    stage: BootstrapStageView,
    event: BootstrapEvent,
)
    requires
        stage is Select ==> event !is Selected,
        stage is Lookup ==> event !is Resolved && event !is LookupFailed,
        stage is Bind ==> event !is Bound,
        stage is Start ==> event !is Started,
        stage is Handshake ==> event !is Shaken,
        stage is Initialize ==> event !is Initialized,
        stage is Register ==> event !is Registered,
    ensures
        bootstrap_next(proxy, stage, event) == stage,
{
}

/// The mathematical value of a stage is the stage, with the same numbers and the same error.
pub proof fn bootstrap_stages_mean_themselves(index: usize, count: usize, error: TunnelError)
    ensures
        BootstrapStage::Select@ is Select,
        BootstrapStage::Reuse@ is Reuse,
        BootstrapStage::Lookup@ is Lookup,
        (BootstrapStage::Bind { index, count })@ == (BootstrapStageView::Bind {
            index: index as nat,
            count: count as nat,
        }),
        (BootstrapStage::Start { index, count })@ == (BootstrapStageView::Start {
            index: index as nat,
            count: count as nat,
        }),
        (BootstrapStage::Handshake { index, count })@ == (BootstrapStageView::Handshake {
            index: index as nat,
            count: count as nat,
        }),
        BootstrapStage::Initialize@ is Initialize,
        BootstrapStage::Register@ is Register,
        BootstrapStage::Ready@ is Ready,
        BootstrapStage::Failed(error)@ == BootstrapStageView::Failed(error@),
{
}

} // verus!
