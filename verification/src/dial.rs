//! A dial: one CONNECT request through the proxy, and what its answer means.
use vstd::prelude::*;
use vstd::utf8::encode_utf8;

use crate::authority::{
    authority, authority_carries_only_host_and_port, authority_text, valid_endpoint,
};
use crate::config::Http3TunnelSpec;
use crate::credentials::basic_authorization;
use crate::error::{TunnelError, TunnelErrorView};
use crate::outside::{
    authority_chars, build_authorized_connect, build_connect, connect_fields, is_plain_authority,
    request_fields,
    request_is_http3, request_sensitive_fields,
};
use crate::provider::{Http3TunnelProvider, ProxyEndpoint};

verus! {

/// What happened to the step that was outstanding, or to the dial as a whole.
pub enum DialEvent {
    /// A place among the streams was taken, or there are none any more.
    Admitted(bool),
    /// A session was found or made, or not.
    Session(Result<(), TunnelError>),
    /// The request was sent, or the session could not open a stream for it.
    Sent(bool),
    /// The answer came with this status, or no proper answer came.
    Answered(Option<u16>),
    /// The stream was opened for its user, or its session is stopped.
    Opened(bool),
    /// The provider was stopped.
    Stopped,
    /// The deadline passed.
    TimedOut,
}

/// The mathematical value of a [`DialEvent`].
pub enum DialEventView {
    Admitted(bool),
    Session(Option<TunnelErrorView>),
    Sent(bool),
    Answered(Option<u16>),
    Opened(bool),
    Stopped,
    TimedOut,
}

impl View for DialEvent {
    type V = DialEventView;

    open spec fn view(&self) -> DialEventView {
        match *self {
            DialEvent::Admitted(admitted) => DialEventView::Admitted(admitted),
            DialEvent::Session(Ok(())) => DialEventView::Session(None),
            DialEvent::Session(Err(error)) => DialEventView::Session(Some(error@)),
            DialEvent::Sent(sent) => DialEventView::Sent(sent),
            DialEvent::Answered(status) => DialEventView::Answered(status),
            DialEvent::Opened(opened) => DialEventView::Opened(opened),
            DialEvent::Stopped => DialEventView::Stopped,
            DialEvent::TimedOut => DialEventView::TimedOut,
        }
    }
}

/// Where a dial stands, and so what to do next.
pub enum DialStage {
    /// Take a place among the streams.
    Acquire,
    /// Find or make a session.
    Session,
    /// Send the request.
    Send,
    /// Wait for the answer.
    Await,
    /// Open the stream for its user.
    Open,
    /// Hand the stream over.
    Connected,
    /// Report the error.
    Failed(TunnelError),
}

/// The mathematical value of a [`DialStage`].
pub enum DialStageView {
    Acquire,
    Session,
    Send,
    Await,
    Open,
    Connected,
    Failed(TunnelErrorView),
}

impl View for DialStage {
    type V = DialStageView;

    open spec fn view(&self) -> DialStageView {
        match *self {
            DialStage::Acquire => DialStageView::Acquire,
            DialStage::Session => DialStageView::Session,
            DialStage::Send => DialStageView::Send,
            DialStage::Await => DialStageView::Await,
            DialStage::Open => DialStageView::Open,
            DialStage::Connected => DialStageView::Connected,
            DialStage::Failed(error) => DialStageView::Failed(error@),
        }
    }
}

/// Whether a status means that the tunnel is established.
pub open spec fn is_success(status: u16) -> bool {
    200 <= status < 300
}

/// Whether nothing is left to do.
pub open spec fn dial_ended(stage: DialStageView) -> bool {
    stage is Connected || stage is Failed
}

/// The error for a step that failed, about the proxy at `host:port`.
pub open spec fn failed_dial(host: Seq<char>, port: u16, detail: Seq<char>) -> DialStageView {
    DialStageView::Failed(TunnelErrorView::Http3Connect { host, port, detail })
}

/// The stage that follows `stage` on `event`, with the proxy at `host:port`. A dial that ended
/// stays as it is, and an event that does not answer the outstanding step changes nothing.
pub open spec fn dial_next(
    host: Seq<char>,
    port: u16,
    stage: DialStageView,
    event: DialEventView,
) -> DialStageView {
    if dial_ended(stage) {
        stage
    } else {
        match (stage, event) {
            (_, DialEventView::Stopped) => failed_dial(host, port, "provider stopped"@),
            (_, DialEventView::TimedOut) => failed_dial(host, port, "HTTP/3 dial deadline exceeded"@),
            (DialStageView::Acquire, DialEventView::Admitted(admitted)) => if admitted {
                DialStageView::Session
            } else {
                failed_dial(host, port, "provider stopped"@)
            },
            (DialStageView::Session, DialEventView::Session(failure)) => match failure {
                None => DialStageView::Send,
                Some(error) => DialStageView::Failed(error),
            },
            (DialStageView::Send, DialEventView::Sent(sent)) => if sent {
                DialStageView::Await
            } else {
                failed_dial(host, port, "HTTP/3 connection cannot open a new stream"@)
            },
            (DialStageView::Await, DialEventView::Answered(answer)) => match answer {
                None => failed_dial(host, port, "invalid or interrupted CONNECT response"@),
                Some(status) => if is_success(status) {
                    DialStageView::Open
                } else {
                    DialStageView::Failed(TunnelErrorView::Http3ProxyStatus { status })
                },
            },
            (DialStageView::Open, DialEventView::Opened(opened)) => if opened {
                DialStageView::Connected
            } else {
                failed_dial(host, port, "provider stopped"@)
            },
            _ => stage,
        }
    }
}

/// The stage after a series of events.
pub open spec fn dial_run(
    host: Seq<char>,
    port: u16,
    stage: DialStageView,
    events: Seq<DialEventView>,
) -> DialStageView
    decreases events.len(),
{
    if events.len() == 0 {
        stage
    } else {
        dial_next(host, port, dial_run(host, port, stage, events.drop_last()), events.last())
    }
}

/// One dial to one destination.
pub struct Dial {
    endpoint: ProxyEndpoint,
    target: http::uri::Authority,
    stage: DialStage,
}

impl Dial {
    /// The host of the proxy.
    pub closed spec fn proxy_host(&self) -> Seq<char> {
        self.endpoint.host@
    }

    /// The port of the proxy.
    pub closed spec fn proxy_port(&self) -> u16 {
        self.endpoint.port
    }

    /// The authority of the destination.
    pub closed spec fn target(&self) -> Seq<char> {
        authority_chars(self.target)
    }

    /// Where the dial stands.
    pub closed spec fn stage(&self) -> DialStageView {
        self.stage@
    }

    #[verifier::type_invariant]
    closed spec fn well_formed(&self) -> bool {
        is_plain_authority(authority_chars(self.target))
    }

    /// Where the dial stands, and so what to do next.
    pub fn current(&self) -> (stage: &DialStage)
        ensures
            stage@ == self.stage(),
    {
        &self.stage
    }

    /// Takes in what happened. The result tells whether the session that was used is to be
    /// retired, because it opens no new streams.
    pub fn step(&mut self, event: DialEvent) -> (retire: bool)
        ensures
            final(self).stage() == dial_next(
                old(self).proxy_host(),
                old(self).proxy_port(),
                old(self).stage(),
                event@,
            ),
            retire == (old(self).stage() is Send && event@ == DialEventView::Sent(false)),
            final(self).proxy_host() == old(self).proxy_host(),
            final(self).proxy_port() == old(self).proxy_port(),
            final(self).target() == old(self).target(),
    {
        proof {
            use_type_invariant(&*self);
        }
        match &self.stage {
            DialStage::Connected => {
                return false;
            },
            DialStage::Failed(_) => {
                return false;
            },
            _ => {},
        }
        let mut retire = false;
        match (&self.stage, event) {
            (_, DialEvent::Stopped) => {
                self.stage = DialStage::Failed(self.endpoint.connect_error("provider stopped"));
            },
            (_, DialEvent::TimedOut) => {
                self.stage =
                DialStage::Failed(self.endpoint.connect_error("HTTP/3 dial deadline exceeded"));
            },
            (DialStage::Acquire, DialEvent::Admitted(admitted)) => {
                if admitted {
                    self.stage = DialStage::Session;
                } else {
                    self.stage = DialStage::Failed(self.endpoint.connect_error("provider stopped"));
                }
            },
            (DialStage::Session, DialEvent::Session(outcome)) => match outcome {
                Ok(()) => {
                    self.stage = DialStage::Send;
                },
                Err(error) => {
                    self.stage = DialStage::Failed(error);
                },
            },
            (DialStage::Send, DialEvent::Sent(sent)) => {
                if sent {
                    self.stage = DialStage::Await;
                } else {
                    retire = true;
                    self.stage =
                    DialStage::Failed(
                        self.endpoint.connect_error("HTTP/3 connection cannot open a new stream"),
                    );
                }
            },
            (DialStage::Await, DialEvent::Answered(answer)) => match answer {
                None => {
                    self.stage =
                    DialStage::Failed(
                        self.endpoint.connect_error("invalid or interrupted CONNECT response"),
                    );
                },
                Some(status) => {
                    if 200 <= status && status < 300 {
                        self.stage = DialStage::Open;
                    } else {
                        self.stage = DialStage::Failed(TunnelError::Http3ProxyStatus { status });
                    }
                },
            },
            (DialStage::Open, DialEvent::Opened(opened)) => {
                if opened {
                    self.stage = DialStage::Connected;
                } else {
                    self.stage = DialStage::Failed(self.endpoint.connect_error("provider stopped"));
                }
            },
            _ => {},
        }
        retire
    }

    /// The error, if the dial ended in one.
    pub fn into_error(self) -> (error: Option<TunnelError>)
        ensures
            error is Some <==> self.stage() is Failed,
            error matches Some(failure) ==> self.stage() == DialStageView::Failed(failure@),
    {
        match self.stage {
            DialStage::Failed(error) => Some(error),
            _ => None,
        }
    }
}

/// The bytes of the proxy authorization field for a configuration, if it has credentials.
pub open spec fn authorization_of(profile: Http3TunnelSpec) -> Option<Seq<u8>> {
    match profile.credentials {
        Some(credentials) => Some(
            encode_utf8(basic_authorization(credentials.username(), credentials.password())),
        ),
        None => None,
    }
}

impl Http3TunnelProvider {
    /// Starts a dial to a destination, which the proxy resolves. `stopped` tells whether the
    /// provider was stopped.
    pub fn dial(&self, host: &str, port: u16, stopped: bool) -> (started: Result<Dial, TunnelError>)
        ensures
            started is Ok <==> valid_endpoint(host@, port) && !stopped,
            started matches Ok(dial) ==> {
                &&& dial.stage() == DialStageView::Acquire
                &&& dial.target() == authority_text(host@, port)
                &&& dial.proxy_host() == self.configuration().host@
                &&& dial.proxy_port() == self.configuration().port
            },
            started matches Err(error) ==> error@ == if valid_endpoint(host@, port) {
                TunnelErrorView::Http3Connect {
                    host: self.configuration().host@,
                    port: self.configuration().port,
                    detail: "provider stopped"@,
                }
            } else {
                TunnelErrorView::Configuration("invalid HTTP/3 tunnel host or port"@)
            },
    {
        let target = match authority(host, port) {
            Ok(target) => target,
            Err(error) => {
                return Err(error);
            },
        };
        if stopped {
            return Err(self.connect_error("provider stopped"));
        }
        proof {
            authority_carries_only_host_and_port(host@, port);
        }
        Ok(Dial { endpoint: self.endpoint(), target, stage: DialStage::Acquire })
    }

    /// The request of a dial: CONNECT with the destination as authority, without scheme and path,
    /// and with the credentials, if there are any, in a field marked as sensitive.
    pub fn connect_request(&self, dial: &Dial) -> (request: Result<http::Request<()>, TunnelError>)
        ensures
            request is Ok,
            request matches Ok(built) ==> {
                &&& request_is_http3(built)
                &&& request_fields(built) == connect_fields(
                    dial.target(),
                    authorization_of(self.configuration()),
                )
                &&& request_sensitive_fields(built) == if self.configuration().credentials is Some {
                    set!["proxy-authorization"@]
                } else {
                    Set::<Seq<char>>::empty()
                }
            },
    {
        proof {
            use_type_invariant(dial);
        }
        let built = match &self.specification().credentials {
            Some(credentials) => build_authorized_connect(&dial.target, credentials.header()),
            None => build_connect(&dial.target),
        };
        match built {
            Ok(request) => Ok(request),
            Err(_) => Err(TunnelError::configuration("invalid CONNECT request")),
        }
    }
}

/// How many steps can still follow.
pub open spec fn dial_steps_left(stage: DialStageView) -> nat {
    match stage {
        DialStageView::Acquire => 5,
        DialStageView::Session => 4,
        DialStageView::Send => 3,
        DialStageView::Await => 2,
        DialStageView::Open => 1,
        _ => 0,
    }
}

/// A dial only moves forward: nothing is retried, so it sends at most one request.
pub proof fn dial_moves_forward(
    host: Seq<char>,
    port: u16,
    stage: DialStageView,
    event: DialEventView,
)
    ensures
        dial_next(host, port, stage, event) == stage || dial_steps_left(
            dial_next(host, port, stage, event),
        ) < dial_steps_left(stage),
        dial_ended(stage) <==> dial_steps_left(stage) == 0,
{
}

/// Once a dial has ended, no further event changes how.
pub proof fn dial_end_is_final(
    host: Seq<char>,
    port: u16,
    stage: DialStageView,
    events: Seq<DialEventView>,
)
    requires
        dial_ended(stage),
    ensures
        dial_run(host, port, stage, events) == stage,
    decreases events.len(),
{
    if events.len() > 0 {
        dial_end_is_final(host, port, stage, events.drop_last());
    }
}

/// Whether some event of a dial was a successful answer of the proxy.
pub open spec fn was_accepted(events: Seq<DialEventView>) -> bool {
    exists|i: int|
        0 <= i < events.len() && (#[trigger] events[i] matches DialEventView::Answered(Some(status))
            && is_success(status))
}

/// There is no stream without a successful answer of the proxy: no redirect, challenge or error
/// leads to one, and neither does anything else.
pub proof fn tunnel_needs_success(host: Seq<char>, port: u16, events: Seq<DialEventView>)
    requires
        ({
            let stage = dial_run(host, port, DialStageView::Acquire, events);
            stage is Open || stage is Connected
        }),
    ensures
        was_accepted(events),
    decreases events.len(),
{
    let before = events.drop_last();
    let stage = dial_run(host, port, DialStageView::Acquire, before);
    if stage is Open || stage is Connected {
        tunnel_needs_success(host, port, before);
        let i = choose|i: int|
            0 <= i < before.len() && (#[trigger] before[i] matches DialEventView::Answered(
                Some(status),
            ) && is_success(status));
        assert(events[i] == before[i]);
    } else {
        assert(events[events.len() - 1] == events.last());
    }
}

/// Nothing is sent for a dial that has no place among the streams and no session.
pub proof fn request_needs_place_and_session(host: Seq<char>, port: u16, events: Seq<DialEventView>)
    requires
        ({
            let stage = dial_run(host, port, DialStageView::Acquire, events);
            stage is Send || stage is Await || stage is Open || stage is Connected
        }),
    ensures
        events.contains(DialEventView::Admitted(true)),
        events.contains(DialEventView::Session(None)),
    decreases events.len(),
{
    let before = events.drop_last();
    let stage = dial_run(host, port, DialStageView::Acquire, before);
    if stage is Session {
        assert(events.last() == DialEventView::Session(None));
        assert(events[events.len() - 1] == DialEventView::Session(None));
        lemma_session_needs_place(host, port, before);
    } else {
        request_needs_place_and_session(host, port, before);
        lemma_contains_more(events, DialEventView::Session(None));
    }
    lemma_contains_more(events, DialEventView::Admitted(true));
}

proof fn lemma_session_needs_place(host: Seq<char>, port: u16, events: Seq<DialEventView>)
    requires
        dial_run(host, port, DialStageView::Acquire, events) is Session,
    ensures
        events.contains(DialEventView::Admitted(true)),
    decreases events.len(),
{
    let before = events.drop_last();
    if dial_run(host, port, DialStageView::Acquire, before) is Session {
        lemma_session_needs_place(host, port, before);
        lemma_contains_more(events, DialEventView::Admitted(true));
    } else {
        assert(events.last() == DialEventView::Admitted(true));
        assert(events[events.len() - 1] == DialEventView::Admitted(true));
    }
}

proof fn lemma_contains_more(events: Seq<DialEventView>, event: DialEventView)
    requires
        events.len() > 0,
        events.drop_last().contains(event),
    ensures
        events.contains(event),
{
    let before = events.drop_last();
    let i = choose|i: int| 0 <= i < before.len() && before[i] == event;
    assert(events[i] == event);
}

/// An answer outside the success range ends the dial with that status, whatever follows: it is
/// not retried, not followed and not answered with other credentials.
pub proof fn refusal_is_final(
    host: Seq<char>,
    port: u16,
    status: u16,
    later: Seq<DialEventView>,
)
    requires
        !is_success(status),
    ensures
        dial_run(
            host,
            port,
            dial_next(host, port, DialStageView::Await, DialEventView::Answered(Some(status))),
            later,
        ) == DialStageView::Failed(TunnelErrorView::Http3ProxyStatus { status }),
{
    dial_end_is_final(
        host,
        port,
        dial_next(host, port, DialStageView::Await, DialEventView::Answered(Some(status))),
        later,
    );
}

/// Stopping the provider or passing the deadline ends any dial that has not ended.
pub proof fn stop_and_deadline_end_every_dial(host: Seq<char>, port: u16, stage: DialStageView)
    requires
        !dial_ended(stage),
    ensures
        dial_next(host, port, stage, DialEventView::Stopped) == failed_dial(
            host,
            port,
            "provider stopped"@,
        ),
        dial_next(host, port, stage, DialEventView::TimedOut) == failed_dial(
            host,
            port,
            "HTTP/3 dial deadline exceeded"@,
        ),
{
}

proof fn lemma_dial_push(
    host: Seq<char>,
    port: u16,
    stage: DialStageView,
    events: Seq<DialEventView>,
    event: DialEventView,
)
    ensures
        dial_run(host, port, stage, events.push(event)) == dial_next(
            host,
            port,
            dial_run(host, port, stage, events),
            event,
        ),
{
    assert(events.push(event).drop_last() =~= events);
}

/// A dial whose every step succeeds becomes a stream if and only if the proxy answers with a status
/// from 200 to 299; with any other status it fails, and the error says which.
pub proof fn status_decides_a_dial(host: Seq<char>, port: u16, status: u16)
    ensures
        ({
            let asked = Seq::<DialEventView>::empty().push(DialEventView::Admitted(true)).push(
                DialEventView::Session(None),
            ).push(DialEventView::Sent(true));
            let answered = asked.push(DialEventView::Answered(Some(status)));
            let opened = answered.push(DialEventView::Opened(true));
            &&& dial_run(host, port, DialStageView::Acquire, asked) is Await
            &&& 200 <= status <= 299 ==> dial_run(host, port, DialStageView::Acquire, answered) is Open
                && dial_run(host, port, DialStageView::Acquire, opened) is Connected
            &&& status < 200 || 299 < status ==> dial_run(
                host,
                port,
                DialStageView::Acquire,
                answered,
            ) == DialStageView::Failed(TunnelErrorView::Http3ProxyStatus { status }) && dial_run(
                host,
                port,
                DialStageView::Acquire,
                opened,
            ) == DialStageView::Failed(TunnelErrorView::Http3ProxyStatus { status })
        }),
{
    let start = DialStageView::Acquire;
    let none = Seq::<DialEventView>::empty();
    let admitted = none.push(DialEventView::Admitted(true));
    let found = admitted.push(DialEventView::Session(None));
    let asked = found.push(DialEventView::Sent(true));
    let answered = asked.push(DialEventView::Answered(Some(status)));
    lemma_dial_push(host, port, start, none, DialEventView::Admitted(true));
    lemma_dial_push(host, port, start, admitted, DialEventView::Session(None));
    lemma_dial_push(host, port, start, found, DialEventView::Sent(true));
    lemma_dial_push(host, port, start, asked, DialEventView::Answered(Some(status)));
    lemma_dial_push(host, port, start, answered, DialEventView::Opened(true));
}

/// A stage that awaits the answer leads to an open stream exactly on a status from 200 to 299, and
/// to the refusal exactly on any other.
pub proof fn answer_is_judged_by_its_status(host: Seq<char>, port: u16, status: u16)
    ensures
        ({
            let after = dial_next(
                host,
                port,
                DialStageView::Await,
                DialEventView::Answered(Some(status)),
            );
            &&& after is Open <==> 200 <= status <= 299
            &&& after == DialStageView::Failed(TunnelErrorView::Http3ProxyStatus { status }) <==> !(200
                <= status <= 299)
        }),
{
}

/// A dial moves to another stage short of failing on one of five occasions and on no other.
pub proof fn dial_goes_on_only_for_cause(
    host: Seq<char>,
    port: u16,
    stage: DialStageView,
    event: DialEventView,
)
    ensures
        ({
            let after = dial_next(host, port, stage, event);
            after != stage && after !is Failed <==> {
                ||| stage is Acquire && event == DialEventView::Admitted(true)
                ||| stage is Session && event == DialEventView::Session(None)
                ||| stage is Send && event == DialEventView::Sent(true)
                ||| stage is Await && (event matches DialEventView::Answered(Some(status)) && 200
                    <= status <= 299)
                ||| stage is Open && event == DialEventView::Opened(true)
            }
        }),
        dial_next(host, port, DialStageView::Acquire, DialEventView::Admitted(true)) is Session,
        dial_next(host, port, DialStageView::Session, DialEventView::Session(None)) is Send,
        dial_next(host, port, DialStageView::Send, DialEventView::Sent(true)) is Await,
        dial_next(host, port, DialStageView::Open, DialEventView::Opened(true)) is Connected,
{
}

/// A dial that has not ended fails on one of eight occasions and on no other, each with its own
/// error.
pub proof fn dial_fails_only_for_cause(
    host: Seq<char>,
    port: u16,
    stage: DialStageView,
    event: DialEventView,
    error: TunnelErrorView,
)
    requires
        !(stage is Connected),
        !(stage is Failed),
    ensures
        ({
            let says = |detail: Seq<char>|
                error == (TunnelErrorView::Http3Connect { host, port, detail });
            dial_next(host, port, stage, event) == DialStageView::Failed(error) <==> {
                ||| event is Stopped && says("provider stopped"@)
                ||| event is TimedOut && says("HTTP/3 dial deadline exceeded"@)
                ||| stage is Acquire && event == DialEventView::Admitted(false) && says(
                    "provider stopped"@,
                )
                ||| stage is Session && event == DialEventView::Session(Some(error))
                ||| stage is Send && event == DialEventView::Sent(false) && says(
                    "HTTP/3 connection cannot open a new stream"@,
                )
                ||| stage is Await && event == DialEventView::Answered(None) && says(
                    "invalid or interrupted CONNECT response"@,
                )
                ||| stage is Await && (event matches DialEventView::Answered(Some(status)) && !(200
                    <= status <= 299) && error == (TunnelErrorView::Http3ProxyStatus { status }))
                ||| stage is Open && event == DialEventView::Opened(false) && says(
                    "provider stopped"@,
                )
            }
        }),
{
}

/// The request of a dial says three things at most, and exactly these: the method CONNECT, the
/// destination as authority and, if there is one, the proxy authorization.
pub proof fn connect_says_no_more(authority: Seq<char>, authorization: Option<Seq<u8>>)
    ensures
        ({
            let fields = connect_fields(authority, authorization);
            &&& fields.dom() == if authorization is Some {
                set![":method"@, ":authority"@, "proxy-authorization"@]
            } else {
                set![":method"@, ":authority"@]
            }
            &&& fields[":method"@] == encode_utf8("CONNECT"@)
            &&& fields[":authority"@] == encode_utf8(authority)
            &&& authorization matches Some(value) ==> fields["proxy-authorization"@] == value
        }),
{
    reveal_strlit(":method");
    reveal_strlit(":authority");
    reveal_strlit("proxy-authorization");
    assert(":method"@.len() == 7);
    assert(":authority"@.len() == 10);
    assert("proxy-authorization"@.len() == 19);
    let fields = connect_fields(authority, authorization);
    assert(fields.dom() =~= if authorization is Some {
        set![":method"@, ":authority"@, "proxy-authorization"@]
    } else {
        set![":method"@, ":authority"@]
    });
}

/// A configuration authorizes exactly if it has credentials, and with them.
pub proof fn authorization_is_of_the_credentials(profile: Http3TunnelSpec)
    ensures
        authorization_of(profile) is Some <==> profile.credentials is Some,
        profile.credentials matches Some(credentials) ==> authorization_of(profile) == Some(
            encode_utf8(basic_authorization(credentials.username(), credentials.password())),
        ),
{
}

/// The mathematical value of an event or a stage is that event or stage, with what it holds.
pub proof fn dial_events_and_stages_mean_themselves(
    flag: bool,
    answer: Option<u16>,
    error: TunnelError,
)
    ensures
        DialEvent::Admitted(flag)@ == DialEventView::Admitted(flag),
        DialEvent::Session(Ok(()))@ == DialEventView::Session(None),
        DialEvent::Session(Err(error))@ == DialEventView::Session(Some(error@)),
        DialEvent::Sent(flag)@ == DialEventView::Sent(flag),
        DialEvent::Answered(answer)@ == DialEventView::Answered(answer),
        DialEvent::Opened(flag)@ == DialEventView::Opened(flag),
        DialEvent::Stopped@ is Stopped,
        DialEvent::TimedOut@ is TimedOut,
        DialStage::Acquire@ is Acquire,
        DialStage::Session@ is Session,
        DialStage::Send@ is Send,
        DialStage::Await@ is Await,
        DialStage::Open@ is Open,
        DialStage::Connected@ is Connected,
        DialStage::Failed(error)@ == DialStageView::Failed(error@),
{
}

} // verus!
