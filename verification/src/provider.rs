//! The provider of tunnels through one HTTP/3 proxy.
use vstd::prelude::*;
use vstd::string::StringExecFns;

use crate::authority::{valid_endpoint, well_spelled};
use crate::config::{valid_timeout, Http3TunnelSpec};
use crate::error::{TunnelError, TunnelErrorView};
use crate::outside::{
    public_anchors, public_root, public_roots, quic_client, quic_tls, quic_transport, root_anchors, tls13_client,
    transport_config, CryptoProvider, TlsSettings, TransportSettings, TrustAnchor,
};
use crate::text::{decimal, decimal_text, strip_brackets_spec};

verus! {

/// Streams that a provider keeps open at the same time.
pub const MAX_STREAMS: usize = 128;

/// Bytes of header fields that a response may have.
pub const MAX_RESPONSE_HEADERS: u64 = 16 * 1024;

/// Seconds that a shutdown waits for an endpoint to become idle.
pub const IDLE_WAIT_SECS: u64 = 5;

/// Bytes that a proxy may send on one stream before they are read.
pub const STREAM_RECEIVE_WINDOW: u32 = 2 * 1024 * 1024;

/// Bytes that a proxy may send on all streams of a connection before they are read.
pub const RECEIVE_WINDOW: u32 = 32 * 1024 * 1024;

/// Bytes that may be sent to a proxy on one connection before they are acknowledged.
pub const SEND_WINDOW: u64 = 32 * 1024 * 1024;

/// Unidirectional streams that a proxy may open; it may open no bidirectional ones.
pub const PEER_UNI_STREAMS: u32 = 16;

/// Seconds after which an idle connection is kept alive.
pub const KEEP_ALIVE_SECS: u32 = 15;

/// Seconds after which an idle connection is given up.
pub const IDLE_TIMEOUT_SECS: u32 = 90;

/// The limits and timers of every connection to a proxy.
pub open spec fn tunnel_transport() -> TransportSettings {
    TransportSettings {
        stream_receive_window: STREAM_RECEIVE_WINDOW,
        receive_window: RECEIVE_WINDOW,
        send_window: SEND_WINDOW,
        bidi_streams: 0,
        uni_streams: PEER_UNI_STREAMS,
        keep_alive_secs: KEEP_ALIVE_SECS,
        idle_timeout_secs: IDLE_TIMEOUT_SECS,
    }
}

/// The TLS side of every connection to a proxy whose certificate must lead to `roots`: TLS 1.3
/// only, by AWS-LC, HTTP/3 only, nothing sent early, and no certificate of the client's own.
pub open spec fn tunnel_tls(roots: Seq<TrustAnchor>) -> TlsSettings {
    TlsSettings {
        roots,
        alpn: seq![seq!['h' as u8, '3' as u8]],
        early_data: false,
        versions: set![0x0304u16],
        client_certificate: false,
        crypto: CryptoProvider::AwsLc,
    }
}

/// The proxy that errors are about.
pub struct ProxyEndpoint {
    pub host: String,
    pub port: u16,
}

impl ProxyEndpoint {
    /// The error for a proxy that could not be used, with the step that failed.
    pub open spec fn connect_error_view(&self, detail: Seq<char>) -> TunnelErrorView {
        TunnelErrorView::Http3Connect { host: self.host@, port: self.port, detail }
    }

    /// The error for a proxy with which TLS failed.
    pub open spec fn tls_error_view(&self) -> TunnelErrorView {
        TunnelErrorView::Http3Tls { host: self.host@, port: self.port }
    }

    /// Reports that the proxy could not be used, and at which step.
    pub fn connect_error(&self, detail: &str) -> (error: TunnelError)
        ensures
            error@ == self.connect_error_view(detail@),
    {
        TunnelError::Http3Connect {
            host: self.host.clone(),
            port: self.port,
            detail: detail.to_owned(),
        }
    }

    /// Reports that TLS with the proxy failed.
    pub fn tls_error(&self) -> (error: TunnelError)
        ensures
            error@ == self.tls_error_view(),
    {
        TunnelError::Http3Tls { host: self.host.clone(), port: self.port }
    }
}

/// A checked proxy configuration with the connection configuration made from it.
///
/// The default trust store is Mozilla's public roots. Private proxy deployments can supply an
/// explicit root store. Certificate and hostname verification are always enabled; 0-RTT is never
/// used.
pub struct Http3TunnelProvider {
    profile: Http3TunnelSpec,
    config: quinn::ClientConfig,
}

impl Http3TunnelProvider {
    /// The configuration that the provider was made from.
    pub closed spec fn configuration(&self) -> Http3TunnelSpec {
        self.profile
    }

    /// What connections to the proxy are made with.
    pub closed spec fn quic(&self) -> quinn::ClientConfig {
        self.config
    }

    #[verifier::type_invariant]
    closed spec fn well_formed(&self) -> bool {
        &&& self.profile.is_valid()
        &&& well_spelled(strip_brackets_spec(self.profile.host@))
        &&& exists|roots: Seq<TrustAnchor>|
            roots.len() > 0 && quic_tls(self.config) == #[trigger] tunnel_tls(roots)
        &&& quic_transport(self.config) == tunnel_transport()
    }

    /// A provider that trusts Mozilla's public roots.
    pub fn new(profile: Http3TunnelSpec) -> (made: Result<Self, TunnelError>)
        ensures
            made is Ok <==> profile.is_valid(),
            made matches Ok(provider) ==> {
                &&& provider.configuration() == profile
                &&& quic_tls(provider.quic()) == tunnel_tls(public_anchors())
                &&& quic_transport(provider.quic()) == tunnel_transport()
            },
            made matches Ok(provider) ==> {
                &&& quic_tls(provider.quic()).alpn.len() == 1
                &&& quic_tls(provider.quic()).alpn[0] == seq![0x68u8, 0x33u8]
                &&& !quic_tls(provider.quic()).early_data
                &&& quic_tls(provider.quic()).versions == set![0x0304u16]
                &&& !quic_tls(provider.quic()).client_certificate
                &&& quic_tls(provider.quic()).crypto == CryptoProvider::AwsLc
            },
            made matches Err(error) ==> error@ == TunnelErrorView::Configuration(
                configuration_fault(profile),
            ),
    {
        let roots = public_roots();
        assert(root_anchors(roots) =~= public_anchors());
        Self::with_root_certificates(profile, roots)
    }

    /// A provider that trusts the given roots and no others.
    pub fn with_root_certificates(
        profile: Http3TunnelSpec,
        roots: rustls::RootCertStore,
    ) -> (made: Result<Self, TunnelError>)
        ensures
            made is Ok <==> profile.is_valid() && root_anchors(roots).len() > 0,
            made matches Ok(provider) ==> {
                &&& provider.configuration() == profile
                &&& quic_tls(provider.quic()) == tunnel_tls(root_anchors(roots))
                &&& quic_transport(provider.quic()) == tunnel_transport()
            },
            made matches Ok(provider) ==> {
                &&& quic_tls(provider.quic()).alpn.len() == 1
                &&& quic_tls(provider.quic()).alpn[0] == seq![0x68u8, 0x33u8]
                &&& !quic_tls(provider.quic()).early_data
                &&& quic_tls(provider.quic()).versions == set![0x0304u16]
                &&& !quic_tls(provider.quic()).client_certificate
                &&& quic_tls(provider.quic()).crypto == CryptoProvider::AwsLc
            },
            made matches Ok(provider) ==> quic_tls(provider.quic()).roots == root_anchors(roots),
            made matches Err(error) ==> error@ == TunnelErrorView::Configuration(
                configuration_fault(profile),
            ),
    {
        match profile.validate() {
            Ok(()) => {},
            Err(error) => {
                return Err(error);
            },
        }
        if roots.is_empty() {
            return Err(TunnelError::configuration("HTTP/3 proxy trust store is empty"));
        }
        let protocol: Vec<u8> = vec![104, 51];
        let alpn: Vec<Vec<u8>> = vec![protocol];
        let tls = match tls13_client(roots, alpn, false) {
            Ok(tls) => tls,
            Err(_) => {
                return Err(TunnelError::configuration("HTTP/3 requires TLS 1.3"));
            },
        };
        let transport = transport_config(
            TransportSettings {
                stream_receive_window: STREAM_RECEIVE_WINDOW,
                receive_window: RECEIVE_WINDOW,
                send_window: SEND_WINDOW,
                bidi_streams: 0,
                uni_streams: PEER_UNI_STREAMS,
                keep_alive_secs: KEEP_ALIVE_SECS,
                idle_timeout_secs: IDLE_TIMEOUT_SECS,
            },
        );
        match quic_client(tls, transport) {
            Ok(config) => {
                proof {
                    let offered = alpn@.map_values(|protocol: Vec<u8>| protocol@);
                    assert(protocol@ =~= seq!['h' as u8, '3' as u8]);
                    assert(offered =~= seq![seq!['h' as u8, '3' as u8]]);
                    assert(quic_tls(config) == tunnel_tls(root_anchors(roots)));
                }
                Ok(Http3TunnelProvider { profile, config })
            },
            Err(_) => Err(TunnelError::configuration("could not configure HTTP/3 TLS")),
        }
    }

    /// The checked configuration.
    pub fn specification(&self) -> (profile: &Http3TunnelSpec)
        ensures
            *profile == self.configuration(),
            self.configuration().is_valid(),
            well_spelled(strip_brackets_spec(self.configuration().host@)),
    {
        proof {
            use_type_invariant(self);
        }
        &self.profile
    }

    /// What to make connections to the proxy with: certificates are checked against at least one
    /// root, over TLS 1.3, for HTTP/3, with nothing sent early.
    pub fn client_config(&self) -> (config: &quinn::ClientConfig)
        ensures
            *config == self.quic(),
            exists|roots: Seq<TrustAnchor>|
                roots.len() > 0 && quic_tls(*config) == #[trigger] tunnel_tls(roots),
            quic_tls(*config).roots.len() > 0,
            quic_tls(*config).alpn == seq![seq![0x68u8, 0x33u8]],
            !quic_tls(*config).early_data,
            quic_tls(*config).versions == set![0x0304u16],
            !quic_tls(*config).client_certificate,
            quic_transport(*config) == tunnel_transport(),
    {
        proof {
            use_type_invariant(self);
        }
        &self.config
    }

    /// The proxy that errors are about.
    pub fn endpoint(&self) -> (endpoint: ProxyEndpoint)
        ensures
            endpoint.host@ == self.configuration().host@,
            endpoint.port == self.configuration().port,
    {
        ProxyEndpoint { host: self.profile.host.clone(), port: self.profile.port }
    }

    /// Reports that the proxy could not be used, and at which step.
    pub fn connect_error(&self, detail: &str) -> (error: TunnelError)
        ensures
            error@ == (TunnelErrorView::Http3Connect {
                host: self.configuration().host@,
                port: self.configuration().port,
                detail: detail@,
            }),
    {
        self.endpoint().connect_error(detail)
    }

    /// Names the proxy for people.
    pub fn describe(&self) -> (text: String)
        ensures
            text@ == "HTTP/3 CONNECT proxy at "@ + self.configuration().host@ + ":"@ + decimal(
                self.configuration().port as nat,
            ),
    {
        let mut text = "HTTP/3 CONNECT proxy at ".to_owned();
        text.append(self.profile.host.as_str());
        text.append(":");
        text.append(decimal_text(self.profile.port).as_str());
        text
    }
}

/// What is wrong with a configuration that is not valid or has no roots to trust: the endpoint,
/// the deadline, or the roots, whichever comes first.
pub open spec fn configuration_fault(profile: Http3TunnelSpec) -> Seq<char> {
    if !valid_endpoint(profile.host@, profile.port) {
        "invalid HTTP/3 tunnel host or port"@
    } else if !valid_timeout(profile.request_timeout) {
        "HTTP/3 request timeout must be within (0, 300] seconds"@
    } else {
        "HTTP/3 proxy trust store is empty"@
    }
}

/// Whatever roots are trusted: a connection offers HTTP/3 and nothing else, by the two bytes of its
/// name `h3`; it is made with TLS 1.3 and nothing else, by AWS-LC; nothing is sent early; no
/// certificate is offered; and exactly those roots are trusted.
pub proof fn connections_speak_only_http3(roots: Seq<TrustAnchor>)
    ensures
        ({
            let tls = tunnel_tls(roots);
            &&& tls.roots == roots
            &&& tls.alpn.len() == 1
            &&& tls.alpn[0].len() == 2
            &&& tls.alpn[0][0] == 0x68
            &&& tls.alpn[0][1] == 0x33
            &&& !tls.early_data
            &&& forall|version: u16| #[trigger] tls.versions.contains(version) <==> version == 0x0304
            &&& !tls.client_certificate
            &&& tls.crypto == CryptoProvider::AwsLc
        }),
        public_anchors().len() == 120,
        forall|i: int| 0 <= i < 120 ==> #[trigger] public_anchors()[i] == public_root(i),
{
}

/// A connection has a receive window of 2 MiB for each stream and of 32 MiB for all of them, and a
/// send window of 32 MiB; the proxy may open no bidirectional stream and sixteen unidirectional
/// ones; it is kept alive after 15 idle seconds and given up after 90. A provider has 128 places for
/// streams, a response 16 KiB for its header fields, and a shutdown waits five seconds.
pub proof fn limits_are_as_documented()
    ensures
        tunnel_transport().stream_receive_window == 2 * 1024 * 1024,
        tunnel_transport().receive_window == 32 * 1024 * 1024,
        tunnel_transport().send_window == 32 * 1024 * 1024,
        tunnel_transport().bidi_streams == 0,
        tunnel_transport().uni_streams == 16,
        tunnel_transport().keep_alive_secs == 15,
        tunnel_transport().idle_timeout_secs == 90,
        MAX_STREAMS == 128,
        MAX_RESPONSE_HEADERS == 16384,
        IDLE_WAIT_SECS == 5,
{
}

/// What is wrong with a configuration is said of the endpoint before the deadline, and of the
/// deadline before the roots.
pub proof fn faults_are_told_in_order(profile: Http3TunnelSpec)
    ensures
        !valid_endpoint(profile.host@, profile.port) ==> configuration_fault(profile)
            == "invalid HTTP/3 tunnel host or port"@,
        valid_endpoint(profile.host@, profile.port) && !profile.is_valid() ==> configuration_fault(
            profile,
        ) == "HTTP/3 request timeout must be within (0, 300] seconds"@,
        profile.is_valid() ==> configuration_fault(profile) == "HTTP/3 proxy trust store is empty"@,
{
}

/// Errors about a proxy name its host and its port.
pub proof fn proxy_errors_name_the_proxy(endpoint: ProxyEndpoint, detail: Seq<char>)
    ensures
        endpoint.connect_error_view(detail) == (TunnelErrorView::Http3Connect {
            host: endpoint.host@,
            port: endpoint.port,
            detail,
        }),
        endpoint.tls_error_view() == (TunnelErrorView::Http3Tls {
            host: endpoint.host@,
            port: endpoint.port,
        }),
{
}

} // verus!
