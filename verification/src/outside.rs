//! The parts of other crates, and of the standard library, that the tunnel logic rests on.
//!
//! Each item here states what one outside function does; none of these statements is proved.
use base64::Engine;
use vstd::prelude::*;
use vstd::utf8::encode_utf8;

verus! {

/// The family of an IP address.
#[derive(Clone, Copy, Debug, PartialEq, Eq, Structural)]
pub enum IpFamily {
    V4,
    V6,
}

/// The family of the IP address that `text` denotes, if it denotes one.
pub uninterp spec fn ip_family(text: Seq<char>) -> Option<IpFamily>;

/// Whether `c` can occur in the text of an IPv6 address: a hexadecimal digit, `:` or `.`.
pub open spec fn is_ipv6_char(c: char) -> bool {
    ||| '0' <= c <= '9'
    ||| 'a' <= c <= 'f'
    ||| 'A' <= c <= 'F'
    ||| c == ':'
    ||| c == '.'
}

/// How often `wanted` occurs in `text`.
pub open spec fn occurrences(text: Seq<char>, wanted: char) -> nat
    decreases text.len(),
{
    if text.len() == 0 {
        0
    } else {
        occurrences(text.drop_last(), wanted) + if text.last() == wanted {
            1nat
        } else {
            0
        }
    }
}

/// Reads `text` as an IP address with `IpAddr`'s `FromStr`.
///
/// The grammar itself stays unstated. What is claimed beyond that the outcome is a function of
/// the text: four decimal octets divided by `.` are made of digits and `.` alone, and the
/// notations of an IPv6 address (eight groups of hexadecimal digits separated by `:`, at most
/// one run of groups abbreviated to `::`, the last two groups possibly as an IPv4 address) hold
/// no other characters and at most eight colons.
#[verifier::external_body]
pub(crate) fn parse_ip(text: &str) -> (family: Option<IpFamily>)
    ensures
        family == ip_family(text@),
        family == Some(IpFamily::V4) ==> forall|i: int|
            0 <= i < text@.len() ==> ('0' <= #[trigger] text@[i] <= '9' || text@[i] == '.'),
        family == Some(IpFamily::V6) ==> {
            &&& forall|i: int| 0 <= i < text@.len() ==> is_ipv6_char(#[trigger] text@[i])
            &&& occurrences(text@, ':') <= 8
        },
{
    match text.parse::<core::net::IpAddr>() {
        Ok(core::net::IpAddr::V4(_)) => Some(IpFamily::V4),
        Ok(core::net::IpAddr::V6(_)) => Some(IpFamily::V6),
        Err(_) => None,
    }
}

/// The nanoseconds of a span of time.
pub uninterp spec fn duration_nanos(span: std::time::Duration) -> u128;

/// `std::time::Duration::as_nanos` gives the whole span in nanoseconds.
pub assume_specification[ std::time::Duration::as_nanos ](this: &std::time::Duration) -> (nanos:
    u128)
    ensures
        nanos == duration_nanos(*this),
;

/// A span of time for people, as `Debug` writes one of this many nanoseconds.
pub uninterp spec fn duration_text(nanos: u128) -> Seq<char>;

/// Writes a span of time with `std::time::Duration`'s `Debug`. The notation stays unstated; it
/// depends on the length of the span alone.
#[verifier::external_body]
pub(crate) fn debug_duration(span: &std::time::Duration) -> (text: String)
    ensures
        text@ == duration_text(duration_nanos(*span)),
{
    format!("{span:?}")
}

/// A text for people, as `Debug` writes it: in quotation marks, with escapes.
pub uninterp spec fn quoted_text(text: Seq<char>) -> Seq<char>;

/// Writes a text with `str`'s `Debug`. Which characters are escaped stays unstated; what is written
/// depends on the text alone.
#[verifier::external_body]
pub(crate) fn debug_str(text: &str) -> (quoted: String)
    ensures
        quoted@ == quoted_text(text@),
{
    format!("{text:?}")
}

/// `http::uri::Authority`: the checked text of a URI authority.
#[verifier::external_type_specification]
#[verifier::external_body]
pub struct ExAuthority(http::uri::Authority);

/// `http::uri::InvalidUri`: why a text is no URI component.
#[verifier::external_type_specification]
#[verifier::external_body]
pub struct ExInvalidUri(http::uri::InvalidUri);

/// The characters that an authority holds.
pub uninterp spec fn authority_chars(authority: http::uri::Authority) -> Seq<char>;

/// Whether `c` is an ASCII letter or digit, `.`, `_` or `-`.
pub open spec fn is_host_char(c: char) -> bool {
    ||| '0' <= c <= '9'
    ||| 'a' <= c <= 'z'
    ||| 'A' <= c <= 'Z'
    ||| c == '.'
    ||| c == '_'
    ||| c == '-'
}

/// Whether `text` is nonempty and made of host characters and at most one `:`.
pub open spec fn is_name_authority(text: Seq<char>) -> bool {
    &&& text.len() > 0
    &&& forall|i: int| 0 <= i < text.len() ==> (is_host_char(#[trigger] text[i]) || text[i] == ':')
    &&& occurrences(text, ':') <= 1
}

/// Whether `text` is `[`, IPv6 characters with at most eight `:`, then `]` at position `close`,
/// then digits with at most one `:`.
pub open spec fn is_literal_authority(text: Seq<char>, close: int) -> bool {
    &&& 0 < close < text.len()
    &&& text[0] == '['
    &&& text[close] == ']'
    &&& forall|i: int| 0 < i < close ==> is_ipv6_char(#[trigger] text[i])
    &&& occurrences(text.subrange(1, close), ':') <= 8
    &&& forall|i: int|
        close < i < text.len() ==> ('0' <= #[trigger] text[i] <= '9' || text[i] == ':')
    &&& occurrences(text.skip(close + 1), ':') <= 1
}

/// Reads `text` as an authority with `http::uri::Authority`'s `FromStr`.
///
/// What is read is the whole text, unchanged. A text of one of the two shapes is always read:
/// its characters are all URI characters, its brackets match, there is no `@`, `%`, `/`, `?` or
/// `#`, and there are no more colons than the parser allows inside and outside the brackets.
/// Which other texts are read stays unstated.
#[verifier::external_body]
pub(crate) fn parse_authority(text: &str) -> (parsed: Result<
    http::uri::Authority,
    http::uri::InvalidUri,
>)
    ensures
        parsed matches Ok(authority) ==> authority_chars(authority) == text@,
        is_name_authority(text@) ==> parsed is Ok,
        (exists|close: int| is_literal_authority(text@, close)) ==> parsed is Ok,
{
    text.parse::<http::uri::Authority>()
}

/// The character of the standard Base64 alphabet (RFC 4648, section 4) for a six-bit value.
pub open spec fn base64_char(value: int) -> char {
    if value < 26 {
        ('A' as u32 + value) as char
    } else if value < 52 {
        ('a' as u32 + (value - 26)) as char
    } else if value < 62 {
        ('0' as u32 + (value - 52)) as char
    } else if value == 62 {
        '+'
    } else {
        '/'
    }
}

/// The padded Base64 encoding of `data` in the standard alphabet.
pub open spec fn base64_text(data: Seq<u8>) -> Seq<char>
    decreases data.len(),
{
    let first: int = data[0] as int;
    let second: int = data[1] as int;
    let third: int = data[2] as int;
    if data.len() == 0 {
        seq![]
    } else if data.len() == 1 {
        seq![base64_char(first / 4), base64_char(first % 4 * 16), '=', '=']
    } else if data.len() == 2 {
        seq![
            base64_char(first / 4),
            base64_char(first % 4 * 16 + second / 16),
            base64_char(second % 16 * 4),
            '=',
        ]
    } else {
        seq![
            base64_char(first / 4),
            base64_char(first % 4 * 16 + second / 16),
            base64_char(second % 16 * 4 + third / 64),
            base64_char(third % 64),
        ] + base64_text(data.skip(3))
    }
}

/// Encodes `data` with `base64::engine::general_purpose::STANDARD`: the standard alphabet, with
/// padding. The engine panics where the length of the encoding overflows `usize`.
#[verifier::external_body]
pub(crate) fn base64_encode(data: &[u8]) -> (text: String)
    requires
        data@.len() <= 0xffff,
    ensures
        text@ == base64_text(data@),
{
    base64::engine::general_purpose::STANDARD.encode(data)
}

/// `http::HeaderValue`: the bytes of a header field value and whether they are sensitive.
#[verifier::external_type_specification]
#[verifier::external_body]
pub struct ExHeaderValue(http::HeaderValue);

/// `http::header::InvalidHeaderValue`: a text that is no header field value.
#[verifier::external_type_specification]
#[verifier::external_body]
pub struct ExInvalidHeaderValue(http::header::InvalidHeaderValue);

/// The bytes that a header value holds.
pub uninterp spec fn header_bytes(value: http::HeaderValue) -> Seq<u8>;

/// Whether a header value is marked as sensitive.
pub uninterp spec fn header_sensitive(value: http::HeaderValue) -> bool;

/// Whether every character of `text` is visible ASCII or a space.
pub open spec fn is_visible(text: Seq<char>) -> bool {
    forall|i: int| 0 <= i < text.len() ==> ' ' <= #[trigger] text[i] <= '~'
}

/// `http::HeaderValue::from_str` copies the text and marks nothing as sensitive. Visible ASCII is
/// always accepted; which other texts are stays unstated.
pub assume_specification[ http::HeaderValue::from_str ](src: &str) -> (value: Result<
    http::HeaderValue,
    http::header::InvalidHeaderValue,
>)
    ensures
        is_visible(src@) ==> value is Ok,
        value matches Ok(v) ==> header_bytes(v) == encode_utf8(src@) && !header_sensitive(v),
;

/// `http::HeaderValue::set_sensitive` sets the mark and keeps the bytes.
pub assume_specification[ http::HeaderValue::set_sensitive ](
    this: &mut http::HeaderValue,
    val: bool,
)
    ensures
        header_bytes(*final(this)) == header_bytes(*old(this)),
        header_sensitive(*final(this)) == val,
;

/// `http::Request`: the head of an HTTP request, with its body.
#[verifier::external_type_specification]
#[verifier::external_body]
#[verifier::reject_recursive_types(T)]
pub struct ExRequest<T>(http::Request<T>);

/// `http::Error`: why a request could not be built.
#[verifier::external_type_specification]
#[verifier::external_body]
pub struct ExHttpError(http::Error);

/// What a request says, as fields: `:method`; `:scheme`, `:authority` and `:path` as far as the
/// request's URI has them; and every header field by its name.
pub uninterp spec fn request_fields(request: http::Request<()>) -> Map<Seq<char>, Seq<u8>>;

/// The names of the header fields of a request whose values are marked as sensitive.
pub uninterp spec fn request_sensitive_fields(request: http::Request<()>) -> Set<Seq<char>>;

/// Whether the version of a request is HTTP/3.
pub uninterp spec fn request_is_http3(request: http::Request<()>) -> bool;

/// What an ordinary CONNECT request says: the method, the authority and, if there is
/// one, the proxy authorization.
pub open spec fn connect_fields(authority: Seq<char>, authorization: Option<Seq<u8>>) -> Map<
    Seq<char>,
    Seq<u8>,
> {
    let fields = map![
        ":method"@ => encode_utf8("CONNECT"@),
        ":authority"@ => encode_utf8(authority),
    ];
    match authorization {
        Some(value) => fields.insert("proxy-authorization"@, value),
        None => fields,
    }
}

/// Whether `c` is a host character, `:`, `[` or `]`.
pub open spec fn is_authority_char(c: char) -> bool {
    is_host_char(c) || c == ':' || c == '[' || c == ']'
}

/// Whether `text` has at least two and at most 65534 characters, each of them a host character,
/// `:`, `[` or `]`.
pub open spec fn is_plain_authority(text: Seq<char>) -> bool {
    &&& 2 <= text.len() <= 65534
    &&& forall|i: int| 0 <= i < text.len() ==> is_authority_char(#[trigger] text[i])
}

/// Builds a CONNECT request with `http::Request::builder`.
///
/// The builder reads the authority once more, as a URI. A plain authority holds no `/`, `?` or `#`
/// that would end it and so no scheme either, and it is ASCII, so that its length is that of its
/// bytes: it is read as a URI with that authority, without scheme and path. Nothing else in the
/// chain can fail, and there are no header fields.
#[verifier::external_body]
pub(crate) fn build_connect(target: &http::uri::Authority) -> (built: Result<
    http::Request<()>,
    http::Error,
>)
    requires
        is_plain_authority(authority_chars(*target)),
    ensures
        built is Ok,
        built matches Ok(request) ==> {
            &&& request_is_http3(request)
            &&& request_fields(request) == connect_fields(authority_chars(*target), None)
            &&& request_sensitive_fields(request) == Set::<Seq<char>>::empty()
        },
{
    http::Request::builder()
        .method(http::Method::CONNECT)
        .uri(target.as_str())
        .version(http::Version::HTTP_3)
        .body(())
}

/// Builds a CONNECT request with a proxy authorization field with `http::Request::builder`.
///
/// As without the field; the builder keeps the header value and its mark as they are.
#[verifier::external_body]
pub(crate) fn build_authorized_connect(
    target: &http::uri::Authority,
    authorization: http::HeaderValue,
) -> (built: Result<http::Request<()>, http::Error>)
    requires
        is_plain_authority(authority_chars(*target)),
    ensures
        built is Ok,
        built matches Ok(request) ==> {
            &&& request_is_http3(request)
            &&& request_fields(request) == connect_fields(
                authority_chars(*target),
                Some(header_bytes(authorization)),
            )
            &&& request_sensitive_fields(request) == if header_sensitive(authorization) {
                set!["proxy-authorization"@]
            } else {
                Set::<Seq<char>>::empty()
            }
        },
{
    http::Request::builder()
        .method(http::Method::CONNECT)
        .uri(target.as_str())
        .version(http::Version::HTTP_3)
        .header(http::header::PROXY_AUTHORIZATION, authorization)
        .body(())
}

/// `rustls::RootCertStore`: a container of trust anchors.
#[verifier::external_type_specification]
#[verifier::external_body]
pub struct ExRootCertStore(rustls::RootCertStore);

/// What makes a trust anchor: its subject, its public key and, if there are any, the constraints
/// on the names below it, each in its DER encoding.
pub struct TrustAnchor {
    pub subject: Seq<u8>,
    pub public_key: Seq<u8>,
    pub name_constraints: Option<Seq<u8>>,
}

/// The trust anchors of a store, in the store's order.
pub uninterp spec fn root_anchors(store: rustls::RootCertStore) -> Seq<TrustAnchor>;

/// `rustls::RootCertStore::is_empty` tells whether there are no trust anchors.
pub assume_specification[ rustls::RootCertStore::is_empty ](
    this: &rustls::RootCertStore,
) -> (empty: bool)
    ensures
        empty == (root_anchors(*this).len() == 0),
;

/// How many public roots there are.
pub const PUBLIC_ROOTS: usize = 120;

/// The public root at `index` of Mozilla's root table.
pub uninterp spec fn public_root(index: int) -> TrustAnchor;

/// Mozilla's root table.
pub open spec fn public_anchors() -> Seq<TrustAnchor> {
    Seq::new(PUBLIC_ROOTS as nat, |i: int| public_root(i))
}

/// Collects `webpki_roots::TLS_SERVER_ROOTS`, Mozilla's root table, with
/// `rustls::RootCertStore::from_iter`: the store holds every entry of the table, in its order, and
/// nothing else. What the entries are stays unstated.
#[verifier::external_body]
pub(crate) fn public_roots() -> (store: rustls::RootCertStore)
    ensures
        root_anchors(store).len() == PUBLIC_ROOTS,
        forall|i: int|
            0 <= i < root_anchors(store).len() ==> #[trigger] root_anchors(store)[i] == public_root(
                i,
            ),
{
    rustls::RootCertStore::from_iter(webpki_roots::TLS_SERVER_ROOTS.iter().cloned())
}

/// Whose cryptography TLS uses.
#[derive(Clone, Copy, Debug, PartialEq, Eq, Structural)]
pub enum CryptoProvider {
    /// AWS-LC.
    AwsLc,
    /// Another one.
    Other,
}

/// What a TLS client offers and accepts.
pub struct TlsSettings {
    /// The trust anchors that server certificates are verified against.
    pub roots: Seq<TrustAnchor>,
    /// The protocols offered through ALPN, the most wanted first.
    pub alpn: Seq<Seq<u8>>,
    /// Whether data may be sent before the handshake is complete.
    pub early_data: bool,
    /// The versions that can be negotiated, by their number on the wire.
    pub versions: Set<u16>,
    /// Whether a certificate is offered to a server that asks for one.
    pub client_certificate: bool,
    /// Whose cryptography is used.
    pub crypto: CryptoProvider,
}

/// The limits and timers of a QUIC connection.
#[derive(Clone, Copy, Debug, PartialEq, Eq, Structural)]
pub struct TransportSettings {
    /// Bytes that the peer may send on one stream before they are read.
    pub stream_receive_window: u32,
    /// Bytes that the peer may send on all streams before they are read.
    pub receive_window: u32,
    /// Bytes that may be sent before they are acknowledged.
    pub send_window: u64,
    /// Bidirectional streams that the peer may open.
    pub bidi_streams: u32,
    /// Unidirectional streams that the peer may open.
    pub uni_streams: u32,
    /// Seconds after which an idle connection is kept alive.
    pub keep_alive_secs: u32,
    /// Seconds after which an idle connection is given up.
    pub idle_timeout_secs: u32,
}

/// `rustls::ClientConfig`: the TLS side of a connection.
#[verifier::external_type_specification]
#[verifier::external_body]
pub struct ExTlsConfig(rustls::ClientConfig);

/// `rustls::Error`: why a TLS configuration could not be made.
#[verifier::external_type_specification]
#[verifier::external_body]
pub struct ExTlsError(rustls::Error);

/// `quinn::TransportConfig`: the limits and timers of a connection.
#[verifier::external_type_specification]
#[verifier::external_body]
pub struct ExTransportConfig(quinn::TransportConfig);

/// `quinn::ClientConfig`: everything that an outgoing connection is made with.
#[verifier::external_type_specification]
#[verifier::external_body]
pub struct ExQuicConfig(quinn::ClientConfig);

/// `quinn::crypto::rustls::NoInitialCipherSuite`: TLS without the suite that QUIC starts with.
#[verifier::external_type_specification]
#[verifier::external_body]
pub struct ExNoInitialCipherSuite(quinn::crypto::rustls::NoInitialCipherSuite);

/// What a TLS configuration offers and accepts.
pub uninterp spec fn tls_settings(config: rustls::ClientConfig) -> TlsSettings;

/// Whether a TLS configuration has the cipher suite that every QUIC connection starts with.
pub uninterp spec fn tls_has_initial_suite(config: rustls::ClientConfig) -> bool;

/// The limits and timers that a transport configuration sets.
pub uninterp spec fn transport_settings(config: quinn::TransportConfig) -> TransportSettings;

/// What the TLS side of a connection offers and accepts.
pub uninterp spec fn quic_tls(config: quinn::ClientConfig) -> TlsSettings;

/// The limits and timers of a connection.
pub uninterp spec fn quic_transport(config: quinn::ClientConfig) -> TransportSettings;

/// Makes a TLS 1.3 client configuration with `rustls::ClientConfig::builder_with_provider` and the
/// AWS-LC provider: server certificates are verified against `roots`, no client certificate is
/// sent, and the two given options are set.
///
/// The provider's default suites include those of TLS 1.3, among them the one that QUIC starts
/// with, and its key exchange groups fit them, so that the builder does not fail.
#[verifier::external_body]
pub(crate) fn tls13_client(
    roots: rustls::RootCertStore,
    alpn: Vec<Vec<u8>>,
    early_data: bool,
) -> (config: Result<rustls::ClientConfig, rustls::Error>)
    ensures
        config is Ok,
        config matches Ok(tls) ==> {
            &&& tls_has_initial_suite(tls)
            &&& tls_settings(tls) == TlsSettings {
                roots: root_anchors(roots),
                alpn: alpn@.map_values(|protocol: Vec<u8>| protocol@),
                early_data,
                versions: set![0x0304u16],
                client_certificate: false,
                crypto: CryptoProvider::AwsLc,
            }
        },
{
    let provider = rustls::crypto::aws_lc_rs::default_provider();
    let mut tls = rustls::ClientConfig::builder_with_provider(std::sync::Arc::new(provider))
        .with_protocol_versions(&[&rustls::version::TLS13])?
        .with_root_certificates(roots)
        .with_no_client_auth();
    tls.alpn_protocols = alpn;
    tls.enable_early_data = early_data;
    Ok(tls)
}

/// Makes a `quinn::TransportConfig` and sets the given limits and timers, each with the setter of
/// its name; what is not given stays at quinn's default. Making an idle timeout of that many
/// milliseconds does not fail: they fit a QUIC integer.
#[verifier::external_body]
pub(crate) fn transport_config(settings: TransportSettings) -> (config: quinn::TransportConfig)
    ensures
        transport_settings(config) == settings,
{
    let idle = std::time::Duration::from_secs(settings.idle_timeout_secs.into());
    let keep_alive = std::time::Duration::from_secs(settings.keep_alive_secs.into());
    let mut transport = quinn::TransportConfig::default();
    transport.stream_receive_window(settings.stream_receive_window.into());
    transport.receive_window(settings.receive_window.into());
    transport.send_window(settings.send_window);
    transport.max_concurrent_bidi_streams(settings.bidi_streams.into());
    transport.max_concurrent_uni_streams(settings.uni_streams.into());
    transport.keep_alive_interval(Some(keep_alive));
    transport.max_idle_timeout(Some(idle.try_into().expect("bounded timeout")));
    transport
}

/// Joins the TLS side and the transport side with `quinn::crypto::rustls::QuicClientConfig`'s
/// `TryFrom`, `quinn::ClientConfig::new` and `transport_config`. It fails without the cipher suite
/// that QUIC starts with, and keeps both sides as they are.
#[verifier::external_body]
pub(crate) fn quic_client(tls: rustls::ClientConfig, transport: quinn::TransportConfig) -> (config:
    Result<quinn::ClientConfig, quinn::crypto::rustls::NoInitialCipherSuite>)
    ensures
        config is Ok <==> tls_has_initial_suite(tls),
        config matches Ok(client) ==> {
            &&& quic_tls(client) == tls_settings(tls)
            &&& quic_transport(client) == transport_settings(transport)
        },
{
    let crypto = quinn::crypto::rustls::QuicClientConfig::try_from(tls)?;
    let mut client = quinn::ClientConfig::new(std::sync::Arc::new(crypto));
    client.transport_config(std::sync::Arc::new(transport));
    Ok(client)
}

/// `bytes::Bytes`: a cheaply divisible run of bytes.
#[verifier::external_type_specification]
#[verifier::external_body]
pub struct ExBytes(bytes::Bytes);

/// The bytes that a buffer holds.
pub uninterp spec fn buffer_bytes(buffer: bytes::Bytes) -> Seq<u8>;

/// `bytes::Bytes::new` makes an empty buffer.
pub assume_specification[ bytes::Bytes::new ]() -> (buffer: bytes::Bytes)
    ensures
        buffer_bytes(buffer) == Seq::<u8>::empty(),
;

/// `bytes::Bytes::len` counts the bytes.
pub assume_specification[ bytes::Bytes::len ](this: &bytes::Bytes) -> (count: usize)
    ensures
        count == buffer_bytes(*this).len(),
;

/// `bytes::Bytes::is_empty` tells whether there are no bytes.
pub assume_specification[ bytes::Bytes::is_empty ](this: &bytes::Bytes) -> (empty: bool)
    ensures
        empty == (buffer_bytes(*this).len() == 0),
;

/// `bytes::Bytes::split_to` takes the first `at` bytes out; it panics where there are fewer.
pub assume_specification[ bytes::Bytes::split_to ](this: &mut bytes::Bytes, at: usize) -> (front:
    bytes::Bytes)
    requires
        at <= buffer_bytes(*old(this)).len(),
    ensures
        buffer_bytes(front) == buffer_bytes(*old(this)).take(at as int),
        buffer_bytes(*final(this)) == buffer_bytes(*old(this)).skip(at as int),
;

/// `bytes::Bytes::copy_from_slice` copies the given bytes.
pub assume_specification[ bytes::Bytes::copy_from_slice ](data: &[u8]) -> (buffer: bytes::Bytes)
    ensures
        buffer_bytes(buffer) == data@,
;

} // verus!
