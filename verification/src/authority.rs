//! The authority that a CONNECT request names: a host and a port.
use vstd::prelude::*;
use vstd::string::StringExecFns;
use vstd::utf8::{encode_utf8, is_ascii_chars, is_ascii_chars_encode_utf8};

use crate::error::{TunnelError, TunnelErrorView};
use crate::outside::{
    authority_chars, ip_family, is_authority_char, is_host_char, is_ipv6_char,
    is_literal_authority, is_name_authority, is_plain_authority, occurrences, parse_authority,
    parse_ip, IpFamily,
};
use crate::text::{
    decimal, decimal_reads_as_the_number, decimal_text, decimal_value, is_bracketed, is_digit,
    lemma_decimal_digits, lemma_decimal_injective, strip_brackets, strip_brackets_spec, trim_brackets_spec,
};

verus! {

/// The longest host, in bytes.
pub const MAX_HOST: usize = 253;

/// Whether every character of `text` is a host character.
pub open spec fn is_name(text: Seq<char>) -> bool {
    forall|i: int| 0 <= i < text.len() ==> is_host_char(#[trigger] text[i])
}

/// Whether `text` is spelled like an IPv6 address: hexadecimal digits, `.` and at most eight `:`.
pub open spec fn is_ipv6_spelling(text: Seq<char>) -> bool {
    &&& forall|i: int| 0 <= i < text.len() ==> is_ipv6_char(#[trigger] text[i])
    &&& occurrences(text, ':') <= 8
}

/// Whether a tunnel can lead to, or through, this host and port: the host, without brackets, is an
/// IP address of the given family or a name, and short enough.
pub open spec fn is_accepted(host: Seq<char>, family: Option<IpFamily>, port: u16) -> bool {
    &&& host.len() > 0
    &&& encode_utf8(host).len() <= MAX_HOST
    &&& port != 0
    &&& family is Some || is_name(host)
}

/// Whether a tunnel can lead to, or through, this host and port. The host may be in brackets.
pub open spec fn valid_endpoint(host: Seq<char>, port: u16) -> bool {
    is_accepted(strip_brackets_spec(host), ip_family(strip_brackets_spec(host)), port)
}

/// Whether the characters of a host, without brackets, are those of its family: an IPv6 address is
/// spelled as such, and anything else as a name.
pub open spec fn is_spelled_as(host: Seq<char>, family: Option<IpFamily>) -> bool {
    if family == Some(IpFamily::V6) {
        is_ipv6_spelling(host)
    } else {
        is_name(host)
    }
}

/// How the characters of an accepted host, without brackets, are spelled.
pub open spec fn well_spelled(host: Seq<char>) -> bool {
    is_spelled_as(host, ip_family(host))
}

/// The authority for a host, without brackets, and a port: `host:port`, an IPv6 address in
/// brackets.
pub open spec fn authority_text_for(host: Seq<char>, family: Option<IpFamily>, port: u16) -> Seq<
    char,
> {
    if family == Some(IpFamily::V6) {
        seq!['['] + host + seq![']', ':'] + decimal(port as nat)
    } else {
        host + seq![':'] + decimal(port as nat)
    }
}

/// The authority for a host, possibly in brackets, and a port.
pub open spec fn authority_text(host: Seq<char>, port: u16) -> Seq<char> {
    let inner = strip_brackets_spec(host);
    authority_text_for(inner, ip_family(inner), port)
}

proof fn lemma_occurrences_concat(a: Seq<char>, b: Seq<char>, wanted: char)
    ensures
        occurrences(a + b, wanted) == occurrences(a, wanted) + occurrences(b, wanted),
    decreases b.len(),
{
    if b.len() == 0 {
        assert(a + b =~= a);
    } else {
        assert((a + b).drop_last() =~= a + b.drop_last());
        lemma_occurrences_concat(a, b.drop_last(), wanted);
    }
}

proof fn lemma_no_occurrences(text: Seq<char>, wanted: char)
    requires
        forall|i: int| 0 <= i < text.len() ==> #[trigger] text[i] != wanted,
    ensures
        occurrences(text, wanted) == 0,
    decreases text.len(),
{
    if text.len() > 0 {
        lemma_no_occurrences(text.drop_last(), wanted);
    }
}

/// `:port` holds one colon, and digits after it.
proof fn lemma_port_suffix(port: u16)
    ensures
        ({
            let suffix = seq![':'] + decimal(port as nat);
            &&& 2 <= suffix.len() <= 6
            &&& suffix[0] == ':'
            &&& forall|i: int| 0 < i < suffix.len() ==> is_digit(#[trigger] suffix[i])
            &&& occurrences(suffix, ':') == 1
        }),
{
    let digits = decimal(port as nat);
    lemma_decimal_digits(port as nat);
    lemma_occurrences_concat(seq![':'], digits, ':');
    lemma_no_occurrences(digits, ':');
    lemma_no_occurrences(seq![':'].drop_last(), ':');
    assert(occurrences(seq![':'], ':') == 1);
    let suffix = seq![':'] + digits;
    assert forall|i: int| 0 < i < suffix.len() implies is_digit(#[trigger] suffix[i]) by {
        assert(suffix[i] == digits[i - 1]);
    }
}

/// An authority that is spelled as its family asks has one of the shapes that are always read.
proof fn lemma_authority_shape(inner: Seq<char>, family: Option<IpFamily>, port: u16)
    requires
        inner.len() > 0,
        is_spelled_as(inner, family),
    ensures
        family == Some(IpFamily::V6) ==> is_literal_authority(
            authority_text_for(inner, family, port),
            inner.len() as int + 1,
        ),
        family != Some(IpFamily::V6) ==> is_name_authority(authority_text_for(inner, family, port)),
{
    let text = authority_text_for(inner, family, port);
    let suffix = seq![':'] + decimal(port as nat);
    lemma_port_suffix(port);
    if family == Some(IpFamily::V6) {
        let close: int = inner.len() as int + 1;
        assert(text.subrange(1, close) =~= inner);
        assert(text.skip(close + 1) =~= suffix);
        assert forall|i: int| 0 < i < close implies is_ipv6_char(#[trigger] text[i]) by {
            assert(text[i] == inner[i - 1]);
        }
        assert forall|i: int| close < i < text.len() implies ('0' <= #[trigger] text[i] <= '9'
            || text[i] == ':') by {
            assert(text[i] == suffix[i - close - 1]);
        }
    } else {
        assert(text =~= inner + suffix);
        lemma_occurrences_concat(inner, suffix, ':');
        lemma_no_occurrences(inner, ':');
        assert forall|i: int| 0 <= i < text.len() implies (is_host_char(#[trigger] text[i])
            || text[i] == ':') by {
            if i < inner.len() {
                assert(text[i] == inner[i]);
            } else {
                assert(text[i] == suffix[i - inner.len()]);
            }
        }
    }
}

/// Whether every character of `text` is a host character.
fn is_host_name(text: &str) -> (all: bool)
    ensures
        all == is_name(text@),
{
    for c in it: text.chars()
        invariant
            forall|i: int| 0 <= i < it.index() ==> is_host_char(#[trigger] text@[i]),
            it.seq() == text@,
    {
        let allowed = ('0' <= c && c <= '9') || ('a' <= c && c <= 'z') || ('A' <= c && c <= 'Z')
            || c == '.' || c == '_' || c == '-';
        if !allowed {
            assert(!is_host_char(text@[it.index() as int]));
            return false;
        }
    }
    true
}

/// The authority for a host, without brackets, of which it is known whether it is an IP address and
/// of which family, and a port.
///
/// A host that is accepted but not spelled as its family asks is none that reading it as an IP
/// address gives; whether its text is an authority all the same stays open.
pub fn authority_for(inner: &str, family: Option<IpFamily>, port: u16) -> (made: Result<
    http::uri::Authority,
    TunnelError,
>)
    ensures
        made is Ok ==> is_accepted(inner@, family, port),
        is_accepted(inner@, family, port) && is_spelled_as(inner@, family) ==> made is Ok,
        made matches Ok(authority) ==> authority_chars(authority) == authority_text_for(
            inner@,
            family,
            port,
        ),
        made matches Err(error) ==> error@ == TunnelErrorView::Configuration(
            if is_accepted(inner@, family, port) {
                "invalid CONNECT authority"@
            } else {
                "invalid HTTP/3 tunnel host or port"@
            },
        ),
{
    let valid = !inner.is_empty() && inner.as_bytes().len() <= MAX_HOST && port != 0 && (
    family.is_some() || is_host_name(inner));
    if !valid {
        return Err(TunnelError::configuration("invalid HTTP/3 tunnel host or port"));
    }
    let ipv6 = match family {
        Some(IpFamily::V6) => true,
        _ => false,
    };
    let mut value = String::new();
    let digits = decimal_text(port);
    if ipv6 {
        value.append("[");
        value.append(inner);
        value.append("]:");
    } else {
        value.append(inner);
        value.append(":");
    }
    value.append(digits.as_str());
    proof {
        reveal_strlit("[");
        reveal_strlit("]:");
        reveal_strlit(":");
        assert(value@ =~= authority_text_for(inner@, family, port));
        if is_spelled_as(inner@, family) {
            lemma_authority_shape(inner@, family, port);
        }
    }
    match parse_authority(value.as_str()) {
        Ok(authority) => Ok(authority),
        Err(_) => Err(TunnelError::configuration("invalid CONNECT authority")),
    }
}

/// The authority for a host, possibly in brackets, and a port.
///
/// Names are not resolved. Anything but an IP address or a name of letters, digits, `.`, `_` and
/// `-` is refused, so no user information, port, path or query can ride along in the host.
pub fn authority(host: &str, port: u16) -> (made: Result<http::uri::Authority, TunnelError>)
    ensures
        made is Ok <==> valid_endpoint(host@, port),
        made matches Ok(authority) ==> {
            &&& authority_chars(authority) == authority_text(host@, port)
            &&& well_spelled(strip_brackets_spec(host@))
            &&& is_plain_authority(authority_chars(authority))
        },
        made matches Err(error) ==> error@ == TunnelErrorView::Configuration(
            "invalid HTTP/3 tunnel host or port"@,
        ),
{
    let inner = strip_brackets(host);
    let family = parse_ip(inner);
    proof {
        if valid_endpoint(host@, port) {
            match family {
                Some(IpFamily::V4) => {
                    assert(is_name(inner@));
                },
                Some(IpFamily::V6) => {
                    assert(is_ipv6_spelling(inner@));
                },
                None => {
                    assert(is_name(inner@));
                },
            }
            authority_carries_only_host_and_port(host@, port);
        }
    }
    authority_for(inner, family, port)
}

/// Nothing but a host and a port ends up in the authority of an accepted endpoint: no `@`, no
/// `/`, `?` or `#`, no `%`, no space and no control character.
pub proof fn authority_carries_only_host_and_port(host: Seq<char>, port: u16)
    requires
        valid_endpoint(host, port),
        well_spelled(strip_brackets_spec(host)),
    ensures
        is_plain_authority(authority_text(host, port)),
        3 <= authority_text(host, port).len() <= MAX_HOST + 8,
{
    let inner = strip_brackets_spec(host);
    let text = authority_text(host, port);
    lemma_decimal_digits(port as nat);
    lemma_authority_shape(inner, ip_family(inner), port);
    lemma_accepted_is_ascii(inner);
    assert forall|i: int| 0 <= i < text.len() implies is_authority_char(#[trigger] text[i]) by {
        if ip_family(inner) == Some(IpFamily::V6) && 0 < i <= inner.len() {
            assert(is_ipv6_char(text[i]));
        }
    }
}

/// An accepted host is ASCII, so its bytes are its characters.
proof fn lemma_accepted_is_ascii(inner: Seq<char>)
    requires
        well_spelled(inner),
    ensures
        encode_utf8(inner).len() == inner.len(),
{
    assert(is_ascii_chars(inner)) by {
        assert forall|i: int| 0 <= i < inner.len() implies '\0' <= #[trigger] inner[i]
            <= '\u{7f}' by {
            assert(is_ipv6_char(inner[i]) || is_host_char(inner[i]));
        }
    }
    is_ascii_chars_encode_utf8(inner);
}

/// The last colon of an authority stands right before the port.
proof fn lemma_port_position(host: Seq<char>, port: u16)
    ensures
        ({
            let text = authority_text(host, port);
            let colon = text.len() - decimal(port as nat).len() - 1;
            &&& 0 <= colon
            &&& text[colon] == ':'
            &&& text.skip(colon + 1) == decimal(port as nat)
            &&& forall|i: int| colon < i < text.len() ==> #[trigger] text[i] != ':'
        }),
{
    let text = authority_text(host, port);
    let digits = decimal(port as nat);
    let colon = text.len() - digits.len() - 1;
    lemma_decimal_digits(port as nat);
    assert(text.skip(colon + 1) =~= digits);
    assert forall|i: int| colon < i < text.len() implies #[trigger] text[i] != ':' by {
        assert(text[i] == digits[i - colon - 1]);
    }
}

/// The authority tells the endpoint: no two accepted endpoints with different hosts or different
/// ports share one. Hosts are the same here when they agree up to one pair of brackets.
pub proof fn authority_identifies_endpoint(
    host: Seq<char>,
    port: u16,
    other_host: Seq<char>,
    other_port: u16,
)
    requires
        valid_endpoint(host, port),
        well_spelled(strip_brackets_spec(host)),
        valid_endpoint(other_host, other_port),
        well_spelled(strip_brackets_spec(other_host)),
        authority_text(host, port) == authority_text(other_host, other_port),
    ensures
        strip_brackets_spec(host) == strip_brackets_spec(other_host),
        port == other_port,
{
    let text = authority_text(host, port);
    let inner = strip_brackets_spec(host);
    let other_inner = strip_brackets_spec(other_host);
    let digits = decimal(port as nat);
    let other_digits = decimal(other_port as nat);
    lemma_port_position(host, port);
    lemma_port_position(other_host, other_port);
    let colon: int = text.len() - digits.len() - 1;
    let other_colon: int = text.len() - other_digits.len() - 1;
    assert(colon == other_colon) by {
        assert(text[colon] == ':');
        assert(text[other_colon] == ':');
    }
    lemma_decimal_injective(port as nat, other_port as nat);
    if ip_family(inner) == Some(IpFamily::V6) {
        assert(text[0] == '[');
        assert(inner =~= text.subrange(1, colon - 1));
    } else {
        assert(inner =~= text.take(colon));
        assert(text[0] == inner[0]);
    }
    if ip_family(other_inner) == Some(IpFamily::V6) {
        assert(other_inner =~= text.subrange(1, colon - 1));
    } else {
        assert(other_inner =~= text.take(colon));
        assert(text[0] == other_inner[0]);
    }
}

/// For an accepted endpoint, dropping every leading `[` and trailing `]` of the host is the same
/// as dropping one pair of brackets.
pub proof fn accepted_host_has_at_most_one_bracket_pair(host: Seq<char>, port: u16)
    requires
        valid_endpoint(host, port),
        well_spelled(strip_brackets_spec(host)),
    ensures
        trim_brackets_spec(host) == strip_brackets_spec(host),
{
    let inner = strip_brackets_spec(host);
    assert(inner[0] != '[' && inner.last() != ']') by {
        assert(is_ipv6_char(inner[0]) || is_host_char(inner[0]));
        assert(is_ipv6_char(inner.last()) || is_host_char(inner.last()));
    }
    if is_bracketed(host) {
        let tail = host.drop_first();
        assert(tail.drop_last() =~= inner);
        assert(tail[0] == inner[0]);
        assert(trim_brackets_spec(tail) == trim_brackets_spec(tail.drop_last()));
    }
}

/// Brackets around a host change nothing.
pub proof fn brackets_are_optional(host: Seq<char>, port: u16)
    requires
        !is_bracketed(host),
    ensures
        valid_endpoint(seq!['['] + host + seq![']'], port) == valid_endpoint(host, port),
        authority_text(seq!['['] + host + seq![']'], port) == authority_text(host, port),
{
    let bracketed = seq!['['] + host + seq![']'];
    assert(bracketed.subrange(1, bracketed.len() - 1) =~= host);
}

/// Whether a character is an ASCII letter or digit, `.`, `_` or `-`, by its code.
pub open spec fn is_name_code(code: int) -> bool {
    ||| 0x30 <= code <= 0x39
    ||| 0x41 <= code <= 0x5a
    ||| 0x61 <= code <= 0x7a
    ||| code == 0x2e
    ||| code == 0x5f
    ||| code == 0x2d
}

/// A host and a port are refused exactly for one of these reasons: the host is empty or longer than
/// 253 bytes, the port is zero, or the host is no IP address and holds something else than letters,
/// digits, `.`, `_` and `-`.
pub proof fn endpoints_are_refused_only_for_cause(
    host: Seq<char>,
    family: Option<IpFamily>,
    port: u16,
)
    ensures
        !is_accepted(host, family, port) <==> {
            ||| host.len() == 0
            ||| encode_utf8(host).len() > 253
            ||| port == 0
            ||| family is None && exists|i: int|
                0 <= i < host.len() && !is_name_code((#[trigger] host[i]) as int)
        },
        valid_endpoint(host, port) <==> is_accepted(
            strip_brackets_spec(host),
            ip_family(strip_brackets_spec(host)),
            port,
        ),
{
    assert(is_name(host) <==> forall|i: int|
        0 <= i < host.len() ==> is_name_code((#[trigger] host[i]) as int));
}

/// The authority reads back: behind its last `:` stands the port in decimal, and before it the host,
/// an IPv6 address and nothing else in brackets.
pub proof fn authority_reads_back(host: Seq<char>, family: Option<IpFamily>, port: u16)
    ensures
        ({
            let text = authority_text_for(host, family, port);
            let shown: int = if family == Some(IpFamily::V6) {
                host.len() as int + 2
            } else {
                host.len() as int
            };
            &&& text[shown] == ':'
            &&& decimal_value(text.skip(shown + 1)) == port
            &&& text.skip(shown + 1) == decimal(port as nat)
            &&& family == Some(IpFamily::V6) ==> text[0] == '[' && text[shown - 1] == ']'
                && text.subrange(1, shown - 1) == host
            &&& family != Some(IpFamily::V6) ==> text.take(shown) == host
        }),
        authority_text(host, port) == authority_text_for(
            strip_brackets_spec(host),
            ip_family(strip_brackets_spec(host)),
            port,
        ),
{
    let text = authority_text_for(host, family, port);
    decimal_reads_as_the_number(port as nat);
    if family == Some(IpFamily::V6) {
        assert(text.skip(host.len() as int + 3) =~= decimal(port as nat));
        assert(text.subrange(1, host.len() as int + 1) =~= host);
    } else {
        assert(text.skip(host.len() as int + 1) =~= decimal(port as nat));
        assert(text.take(host.len() as int) =~= host);
    }
}

/// A host is spelled as an IPv6 address if it holds hexadecimal digits, `:` and `.` alone and at most
/// eight `:`; otherwise it is spelled as a name.
pub proof fn spelling_goes_by_family(host: Seq<char>, family: Option<IpFamily>)
    ensures
        is_spelled_as(host, family) <==> if family == Some(IpFamily::V6) {
            &&& forall|i: int|
                0 <= i < host.len() ==> {
                    let code = (#[trigger] host[i]) as int;
                    ||| 0x30 <= code <= 0x3a
                    ||| 0x41 <= code <= 0x46
                    ||| 0x61 <= code <= 0x66
                    ||| code == 0x2e
                }
            &&& occurrences(host, ':') <= 8
        } else {
            forall|i: int| 0 <= i < host.len() ==> is_name_code((#[trigger] host[i]) as int)
        },
        well_spelled(host) <==> is_spelled_as(host, ip_family(host)),
{
    assert(is_name(host) <==> forall|i: int|
        0 <= i < host.len() ==> is_name_code((#[trigger] host[i]) as int));
}

} // verus!
