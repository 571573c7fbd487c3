//! The configuration of one HTTP/3 proxy.
use vstd::prelude::*;
use vstd::string::StringExecFns;

use crate::authority::{authority, valid_endpoint, well_spelled};
use crate::credentials::{credentials_text, Http3ProxyCredentials};
use crate::error::{TunnelError, TunnelErrorView};
use crate::outside::{debug_duration, debug_str, duration_nanos, duration_text, quoted_text};
use crate::text::{
    decimal, decimal_reads_as_the_number, decimal_text, decimal_value, strip_brackets_spec,
};

verus! {

/// The longest dial deadline, in seconds.
pub const MAX_REQUEST_TIMEOUT_SECS: u64 = 300;

/// Whether a dial may take this long: more than no time, and at most the longest deadline.
pub open spec fn valid_timeout(timeout: std::time::Duration) -> bool {
    valid_timeout_nanos(duration_nanos(timeout))
}

/// Whether a dial may take this many nanoseconds.
pub open spec fn valid_timeout_nanos(nanos: u128) -> bool {
    0 < nanos <= MAX_REQUEST_TIMEOUT_SECS * 1_000_000_000
}

/// Checks that a dial may take this many nanoseconds.
pub fn check_timeout(nanos: u128) -> (checked: Result<(), TunnelError>)
    ensures
        checked is Ok <==> valid_timeout_nanos(nanos),
        checked matches Err(error) ==> error@ == TunnelErrorView::Configuration(
            "HTTP/3 request timeout must be within (0, 300] seconds"@,
        ),
{
    if nanos == 0 || nanos > MAX_REQUEST_TIMEOUT_SECS as u128 * 1_000_000_000 {
        return Err(
            TunnelError::configuration("HTTP/3 request timeout must be within (0, 300] seconds"),
        );
    }
    Ok(())
}

/// What a log may show of credentials that are there or not.
pub open spec fn optional_credentials_text(present: bool) -> Seq<char> {
    if present {
        "Some("@ + credentials_text() + ")"@
    } else {
        "None"@
    }
}

/// What a log may show of a configuration, out of the texts for its parts.
pub open spec fn configuration_text(
    proxy_config_id: Seq<char>,
    revision: Seq<char>,
    host: Seq<char>,
    port: u16,
    credentials: bool,
    request_timeout: Seq<char>,
) -> Seq<char> {
    "Http3TunnelSpec { proxy_config_id: "@ + proxy_config_id + ", revision: "@ + revision
        + ", host: "@ + host + ", port: "@ + decimal(port as nat) + ", credentials: "@
        + optional_credentials_text(credentials) + ", request_timeout: "@ + request_timeout + " }"@
}

/// Joins the texts for the parts of a configuration. Of the credentials it takes whether there are
/// any.
pub fn join_configuration(
    proxy_config_id: &str,
    revision: &str,
    host: &str,
    port: u16,
    credentials: bool,
    request_timeout: &str,
) -> (text: String)
    ensures
        text@ == configuration_text(
            proxy_config_id@,
            revision@,
            host@,
            port,
            credentials,
            request_timeout@,
        ),
{
    let mut text = "Http3TunnelSpec { proxy_config_id: ".to_owned();
    text.append(proxy_config_id);
    text.append(", revision: ");
    text.append(revision);
    text.append(", host: ");
    text.append(host);
    text.append(", port: ");
    text.append(decimal_text(port).as_str());
    text.append(", credentials: ");
    let mut shown = "None".to_owned();
    if credentials {
        shown = "Some(".to_owned();
        shown.append("Http3ProxyCredentials(<redacted>)");
        shown.append(")");
    }
    text.append(shown.as_str());
    text.append(", request_timeout: ");
    text.append(request_timeout);
    text.append(" }");
    text
}

/// One immutable HTTP/3 proxy configuration revision.
///
/// Only `host` is resolved using host networking. Destination names of a dial travel in
/// CONNECT's authority to the proxy, without local resolution.
pub struct Http3TunnelSpec {
    pub proxy_config_id: String,
    pub revision: String,
    pub host: String,
    pub port: u16,
    pub credentials: Option<Http3ProxyCredentials>,
    /// Total admission, bootstrap, TLS, and CONNECT response deadline.
    pub request_timeout: std::time::Duration,
}

impl Clone for Http3TunnelSpec {
    fn clone(&self) -> (copy: Self)
        ensures
            copy == *self,
    {
        Http3TunnelSpec {
            proxy_config_id: self.proxy_config_id.clone(),
            revision: self.revision.clone(),
            host: self.host.clone(),
            port: self.port,
            credentials: match &self.credentials {
                Some(credentials) => Some(credentials.clone()),
                None => None,
            },
            request_timeout: self.request_timeout,
        }
    }
}

impl Http3TunnelSpec {
    /// Whether a tunnel can be built from this configuration.
    pub open spec fn is_valid(&self) -> bool {
        valid_endpoint(self.host@, self.port) && valid_timeout(self.request_timeout)
    }

    /// What a log may show of the configuration. Of the credentials it shows whether there are any.
    pub open spec fn shown(&self) -> Seq<char> {
        configuration_text(
            quoted_text(self.proxy_config_id@),
            quoted_text(self.revision@),
            quoted_text(self.host@),
            self.port,
            self.credentials is Some,
            duration_text(duration_nanos(self.request_timeout)),
        )
    }

    /// What a log may show of the configuration: every field, but the credentials redacted.
    pub fn debug_text(&self) -> (text: String)
        ensures
            text@ == self.shown(),
    {
        join_configuration(
            debug_str(self.proxy_config_id.as_str()).as_str(),
            debug_str(self.revision.as_str()).as_str(),
            debug_str(self.host.as_str()).as_str(),
            self.port,
            self.credentials.is_some(),
            debug_duration(&self.request_timeout).as_str(),
        )
    }

    /// Checks the proxy endpoint first, then the dial deadline.
    pub fn validate(&self) -> (checked: Result<(), TunnelError>)
        ensures
            checked is Ok <==> self.is_valid(),
            checked is Ok ==> well_spelled(strip_brackets_spec(self.host@)),
            checked matches Err(error) ==> error@ == TunnelErrorView::Configuration(
                if valid_endpoint(self.host@, self.port) {
                    "HTTP/3 request timeout must be within (0, 300] seconds"@
                } else {
                    "invalid HTTP/3 tunnel host or port"@
                },
            ),
    {
        match authority(self.host.as_str(), self.port) {
            Ok(_) => {},
            Err(error) => {
                return Err(error);
            },
        }
        check_timeout(self.request_timeout.as_nanos())
    }
}

/// What a log may show of a configuration depends on neither the user name nor the password: two
/// configurations that agree otherwise, and both have credentials, are shown alike.
pub proof fn shown_configuration_hides_credentials(
    configuration: Http3TunnelSpec,
    credentials: Http3ProxyCredentials,
    other: Http3ProxyCredentials,
)
    ensures
        (Http3TunnelSpec { credentials: Some(credentials), ..configuration }).shown() == (
        Http3TunnelSpec { credentials: Some(other), ..configuration }).shown(),
{
}

/// A configuration is valid exactly if its endpoint is accepted and its deadline is longer than no
/// time and no longer than 300 seconds.
pub proof fn configurations_are_refused_only_for_cause(configuration: Http3TunnelSpec, nanos: u128)
    ensures
        valid_timeout_nanos(nanos) <==> 1 <= nanos <= 300_000_000_000,
        configuration.is_valid() <==> valid_endpoint(configuration.host@, configuration.port) && 1
            <= duration_nanos(configuration.request_timeout) <= 300_000_000_000,
{
}

/// A shown configuration names every field, in order, and each with its own value: the port in
/// decimal, and of the credentials only whether there are any.
pub proof fn shown_configuration_names_every_field(
    proxy_config_id: Seq<char>,
    revision: Seq<char>,
    host: Seq<char>,
    port: u16,
    credentials: bool,
    request_timeout: Seq<char>,
    configuration: Http3TunnelSpec,
)
    ensures
        ({
            let opening = "Http3TunnelSpec { proxy_config_id: "@ + proxy_config_id;
            let middle = ", revision: "@ + revision + ", host: "@ + host + ", port: "@;
            let shown = if credentials {
                ", credentials: "@ + ("Some("@ + "Http3ProxyCredentials(<redacted>)"@ + ")"@)
            } else {
                ", credentials: "@ + "None"@
            };
            let closing = ", request_timeout: "@ + request_timeout + " }"@;
            let text = configuration_text(
                proxy_config_id,
                revision,
                host,
                port,
                credentials,
                request_timeout,
            );
            &&& text == opening + middle + decimal(port as nat) + shown + closing
            &&& decimal_value(decimal(port as nat)) == port
        }),
        configuration.shown() == configuration_text(
            quoted_text(configuration.proxy_config_id@),
            quoted_text(configuration.revision@),
            quoted_text(configuration.host@),
            configuration.port,
            configuration.credentials is Some,
            duration_text(duration_nanos(configuration.request_timeout)),
        ),
{
    let opening = "Http3TunnelSpec { proxy_config_id: "@ + proxy_config_id;
    let middle = ", revision: "@ + revision + ", host: "@ + host + ", port: "@;
    let shown = if credentials {
        ", credentials: "@ + ("Some("@ + "Http3ProxyCredentials(<redacted>)"@ + ")"@)
    } else {
        ", credentials: "@ + "None"@
    };
    let closing = ", request_timeout: "@ + request_timeout + " }"@;
    assert(configuration_text(
        proxy_config_id,
        revision,
        host,
        port,
        credentials,
        request_timeout,
    ) =~= opening + middle + decimal(port as nat) + shown + closing);
    decimal_reads_as_the_number(port as nat);
}

} // verus!
