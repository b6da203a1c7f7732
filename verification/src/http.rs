//! The shared HTTP client that remote-hosts refresh and URL import go
//! through: its settings, and building it.

use vstd::prelude::*;
use crate::text::{concat, string_of, trim_seq, trim_str, u64_to_decimal, decimal_seq};
use crate::version::{version_label, version_label_spec};

verus! {

broadcast use vstd::string::group_string_axioms;

/// Connect + read timeout of every request, in seconds.
pub const DEFAULT_TIMEOUT_SECS: u64 = 30;

/// `SwitchHosts/<major.minor.patch> (Tauri; switchhosts)`.
pub open spec fn user_agent_spec() -> Seq<char> {
    "SwitchHosts/"@ + version_label_spec() + " (Tauri; switchhosts)"@
}

/// The user agent every request carries.
pub fn user_agent() -> (r: String)
    ensures
        r@ == user_agent_spec(),
{
    let v = version_label();
    let a = concat("SwitchHosts/", v.as_str());
    concat(a.as_str(), " (Tauri; switchhosts)")
}

/// The proxy URL to use: `<protocol>://<host>:<port>` when the proxy is
/// switched on, the host is not blank and the port is set.
pub open spec fn proxy_url_spec(use_proxy: bool, protocol: Seq<char>, host: Seq<char>, port: u32) -> Option<
    Seq<char>,
> {
    if use_proxy && trim_seq(host).len() > 0 && port > 0 {
        Some(protocol + "://"@ + host + ":"@ + decimal_seq(port as nat))
    } else {
        None
    }
}

pub fn proxy_url(use_proxy: bool, protocol: &str, host: &str, port: u32) -> (r: Option<String>)
    ensures
        r matches Some(u) ==> proxy_url_spec(use_proxy, protocol@, host@, port) == Some(u@),
        r is None ==> proxy_url_spec(use_proxy, protocol@, host@, port) is None,
{
    if use_proxy && !trim_str(host).as_str().is_empty() && port > 0 {
        let a = concat(protocol, "://");
        let b = concat(a.as_str(), host);
        let c = concat(b.as_str(), ":");
        let n = u64_to_decimal(port as u64);
        Some(concat(c.as_str(), n.as_str()))
    } else {
        None
    }
}

#[verifier::external_type_specification]
#[verifier::external_body]
pub struct ExReqwestProxy(reqwest::Proxy);

#[verifier::external_type_specification]
#[verifier::external_body]
pub struct ExReqwestError(reqwest::Error);

#[verifier::external_type_specification]
#[verifier::external_body]
pub struct ExReqwestClient(reqwest::Client);

/// Whether `reqwest::Proxy::all` accepts `url`: it parses as a URL with a
/// host, by itself or with `http://` put before it.
pub uninterp spec fn spec_proxy_accepts(url: Seq<char>) -> bool;

/// Calls `reqwest::Proxy::all`, which parses `url` into a proxy for every
/// scheme. Trusted to succeed exactly on the URLs named by
/// `spec_proxy_accepts`, a function of the text alone.
#[verifier::external_body]
fn proxy_all(url: &str) -> (r: Result<reqwest::Proxy, reqwest::Error>)
    ensures
        r is Ok <==> spec_proxy_accepts(url@),
{
    reqwest::Proxy::all(url)
}

/// The text of a `reqwest::Error` (its `Display` impl). Nothing is claimed
/// of it.
#[verifier::external_body]
fn reqwest_error_text(e: &reqwest::Error) -> String {
    e.to_string()
}

// ---- settings ------------------------------------------------------------------

/// What the client is built with, as plain values.
pub struct ClientSettings {
    /// Connect + read timeout, in seconds.
    pub timeout_secs: u64,
    pub user_agent: String,
    /// The proxy for every scheme, if any.
    pub proxy: Option<String>,
}

pub open spec fn opt_string_view(o: Option<String>) -> Option<Seq<char>> {
    match o {
        Some(s) => Some(s@),
        None => None,
    }
}

/// The settings for the user's proxy configuration: the 30 s timeout, the
/// SwitchHosts user agent, and the proxy that `proxy_url_spec` gives.
pub open spec fn settings_for(
    s: ClientSettings,
    use_proxy: bool,
    protocol: Seq<char>,
    host: Seq<char>,
    port: u32,
) -> bool {
    &&& s.timeout_secs == DEFAULT_TIMEOUT_SECS
    &&& s.user_agent@ == user_agent_spec()
    &&& opt_string_view(s.proxy) == proxy_url_spec(use_proxy, protocol, host, port)
}

pub fn client_settings(use_proxy: bool, protocol: &str, host: &str, port: u32) -> (r: ClientSettings)
    ensures
        settings_for(r, use_proxy, protocol@, host@, port),
{
    ClientSettings {
        timeout_secs: DEFAULT_TIMEOUT_SECS,
        user_agent: user_agent(),
        proxy: proxy_url(use_proxy, protocol, host, port),
    }
}

// ---- building --------------------------------------------------------------------

/// Why the client was not built.
pub enum ClientError {
    /// `reqwest` did not accept the proxy URL.
    InvalidProxy { url: String, reason: String },
    /// `reqwest` could not build the client (its TLS backend, say).
    Build { reason: String },
}

/// `invalid proxy <url>: <reason>`, or the builder's own message.
pub open spec fn client_error_text(e: ClientError) -> Seq<char> {
    match e {
        ClientError::InvalidProxy { url, reason } => "invalid proxy "@ + url@ + ": "@ + reason@,
        ClientError::Build { reason } => reason@,
    }
}

impl ClientError {
    pub fn to_text(&self) -> (r: String)
        ensures
            r@ == client_error_text(*self),
    {
        match self {
            ClientError::InvalidProxy { url, reason } => {
                let a = concat("invalid proxy ", url.as_str());
                let b = concat(a.as_str(), ": ");
                concat(b.as_str(), reason.as_str())
            },
            ClientError::Build { reason } => string_of(reason.as_str()),
        }
    }
}

/// The URL of an `InvalidProxy` error, `None` for any other result.
pub open spec fn invalid_proxy_url<T>(r: Result<T, ClientError>) -> Option<Seq<char>> {
    match r {
        Err(ClientError::InvalidProxy { url, .. }) => Some(url@),
        _ => None,
    }
}

/// The proxy URL, when there is one and `reqwest` rejects it.
pub open spec fn rejected_proxy(proxy: Option<Seq<char>>) -> Option<Seq<char>> {
    match proxy {
        Some(u) => if spec_proxy_accepts(u) {
            None
        } else {
            Some(u)
        },
        None => None,
    }
}

/// A client together with what its builder was handed: the timeout, the
/// user agent, and whether a proxy was given.
pub struct BuiltClient {
    pub client: reqwest::Client,
    pub timeout_secs: u64,
    pub user_agent: String,
    pub proxied: bool,
}

/// Calls `reqwest::Client::builder`, `ClientBuilder::timeout` with
/// `settings.timeout_secs` seconds, `ClientBuilder::user_agent` with
/// `settings.user_agent`, and `ClientBuilder::build`, which sets up the TLS
/// backend and can fail for reasons of the machine. The client comes back
/// with the timeout and user agent it handed the builder, and no proxy;
/// nothing is claimed of the client itself.
#[verifier::external_body]
fn reqwest_client(settings: &ClientSettings) -> (r: Result<BuiltClient, reqwest::Error>)
    ensures
        r matches Ok(b) ==> b.timeout_secs == settings.timeout_secs && b.user_agent@
            == settings.user_agent@ && !b.proxied,
{
    let built = reqwest::Client::builder()
        .timeout(std::time::Duration::from_secs(settings.timeout_secs))
        .user_agent(settings.user_agent.as_str())
        .build();
    match built {
        Ok(client) => Ok(BuiltClient {
            client,
            timeout_secs: settings.timeout_secs,
            user_agent: settings.user_agent.clone(),
            proxied: false,
        }),
        Err(e) => Err(e),
    }
}

/// As `reqwest_client`, with `ClientBuilder::proxy` given `proxy` before
/// `build`; the client comes back marked as given a proxy.
#[verifier::external_body]
fn reqwest_client_with_proxy(settings: &ClientSettings, proxy: reqwest::Proxy) -> (r: Result<
    BuiltClient,
    reqwest::Error,
>)
    ensures
        r matches Ok(b) ==> b.timeout_secs == settings.timeout_secs && b.user_agent@
            == settings.user_agent@ && b.proxied,
{
    let built = reqwest::Client::builder()
        .timeout(std::time::Duration::from_secs(settings.timeout_secs))
        .user_agent(settings.user_agent.as_str())
        .proxy(proxy)
        .build();
    match built {
        Ok(client) => Ok(BuiltClient {
            client,
            timeout_secs: settings.timeout_secs,
            user_agent: settings.user_agent.clone(),
            proxied: true,
        }),
        Err(e) => Err(e),
    }
}

/// Build a client with `settings`: its proxy parsed by `reqwest::Proxy::all`
/// and given to the builder, or, where `reqwest` rejects it, the
/// `InvalidProxy` error for it. Fails with `InvalidProxy` exactly then. A
/// built client was handed the settings' timeout and user agent, and a
/// proxy exactly when the settings have one.
pub fn build_client_with(settings: &ClientSettings) -> (r: Result<BuiltClient, ClientError>)
    ensures
        invalid_proxy_url(r) == rejected_proxy(opt_string_view(settings.proxy)),
        r matches Ok(b) ==> b.timeout_secs == settings.timeout_secs && b.user_agent@
            == settings.user_agent@ && b.proxied == settings.proxy is Some,
{
    let built = match &settings.proxy {
        None => reqwest_client(settings),
        Some(url) => match proxy_all(url.as_str()) {
            Ok(p) => reqwest_client_with_proxy(settings, p),
            Err(e) => {
                return Err(
                    ClientError::InvalidProxy {
                        url: string_of(url.as_str()),
                        reason: reqwest_error_text(&e),
                    },
                );
            },
        },
    };
    match built {
        Ok(b) => Ok(b),
        Err(e) => Err(ClientError::Build { reason: reqwest_error_text(&e) }),
    }
}

/// The shared HTTP client for the user's proxy configuration: built with
/// the settings `client_settings` gives (30 s timeout, the SwitchHosts user
/// agent, the configured proxy); fails with `InvalidProxy` exactly where
/// there is a proxy URL and `reqwest` rejects it.
pub fn build_client(use_proxy: bool, protocol: &str, host: &str, port: u32) -> (r: Result<
    reqwest::Client,
    ClientError,
>)
    ensures
        invalid_proxy_url(r) == rejected_proxy(proxy_url_spec(use_proxy, protocol@, host@, port)),
{
    let settings = client_settings(use_proxy, protocol, host, port);
    match build_client_with(&settings) {
        Ok(b) => Ok(b.client),
        Err(e) => Err(e),
    }
}

} // verus!
