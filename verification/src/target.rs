//! Targets as the configuration store declares them, and the addresses that
//! are derived from them.

use crate::text::{join, decimal, decimal_digits};
use crate::tls::{tls_cfg, tls_scheme, tls_settings, TlsConfig, TlsSettings};
use vstd::prelude::*;

verus! {

/// Path of the event stream where a target names none.
pub const DEFAULT_SSE_PATH: &'static str = "/sse";

/// A backend reached over an event stream. `A` is the configuration of the
/// backend's token provider.
pub struct SseTarget<A> {
    pub host: String,
    pub port: u32,
    pub path: String,
    pub headers: Vec<(String, String)>,
    pub tls: Option<TlsConfig>,
    pub backend_auth: Option<A>,
}

/// A backend that is a child process, spoken to over its pipes.
pub struct StdioTarget {
    pub cmd: String,
    pub args: Vec<String>,
    pub env: Vec<(String, String)>,
}

/// A REST API described by a schema. `S` says where the schema is found.
pub struct OpenApiTarget<A, S> {
    pub host: String,
    pub port: u32,
    pub schema_source: Option<S>,
    pub tls: Option<TlsConfig>,
    pub headers: Vec<(String, String)>,
    pub backend_auth: Option<A>,
}

pub enum TargetSpec<A, S> {
    Sse(SseTarget<A>),
    Stdio(StdioTarget),
    OpenApi(OpenApiTarget<A, S>),
}

/// A named backend. `F` is the list of filters that a connection to it
/// carries.
pub struct Target<F, A, S> {
    pub name: String,
    pub spec: TargetSpec<A, S>,
    pub filters: F,
}

/// What a schema says of the server that it describes.
#[derive(Clone, Debug, PartialEq, Eq)]
pub struct ServerInfo {
    pub scheme: Option<String>,
    pub host: Option<String>,
    pub port: u32,
    pub path_prefix: String,
}

/// Where the calls of a REST adapter go.
#[derive(Clone, Debug, PartialEq, Eq)]
pub struct RestEndpoint {
    pub scheme: String,
    pub host: String,
    pub port: u32,
    pub path_prefix: String,
}

impl ServerInfo {
    /// The schema names the server itself, and is to be believed over the
    /// target.
    pub open spec fn is_authoritative(self) -> bool {
        self.scheme is Some
    }
}

/// The path of the event stream of a target.
pub open spec fn effective_path(path: Seq<char>) -> Seq<char> {
    if path.len() == 0 {
        DEFAULT_SSE_PATH@
    } else {
        path
    }
}

/// The text of a URL made of its four parts.
pub open spec fn url_text(scheme: Seq<char>, host: Seq<char>, port: u32, path: Seq<char>) -> Seq<
    char,
> {
    scheme + "://"@ + host + ":"@ + decimal_digits(port as nat) + path
}

/// The URL of the event stream of a target.
pub open spec fn sse_url_text(
    host: Seq<char>,
    port: u32,
    path: Seq<char>,
    tls: Option<TlsConfig>,
) -> Seq<char> {
    url_text(tls_scheme(port, tls), host, port, effective_path(path))
}

/// The host that the calls of a REST adapter go to: that of the schema where
/// the schema is to be believed and names one, else that of the target.
pub open spec fn rest_host(host: Seq<char>, info: ServerInfo) -> Seq<char> {
    match info.host {
        Some(declared) if info.is_authoritative() => declared@,
        _ => host,
    }
}

/// The port that the calls of a REST adapter go to.
pub open spec fn rest_port(port: u32, info: ServerInfo) -> u32 {
    if info.is_authoritative() {
        info.port
    } else {
        port
    }
}

/// Whether `endpoint` is where the calls for a target go, given what its
/// schema says of the server. The scheme follows from the TLS options of the
/// target and the port that won, never from the schema.
pub open spec fn is_rest_endpoint(
    endpoint: RestEndpoint,
    host: Seq<char>,
    port: u32,
    tls: Option<TlsConfig>,
    info: ServerInfo,
) -> bool {
    &&& endpoint.host@ == rest_host(host, info)
    &&& endpoint.port == rest_port(port, info)
    &&& endpoint.path_prefix@ == info.path_prefix@
    &&& endpoint.scheme@ == tls_scheme(rest_port(port, info), tls)
}

/// Writes a URL from its four parts.
pub fn format_url(scheme: &str, host: &str, port: u32, path: &str) -> (r: String)
    ensures
        r@ == url_text(scheme@, host@, port, path@),
{
    let mut url = join(scheme, "://");
    url.append(host);
    url.append(":");
    let digits = decimal(port);
    url.append(digits.as_str());
    url.append(path);
    url
}

/// The URL of the event stream of a target, with the client settings that
/// its port and TLS options ask for.
pub fn sse_url(host: &str, port: u32, path: &str, tls: &Option<TlsConfig>) -> (r: (
    String,
    TlsSettings,
))
    ensures
        r.0@ == sse_url_text(host@, port, path@, *tls),
        r.1 == tls_settings(port, *tls),
{
    let path = if path.unicode_len() == 0 {
        DEFAULT_SSE_PATH
    } else {
        path
    };
    let (scheme, settings) = tls_cfg(tls, port);
    (format_url(scheme.as_str(), host, port, path), settings)
}

/// Where the calls for an OpenApi target go, and the client settings for
/// them: a schema that declares a scheme wins over the target with its port
/// and with its host, if it names one.
pub fn rest_endpoint(host: &str, port: u32, tls: &Option<TlsConfig>, info: ServerInfo) -> (r: (
    RestEndpoint,
    TlsSettings,
))
    ensures
        is_rest_endpoint(r.0, host@, port, *tls, info),
        r.1 == tls_settings(rest_port(port, info), *tls),
{
    let ServerInfo { scheme: declared, host: declared_host, port: declared_port, path_prefix } =
        info;
    if declared.is_some() {
        let (scheme, settings) = tls_cfg(tls, declared_port);
        let host = match declared_host {
            Some(declared) => declared,
            None => host.to_string(),
        };
        (RestEndpoint { scheme, host, port: declared_port, path_prefix }, settings)
    } else {
        let (scheme, settings) = tls_cfg(tls, port);
        (RestEndpoint { scheme, host: host.to_string(), port, path_prefix }, settings)
    }
}

} // verus!
