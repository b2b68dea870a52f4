//! How a connection to a target is made: what is prepared for each kind of
//! target, what is asked of the outside at each step, and what each answer
//! leads to.

use crate::error::{BuildFailure, ConnectError};
use crate::headers::{
    default_headers, default_headers_outcome, header_count, header_map_len, headers_accepted,
    token_count, token_text, HeaderError, HEADER_ROOM,
};
use crate::sse_client::{request_url_accepted, ReqwestSseClient};
use crate::target::{
    is_rest_endpoint, rest_endpoint, rest_port, sse_url, sse_url_text, OpenApiTarget,
    RestEndpoint, ServerInfo, SseTarget, StdioTarget, TargetSpec,
};
use crate::text::join;
use crate::tls::{tls_settings, TlsConfig, TlsMode, TlsSettings};
use vstd::prelude::*;

verus! {

/// What the HTTP client of a target is built from.
pub struct ClientPlan {
    pub tls: TlsSettings,
    /// The headers that the target declares, in their order.
    pub declared: Vec<(String, String)>,
}

/// What the HTTP client of a target is built for.
pub enum Destination<T> {
    /// The event stream at `url`.
    Sse { url: String },
    /// The REST API at `endpoint`, which offers `tools`.
    Rest { endpoint: RestEndpoint, tools: T },
}

/// A connection whose HTTP client is still to be built.
pub struct Pending<T> {
    pub destination: Destination<T>,
    pub client: ClientPlan,
}

/// An OpenApi target whose schema is still to be read.
pub struct SchemaPlan<A> {
    pub name: String,
    pub host: String,
    pub port: u32,
    pub tls: Option<TlsConfig>,
    pub declared: Vec<(String, String)>,
    pub backend_auth: Option<A>,
}

/// The REST API of a target with the client that calls it. `T` is the list
/// of the tools that its schema describes.
pub struct RestAdapter<T> {
    pub endpoint: RestEndpoint,
    pub client: reqwest::Client,
    pub tools: T,
}

/// What the schema of an OpenApi target holds.
pub struct Schema<T> {
    pub info: ServerInfo,
    pub tools: T,
}

/// What is to be done next for a connection.
pub enum ConnectStep<A, S, T> {
    /// Ask the token provider configured by `auth` for a token, and go on
    /// with `on_token`.
    FetchToken { auth: A, pending: Pending<T> },
    /// Read the schema found at `source`, and go on with `on_schema`.
    LoadSchema { source: S, plan: SchemaPlan<A> },
    /// Start the streaming transport with this client and serve a session on
    /// it.
    StartSse(ReqwestSseClient),
    /// Start the child process and serve a session on its pipes.
    Spawn { cmd: String, args: Vec<String> },
    /// Nothing is left to open: the adapter is the connection.
    Ready(RestAdapter<T>),
    /// The attempt has failed.
    Fail(ConnectError),
}

/// Where reading a schema failed.
#[derive(Clone, Copy, Debug, PartialEq, Eq, Structural)]
pub enum SchemaStage {
    Load,
    Tools,
    ServerInfo,
}

/// A schema that could not be had, with what the reader said of it.
#[derive(Clone, Debug, PartialEq, Eq)]
pub struct SchemaFailure {
    pub stage: SchemaStage,
    pub description: String,
}

/// What the builder of an HTTP client is given.
pub struct ClientSettings {
    /// The client refuses anything but HTTPS.
    pub https_only: bool,
    /// Host names in certificates are not checked.
    pub accept_invalid_hostnames: bool,
    /// Headers sent with every request.
    pub default_headers: http::HeaderMap<http::HeaderValue>,
}

/// Whether the builder of an HTTP client takes headers of so many names. The
/// builder writes every value of every header into a map of its own, which
/// holds one name already, and gives up where that map refuses to grow: with
/// the name that is there, the names are to stay below the room that a map
/// is sure to have.
pub open spec fn fits_builder(names: nat) -> bool {
    names + 1 < HEADER_ROOM
}

/// `reqwest::ClientBuilder`: `https_only`, `danger_accept_invalid_hostnames`,
/// `default_headers` and `build`, on a fresh builder. `default_headers`
/// inserts value by value into the builder's own map, beside the one name
/// that it holds from the start, and that insert does not return where the
/// map refuses to grow: so the headers are to fit the builder. Whether a
/// client comes out depends on the machine, so nothing is claimed of the
/// result; a failure is handed back as the text of reqwest's error.
#[verifier::external_body]
fn build_http_client(settings: ClientSettings) -> Result<reqwest::Client, String>
    requires
        fits_builder(header_map_len(settings.default_headers)),
{
    reqwest::Client::builder()
        .https_only(settings.https_only)
        .danger_accept_invalid_hostnames(settings.accept_invalid_hostnames)
        .default_headers(settings.default_headers)
        .build()
        .map_err(|e| e.to_string())
}

/// What `client_settings` returns: the settings that the plan and the token
/// ask for, with headers that fit the builder, or the reason why the headers
/// were refused: as for the default headers, or because the default headers
/// came out with more names than fit the builder.
pub open spec fn settings_outcome(
    plan: ClientPlan,
    token: Option<Seq<char>>,
    r: Result<ClientSettings, HeaderError>,
) -> bool {
    match r {
        Ok(settings) => {
            &&& settings.https_only == plan.tls.https_only()
            &&& settings.accept_invalid_hostnames == plan.tls.skip_hostname_verification
            &&& default_headers_outcome(token, plan.declared@, Ok(settings.default_headers))
            &&& fits_builder(header_map_len(settings.default_headers))
        },
        Err(HeaderError::TooManyHeaders) => {
            ||| default_headers_outcome(token, plan.declared@, Err(HeaderError::TooManyHeaders))
            ||| exists|headers: http::HeaderMap|
                default_headers_outcome(token, plan.declared@, Ok(headers)) && !fits_builder(
                    #[trigger] header_map_len(headers),
                )
        },
        Err(e) => default_headers_outcome(token, plan.declared@, Err(e)),
    }
}

/// The settings of the HTTP client of a target: HTTPS alone where TLS is
/// required, host names unchecked where the target says so, and the default
/// headers for `token` and the declared headers. A token and headers that
/// are all accepted give the settings, where as many names fit the builder.
pub fn client_settings(plan: &ClientPlan, token: Option<&str>) -> (r: Result<
    ClientSettings,
    HeaderError,
>)
    ensures
        settings_outcome(*plan, token_text(token), r),
        headers_accepted(token_text(token), plan.declared@) && fits_builder(
            token_count(token_text(token)) + plan.declared@.len(),
        ) ==> r is Ok,
{
    match default_headers(token, &plan.declared) {
        Ok(default_headers) => {
            if header_count(&default_headers) >= HEADER_ROOM - 1 {
                return Err(HeaderError::TooManyHeaders);
            }
            Ok(
                ClientSettings {
                    https_only: plan.tls.mode == TlsMode::Required,
                    accept_invalid_hostnames: plan.tls.skip_hostname_verification,
                    default_headers,
                },
            )
        },
        Err(e) => Err(e),
    }
}

/// What `with_client` makes of a client, or of the failure to build one.
pub open spec fn client_step<A, S, T>(
    destination: Destination<T>,
    built: Result<reqwest::Client, String>,
    step: ConnectStep<A, S, T>,
) -> bool {
    match built {
        Err(description) => step == ConnectStep::<A, S, T>::Fail(
            ConnectError::TransportBuild(BuildFailure::Client { description }),
        ),
        Ok(client) => match destination {
            Destination::Rest { endpoint, tools } => step == ConnectStep::<A, S, T>::Ready(
                RestAdapter { endpoint, client, tools },
            ),
            Destination::Sse { url } => if request_url_accepted(url@) {
                step matches ConnectStep::StartSse(c) && c.url() == url@ && c.client() == client
            } else {
                step matches ConnectStep::Fail(
                    ConnectError::TransportBuild(BuildFailure::InvalidUrl { url: refused }),
                ) && refused@ == url@
            },
        },
    }
}

/// Goes on with the HTTP client that was built, or with the reason why none
/// was: the client of an event stream is bound to its URL, if that is one;
/// the client of a REST API completes the adapter.
pub fn with_client<A, S, T>(
    destination: Destination<T>,
    built: Result<reqwest::Client, String>,
) -> (step: ConnectStep<A, S, T>)
    ensures
        client_step(destination, built, step),
{
    match built {
        Err(description) => ConnectStep::Fail(
            ConnectError::TransportBuild(BuildFailure::Client { description }),
        ),
        Ok(client) => match destination {
            Destination::Rest { endpoint, tools } => ConnectStep::Ready(
                RestAdapter { endpoint, client, tools },
            ),
            Destination::Sse { url } => match ReqwestSseClient::new_with_client(
                url.as_str(),
                client,
            ) {
                Ok(sse) => ConnectStep::StartSse(sse),
                Err(e) => ConnectStep::Fail(
                    ConnectError::TransportBuild(BuildFailure::InvalidUrl { url: e.url }),
                ),
            },
        },
    }
}

/// What `open` may return.
pub open spec fn opened<A, S, T>(
    pending: Pending<T>,
    token: Option<Seq<char>>,
    step: ConnectStep<A, S, T>,
) -> bool {
    match step {
        ConnectStep::Fail(ConnectError::TransportBuild(BuildFailure::Header(e))) => {
            settings_outcome(pending.client, token, Err(e))
        },
        _ => headers_accepted(token, pending.client.declared@) && exists|
            built: Result<reqwest::Client, String>,
        | #[trigger] client_step(pending.destination, built, step),
    }
}

/// Builds the HTTP client of a pending connection, with the TLS settings and
/// the default headers of its plan. `token` is `None` where the target has no
/// backend authentication.
pub fn open<A, S, T>(pending: Pending<T>, token: Option<&str>) -> (step: ConnectStep<A, S, T>)
    ensures
        opened(pending, token_text(token), step),
{
    let Pending { destination, client } = pending;
    match client_settings(&client, token) {
        Err(e) => ConnectStep::Fail(ConnectError::TransportBuild(BuildFailure::Header(e))),
        Ok(settings) => {
            let built = build_http_client(settings);
            let step = with_client(destination, built);
            assert(client_step(destination, built, step));
            step
        },
    }
}

/// The connection of an Sse target before its client is built.
pub open spec fn is_sse_pending<A, T>(target: SseTarget<A>, pending: Pending<T>) -> bool {
    &&& pending.destination matches Destination::Sse { url }
    &&& url@ == sse_url_text(target.host@, target.port, target.path@, target.tls)
    &&& pending.client.tls == tls_settings(target.port, target.tls)
    &&& pending.client.declared == target.headers
}

/// The connection of an OpenApi target before its client is built, once its
/// schema has said `info` of the server.
pub open spec fn is_rest_pending<A, T>(
    plan: SchemaPlan<A>,
    schema: Schema<T>,
    pending: Pending<T>,
) -> bool {
    &&& pending.destination matches Destination::Rest { endpoint, tools }
    &&& tools == schema.tools
    &&& is_rest_endpoint(endpoint, plan.host@, plan.port, plan.tls, schema.info)
    &&& pending.client.tls == tls_settings(rest_port(plan.port, schema.info), plan.tls)
    &&& pending.client.declared == plan.declared
}

/// With backend authentication a token is asked for first; without it the
/// client is built at once.
pub open spec fn pending_step<A, S, T>(
    auth: Option<A>,
    pending: Pending<T>,
    step: ConnectStep<A, S, T>,
) -> bool {
    match auth {
        Some(a) => step == (ConnectStep::<A, S, T>::FetchToken { auth: a, pending }),
        None => opened(pending, None, step),
    }
}

/// The first step for a target of each kind.
pub open spec fn planned<A, S, T>(
    name: Seq<char>,
    spec: TargetSpec<A, S>,
    step: ConnectStep<A, S, T>,
) -> bool {
    match spec {
        TargetSpec::Sse(target) => exists|pending: Pending<T>|
            is_sse_pending(target, pending) && #[trigger] pending_step(
                target.backend_auth,
                pending,
                step,
            ),
        TargetSpec::Stdio(target) => step == (ConnectStep::<A, S, T>::Spawn {
            cmd: target.cmd,
            args: target.args,
        }),
        TargetSpec::OpenApi(target) => match target.schema_source {
            None => step matches ConnectStep::Fail(ConnectError::InvalidConfig { name: n }) && n@
                == name,
            Some(source) => {
                &&& step matches ConnectStep::LoadSchema { source: s, plan }
                &&& s == source
                &&& plan.name@ == name
                &&& plan.host == target.host
                &&& plan.port == target.port
                &&& plan.tls == target.tls
                &&& plan.declared == target.headers
                &&& plan.backend_auth == target.backend_auth
            },
        },
    }
}

fn pending_next<A, S, T>(auth: Option<A>, pending: Pending<T>) -> (step: ConnectStep<A, S, T>)
    ensures
        pending_step(auth, pending, step),
{
    match auth {
        Some(auth) => ConnectStep::FetchToken { auth, pending },
        None => open(pending, None),
    }
}

/// The first step of a connection to the target `name`.
///
/// An Sse target gets its URL and client settings, a Stdio target the
/// command to start, an OpenApi target the order to read its schema, which
/// it must name.
pub fn plan_connect<A, S, T>(name: &str, spec: TargetSpec<A, S>) -> (step: ConnectStep<A, S, T>)
    ensures
        planned(name@, spec, step),
{
    match spec {
        TargetSpec::Sse(target) => {
            let SseTarget { host, port, path, headers, tls, backend_auth } = target;
            let (url, settings) = sse_url(host.as_str(), port, path.as_str(), &tls);
            let pending = Pending {
                destination: Destination::Sse { url },
                client: ClientPlan { tls: settings, declared: headers },
            };
            let step = pending_next(backend_auth, pending);
            assert(is_sse_pending(target, pending) && pending_step(
                target.backend_auth,
                pending,
                step,
            ));
            step
        },
        TargetSpec::Stdio(target) => {
            let StdioTarget { cmd, args, env: _ } = target;
            ConnectStep::Spawn { cmd, args }
        },
        TargetSpec::OpenApi(target) => {
            let OpenApiTarget { host, port, schema_source, tls, headers, backend_auth } = target;
            match schema_source {
                None => ConnectStep::Fail(ConnectError::InvalidConfig { name: name.to_string() }),
                Some(source) => ConnectStep::LoadSchema {
                    source,
                    plan: SchemaPlan {
                        name: name.to_string(),
                        host,
                        port,
                        tls,
                        declared: headers,
                        backend_auth,
                    },
                },
            }
        },
    }
}

/// What follows the answer of the token provider.
pub open spec fn token_step<A, S, T>(
    pending: Pending<T>,
    token: Result<String, String>,
    step: ConnectStep<A, S, T>,
) -> bool {
    match token {
        Ok(t) => opened(pending, Some(t@), step),
        Err(description) => step == ConnectStep::<A, S, T>::Fail(
            ConnectError::Auth { description },
        ),
    }
}

/// Goes on with the token of the backend, or with the reason why there is
/// none.
pub fn on_token<A, S, T>(pending: Pending<T>, token: Result<String, String>) -> (step: ConnectStep<
    A,
    S,
    T,
>)
    ensures
        token_step(pending, token, step),
{
    match token {
        Ok(t) => open(pending, Some(t.as_str())),
        Err(description) => ConnectStep::Fail(ConnectError::Auth { description }),
    }
}

/// What is said of a schema that failed at `stage`.
pub open spec fn schema_failure_prefix(stage: SchemaStage) -> Seq<char> {
    match stage {
        SchemaStage::Load => "Failed to load OpenAPI schema for target "@,
        SchemaStage::Tools => "Failed to parse tools from OpenAPI schema for target "@,
        SchemaStage::ServerInfo => "Failed to get server info from OpenAPI schema for target "@,
    }
}

/// The text under which a failed schema is reported.
pub open spec fn schema_failure_text(name: Seq<char>, failure: SchemaFailure) -> Seq<char> {
    schema_failure_prefix(failure.stage) + name + ": "@ + failure.description@
}

/// What follows the reading of the schema.
pub open spec fn schema_step<A, S, T>(
    plan: SchemaPlan<A>,
    outcome: Result<Schema<T>, SchemaFailure>,
    step: ConnectStep<A, S, T>,
) -> bool {
    match outcome {
        Err(failure) => step matches ConnectStep::Fail(
            ConnectError::TransportConnect { description },
        ) && description@ == schema_failure_text(plan.name@, failure),
        Ok(schema) => exists|pending: Pending<T>|
            is_rest_pending(plan, schema, pending) && #[trigger] pending_step(
                plan.backend_auth,
                pending,
                step,
            ),
    }
}

/// Goes on with what the schema of an OpenApi target says of its server, or
/// with the reason why it could not be read.
pub fn on_schema<A, S, T>(plan: SchemaPlan<A>, outcome: Result<Schema<T>, SchemaFailure>) -> (step:
    ConnectStep<A, S, T>)
    ensures
        schema_step(plan, outcome, step),
{
    match outcome {
        Err(failure) => {
            let prefix = match failure.stage {
                SchemaStage::Load => "Failed to load OpenAPI schema for target ",
                SchemaStage::Tools => "Failed to parse tools from OpenAPI schema for target ",
                SchemaStage::ServerInfo => {
                    "Failed to get server info from OpenAPI schema for target "
                },
            };
            let mut description = join(prefix, plan.name.as_str());
            description.append(": ");
            description.append(failure.description.as_str());
            ConnectStep::Fail(ConnectError::TransportConnect { description })
        },
        Ok(schema) => {
            let SchemaPlan { name: _, host, port, tls, declared, backend_auth } = plan;
            let Schema { info, tools } = schema;
            let (endpoint, settings) = rest_endpoint(host.as_str(), port, &tls, info);
            let pending = Pending {
                destination: Destination::Rest { endpoint, tools },
                client: ClientPlan { tls: settings, declared },
            };
            let step = pending_next(backend_auth, pending);
            assert(is_rest_pending(plan, schema, pending) && pending_step(
                plan.backend_auth,
                pending,
                step,
            ));
            step
        },
    }
}

/// How a connected target is reached. `H` is the handle of a live session.
pub enum TransportHandle<H, T> {
    /// A session with the backend, over an event stream or a child's pipes.
    Session(H),
    /// No session: every call is a request of its own to the REST API.
    RestAdapter(RestAdapter<T>),
}

/// A connection to a target, as the pool keeps it.
pub struct UpstreamConnection<F, H, T> {
    /// The filters of the target.
    pub filters: F,
    pub transport_handle: TransportHandle<H, T>,
}

/// Where the start of a session failed.
#[derive(Clone, Copy, Debug, PartialEq, Eq, Structural)]
pub enum SessionStage {
    /// The event stream could not be opened, or the child not started.
    Transport,
    /// The session runtime gave up on the handshake or the session.
    Handshake,
}

/// A session that did not start, with what was said of it.
#[derive(Clone, Debug, PartialEq, Eq)]
pub struct SessionFailure {
    pub stage: SessionStage,
    pub description: String,
}

/// The failure of a connection whose session did not start.
pub open spec fn session_error(failure: SessionFailure) -> ConnectError {
    match failure.stage {
        SessionStage::Transport => ConnectError::TransportConnect {
            description: failure.description,
        },
        SessionStage::Handshake => ConnectError::UpstreamProtocol {
            description: failure.description,
        },
    }
}

/// The connection of a target whose session was started, with the filters of
/// the target, or the failure that the attempt ends with.
pub fn session_connection<F, H, T>(filters: F, outcome: Result<H, SessionFailure>) -> (r: Result<
    UpstreamConnection<F, H, T>,
    ConnectError,
>)
    ensures
        r == match outcome {
            Ok(session) => Ok(
                UpstreamConnection {
                    filters,
                    transport_handle: TransportHandle::<H, T>::Session(session),
                },
            ),
            Err(failure) => Err(session_error(failure)),
        },
{
    match outcome {
        Ok(session) => Ok(
            UpstreamConnection { filters, transport_handle: TransportHandle::Session(session) },
        ),
        Err(failure) => {
            let SessionFailure { stage, description } = failure;
            match stage {
                SessionStage::Transport => Err(ConnectError::TransportConnect { description }),
                SessionStage::Handshake => Err(ConnectError::UpstreamProtocol { description }),
            }
        },
    }
}

/// The connection of a target that is reached through a REST adapter, with
/// the filters of the target.
pub fn adapter_connection<F, H, T>(filters: F, adapter: RestAdapter<T>) -> (r: UpstreamConnection<
    F,
    H,
    T,
>)
    ensures
        r == (UpstreamConnection::<F, H, T> {
            filters,
            transport_handle: TransportHandle::RestAdapter(adapter),
        }),
{
    UpstreamConnection { filters, transport_handle: TransportHandle::RestAdapter(adapter) }
}

} // verus!
