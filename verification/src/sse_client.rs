//! The client of the streaming transport: the two requests it sends to one
//! fixed URL, and what it takes for an answer.

use crate::text::{join, starts_with};
use vstd::prelude::*;
use vstd::string::StringSliceAdditionalSpecFns;

verus! {

/// `reqwest::Client`, carried along as it is.
#[verifier::external_type_specification]
#[verifier::external_body]
pub struct ExClient(reqwest::Client);

/// `Clone` of `reqwest::Client`: another handle to the same client. Nothing is
/// claimed of it.
pub assume_specification[ <reqwest::Client as Clone>::clone ](
    client: &reqwest::Client,
) -> reqwest::Client;

pub const MIME_TYPE_EVENT_STREAM: &'static str = "text/event-stream";

pub const MIME_TYPE_JSON: &'static str = "application/json";

/// Whether reqwest takes a text for the URL of a request.
pub uninterp spec fn request_url_accepted(url: Seq<char>) -> bool;

/// `reqwest::Client::get` and `reqwest::RequestBuilder::build`, without
/// sending anything: the request is built exactly when the text is a URL with
/// a host, which depends on the text alone.
#[verifier::external_body]
fn request_can_be_built(client: &reqwest::Client, url: &str) -> (accepted: bool)
    ensures
        accepted == request_url_accepted(url@),
{
    client.get(url).build().is_ok()
}

/// A text that is no URL to send requests to.
#[derive(Clone, Debug, PartialEq, Eq)]
pub struct InvalidUrl {
    pub url: String,
}

/// An HTTP client bound to the URL of an event stream.
#[derive(Clone)]
pub struct ReqwestSseClient {
    http_client: reqwest::Client,
    sse_url: String,
}

/// The request that opens the event stream.
#[derive(Clone, Debug, PartialEq, Eq)]
pub struct StreamRequest {
    /// Where the `GET` goes.
    pub url: String,
    /// Value of the `Accept` header.
    pub accept: String,
    /// Value of the `Last-Event-ID` header, sent when a stream is resumed.
    pub last_event_id: Option<String>,
}

/// The request that posts one message.
#[derive(Clone, Debug, PartialEq, Eq)]
pub struct PostRequest {
    /// Where the `POST` goes.
    pub url: String,
    /// Value of the `Accept` header.
    pub accept: String,
}

/// When a stream that broke is opened again.
#[derive(Clone, Copy, Debug, PartialEq, Eq, Structural)]
pub enum RetryPolicy {
    /// After the same pause each time.
    FixedInterval,
}

/// How the streaming transport is started.
#[derive(Clone, Debug, PartialEq, Eq)]
pub struct TransportConfig {
    /// The URL of the event stream.
    pub sse_endpoint: String,
    pub retry_policy: RetryPolicy,
    /// Where messages are posted, if the server is not to say so itself.
    pub use_message_endpoint: Option<String>,
}

/// Why an answer of the server is not taken.
#[derive(Clone, Debug, PartialEq, Eq)]
pub enum ResponseError {
    /// The status is outside 200 to 299.
    Status { code: u16 },
    /// The content type is missing or is not that of an event stream.
    UnexpectedContentType { content_type: Option<Vec<u8>> },
}

/// A status that stands for success.
pub open spec fn is_success(status: u16) -> bool {
    200 <= status <= 299
}

/// The bytes that the content type of an event stream begins with.
pub open spec fn event_stream_prefix() -> Seq<u8> {
    MIME_TYPE_EVENT_STREAM.spec_bytes()
}

/// The prefix spelled out: the bytes of `text/event-stream`.
pub proof fn lemma_event_stream_prefix()
    ensures
        event_stream_prefix() == seq![
            116u8, 101, 120, 116, 47, 101, 118, 101, 110, 116, 45, 115, 116, 114, 101, 97, 109,
        ],
{
    reveal_strlit("text/event-stream");
    let text = MIME_TYPE_EVENT_STREAM;
    assert(vstd::string::is_ascii(text)) by {
        assert forall|i: int| 0 <= i < text@.len() implies (text@[i] as u32) < 128 by {}
    }
    vstd::string::is_ascii_spec_bytes(text);
    assert(event_stream_prefix() =~= seq![
        116u8, 101, 120, 116, 47, 101, 118, 101, 110, 116, 45, 115, 116, 114, 101, 97, 109,
    ]);
}

/// A content type that announces an event stream.
pub open spec fn is_event_stream(content_type: Option<Vec<u8>>) -> bool {
    match content_type {
        Some(value) => event_stream_prefix().is_prefix_of(value@),
        None => false,
    }
}

/// What the `Accept` header of a posted message holds.
pub open spec fn post_accept() -> Seq<char> {
    MIME_TYPE_JSON@ + ", "@ + MIME_TYPE_EVENT_STREAM@
}

impl ReqwestSseClient {
    /// The HTTP client that the requests are sent with.
    pub closed spec fn client(&self) -> reqwest::Client {
        self.http_client
    }

    /// The URL that the requests go to.
    pub closed spec fn url(&self) -> Seq<char> {
        self.sse_url@
    }

    /// Binds `client` to `url`, if `url` can be the URL of a request.
    pub fn new_with_client(url: &str, client: reqwest::Client) -> (r: Result<Self, InvalidUrl>)
        ensures
            match r {
                Ok(c) => request_url_accepted(url@) && c.url() == url@ && c.client() == client,
                Err(e) => !request_url_accepted(url@) && e.url@ == url@,
            },
    {
        if request_can_be_built(&client, url) {
            Ok(ReqwestSseClient { http_client: client, sse_url: url.to_string() })
        } else {
            Err(InvalidUrl { url: url.to_string() })
        }
    }

    pub fn http_client(&self) -> (r: &reqwest::Client)
        ensures
            *r == self.client(),
    {
        &self.http_client
    }

    pub fn sse_url(&self) -> (r: &str)
        ensures
            r@ == self.url(),
    {
        self.sse_url.as_str()
    }

    /// How the transport over this client is started: on the URL of the
    /// client, with retries at a fixed interval, and with the message
    /// endpoint left for the server to name.
    pub fn transport_config(&self) -> (r: TransportConfig)
        ensures
            r.sse_endpoint@ == self.url(),
            r.retry_policy == RetryPolicy::FixedInterval,
            r.use_message_endpoint is None,
    {
        TransportConfig {
            sse_endpoint: self.sse_url.clone(),
            retry_policy: RetryPolicy::FixedInterval,
            use_message_endpoint: None,
        }
    }

    /// The `GET` that opens the stream, or resumes it after `last_event_id`.
    pub fn get_stream_request(&self, last_event_id: Option<String>) -> (r: StreamRequest)
        ensures
            r.url@ == self.url(),
            r.accept@ == MIME_TYPE_EVENT_STREAM@,
            r.last_event_id == last_event_id,
    {
        StreamRequest {
            url: self.sse_url.clone(),
            accept: MIME_TYPE_EVENT_STREAM.to_string(),
            last_event_id,
        }
    }

    /// The `POST` that carries one message.
    pub fn post_message_request(&self) -> (r: PostRequest)
        ensures
            r.url@ == self.url(),
            r.accept@ == post_accept(),
    {
        let mut accept = join(MIME_TYPE_JSON, ", ");
        accept.append(MIME_TYPE_EVENT_STREAM);
        PostRequest { url: self.sse_url.clone(), accept }
    }
}

/// Judges the answer to the request that opens the stream: the status is
/// looked at first, then the content type, which is handed back when it is
/// refused.
pub fn check_stream_response(status: u16, content_type: Option<Vec<u8>>) -> (r: Result<
    (),
    ResponseError,
>)
    ensures
        r is Ok <==> is_success(status) && is_event_stream(content_type),
        !is_success(status) ==> r == Err::<(), ResponseError>(
            ResponseError::Status { code: status },
        ),
        is_success(status) && !is_event_stream(content_type) ==> r == Err::<(), ResponseError>(
            ResponseError::UnexpectedContentType { content_type },
        ),
{
    if status < 200 || status > 299 {
        return Err(ResponseError::Status { code: status });
    }
    let announced = match &content_type {
        Some(value) => starts_with(value.as_slice(), MIME_TYPE_EVENT_STREAM.as_bytes()),
        None => false,
    };
    if announced {
        Ok(())
    } else {
        Err(ResponseError::UnexpectedContentType { content_type })
    }
}

/// Judges the answer to a posted message by its status alone.
pub fn check_post_response(status: u16) -> (r: Result<(), ResponseError>)
    ensures
        r is Ok <==> is_success(status),
        r is Err ==> r == Err::<(), ResponseError>(ResponseError::Status { code: status }),
{
    if status < 200 || status > 299 {
        Err(ResponseError::Status { code: status })
    } else {
        Ok(())
    }
}

} // verus!
