use relay_pool::sse_client::{
    check_post_response, check_stream_response, InvalidUrl, PostRequest, ReqwestSseClient,
    ResponseError, RetryPolicy, StreamRequest, TransportConfig,
};

fn client_for(url: &str) -> ReqwestSseClient {
    match ReqwestSseClient::new_with_client(url, reqwest::Client::new()) {
        Ok(client) => client,
        Err(_) => panic!("the URL should be taken"),
    }
}

#[test]
fn new_with_client_takes_a_url_with_a_host() {
    let client = client_for("http://localhost:8080/sse");
    assert_eq!(client.sse_url(), "http://localhost:8080/sse");
}

#[test]
fn new_with_client_refuses_what_is_no_url() {
    let refused =
        ["", "not a url", "/sse", "http://", "http://bad host:80/sse", "data:text/plain,x"];
    for text in refused {
        match ReqwestSseClient::new_with_client(text, reqwest::Client::new()) {
            Ok(_) => panic!("the text should be refused"),
            Err(e) => assert_eq!(e, InvalidUrl { url: text.to_string() }),
        }
    }
}

#[test]
fn transport_starts_on_the_url_of_the_client() {
    let client = client_for("http://backend:3000/sse");
    assert_eq!(
        client.transport_config(),
        TransportConfig {
            sse_endpoint: "http://backend:3000/sse".to_string(),
            retry_policy: RetryPolicy::FixedInterval,
            use_message_endpoint: None,
        }
    );
}

#[test]
fn get_stream_request_asks_for_an_event_stream() {
    let client = client_for("https://backend:443/sse");
    assert_eq!(
        client.get_stream_request(None),
        StreamRequest {
            url: "https://backend:443/sse".to_string(),
            accept: "text/event-stream".to_string(),
            last_event_id: None,
        }
    );
}

#[test]
fn get_stream_request_resumes_after_an_event() {
    let client = client_for("https://backend:443/sse");
    let request = client.get_stream_request(Some("41".to_string()));
    assert_eq!(request.last_event_id, Some("41".to_string()));
    assert_eq!(request.accept, "text/event-stream");
}

#[test]
fn post_message_request_accepts_json_and_event_streams() {
    let client = client_for("http://backend:3000/sse");
    assert_eq!(
        client.post_message_request(),
        PostRequest {
            url: "http://backend:3000/sse".to_string(),
            accept: "application/json, text/event-stream".to_string(),
        }
    );
}

#[test]
fn stream_response_with_json_content_type_is_refused() {
    let content_type = Some(b"application/json".to_vec());
    assert_eq!(
        check_stream_response(200, content_type.clone()),
        Err(ResponseError::UnexpectedContentType { content_type })
    );
}

#[test]
fn stream_response_without_content_type_is_refused() {
    assert_eq!(
        check_stream_response(200, None),
        Err(ResponseError::UnexpectedContentType { content_type: None })
    );
}

#[test]
fn stream_response_with_charset_is_taken() {
    assert_eq!(
        check_stream_response(200, Some(b"text/event-stream; charset=utf-8".to_vec())),
        Ok(())
    );
    assert_eq!(check_stream_response(200, Some(b"text/event-stream".to_vec())), Ok(()));
}

#[test]
fn stream_response_content_type_is_compared_byte_for_byte() {
    for value in ["Text/Event-Stream", " text/event-stream", "text/event-strea", "text/event", ""] {
        let content_type = Some(value.as_bytes().to_vec());
        assert_eq!(
            check_stream_response(200, content_type.clone()),
            Err(ResponseError::UnexpectedContentType { content_type })
        );
    }
}

#[test]
fn stream_response_status_is_looked_at_first() {
    assert_eq!(
        check_stream_response(404, Some(b"text/event-stream".to_vec())),
        Err(ResponseError::Status { code: 404 })
    );
    assert_eq!(check_stream_response(500, None), Err(ResponseError::Status { code: 500 }));
}

#[test]
fn only_statuses_from_200_to_299_are_successes() {
    let stream = Some(b"text/event-stream".to_vec());
    assert_eq!(
        check_stream_response(199, stream.clone()),
        Err(ResponseError::Status { code: 199 })
    );
    assert_eq!(check_stream_response(200, stream.clone()), Ok(()));
    assert_eq!(check_stream_response(204, stream.clone()), Ok(()));
    assert_eq!(check_stream_response(299, stream.clone()), Ok(()));
    assert_eq!(
        check_stream_response(300, stream.clone()),
        Err(ResponseError::Status { code: 300 })
    );
    assert_eq!(check_stream_response(0, stream.clone()), Err(ResponseError::Status { code: 0 }));
    assert_eq!(
        check_stream_response(u16::MAX, stream),
        Err(ResponseError::Status { code: u16::MAX })
    );
}

#[test]
fn post_response_is_judged_by_its_status() {
    assert_eq!(check_post_response(200), Ok(()));
    assert_eq!(check_post_response(202), Ok(()));
    assert_eq!(check_post_response(299), Ok(()));
    assert_eq!(check_post_response(199), Err(ResponseError::Status { code: 199 }));
    assert_eq!(check_post_response(300), Err(ResponseError::Status { code: 300 }));
    assert_eq!(check_post_response(401), Err(ResponseError::Status { code: 401 }));
    assert_eq!(check_post_response(503), Err(ResponseError::Status { code: 503 }));
}
