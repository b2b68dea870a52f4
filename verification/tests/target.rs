use relay_pool::target::{format_url, rest_endpoint, sse_url, RestEndpoint, ServerInfo};
use relay_pool::tls::{TlsConfig, TlsMode, TlsSettings};

#[test]
fn format_url_writes_all_four_parts() {
    assert_eq!(format_url("http", "localhost", 8080, "/sse"), "http://localhost:8080/sse");
    assert_eq!(format_url("https", "example.com", 443, ""), "https://example.com:443");
    assert_eq!(format_url("https", "h", 0, "/"), "https://h:0/");
    assert_eq!(format_url("http", "h", 4294967295, "/p"), "http://h:4294967295/p");
}

#[test]
fn sse_url_defaults_the_path() {
    let (url, settings) = sse_url("backend", 3000, "", &None);
    assert_eq!(url, "http://backend:3000/sse");
    assert_eq!(
        settings,
        TlsSettings { mode: TlsMode::Disabled, skip_hostname_verification: false }
    );
}

#[test]
fn sse_url_keeps_a_declared_path() {
    let (url, _) = sse_url("backend", 3000, "/events", &None);
    assert_eq!(url, "http://backend:3000/events");
    let (url, _) = sse_url("backend", 3000, "/", &None);
    assert_eq!(url, "http://backend:3000/");
}

#[test]
fn sse_url_on_the_https_port() {
    let (url, settings) = sse_url("backend", 443, "", &None);
    assert_eq!(url, "https://backend:443/sse");
    assert_eq!(settings.mode, TlsMode::Required);
}

#[test]
fn sse_url_with_tls_options() {
    let tls = Some(TlsConfig { insecure_skip_verify: true });
    let (url, settings) = sse_url("backend", 9000, "/mcp", &tls);
    assert_eq!(url, "https://backend:9000/mcp");
    assert_eq!(
        settings,
        TlsSettings { mode: TlsMode::Preferred, skip_hostname_verification: true }
    );
}

#[test]
fn rest_endpoint_of_the_target_when_the_schema_names_no_scheme() {
    let info = ServerInfo {
        scheme: None,
        host: Some("ignored.example".to_string()),
        port: 9999,
        path_prefix: "/api".to_string(),
    };
    let (endpoint, settings) = rest_endpoint("target.example", 8080, &None, info);
    assert_eq!(
        endpoint,
        RestEndpoint {
            scheme: "http".to_string(),
            host: "target.example".to_string(),
            port: 8080,
            path_prefix: "/api".to_string(),
        }
    );
    assert_eq!(settings.mode, TlsMode::Disabled);
}

#[test]
fn rest_endpoint_of_the_schema_when_it_names_a_scheme() {
    let info = ServerInfo {
        scheme: Some("https".to_string()),
        host: Some("api.example".to_string()),
        port: 8443,
        path_prefix: "/v2".to_string(),
    };
    let (endpoint, settings) = rest_endpoint("target.example", 8080, &None, info);
    assert_eq!(
        endpoint,
        RestEndpoint {
            scheme: "http".to_string(),
            host: "api.example".to_string(),
            port: 8443,
            path_prefix: "/v2".to_string(),
        }
    );
    assert_eq!(
        settings,
        TlsSettings { mode: TlsMode::Disabled, skip_hostname_verification: false }
    );
}

#[test]
fn rest_endpoint_applies_the_tls_options_of_the_target_to_the_winning_port() {
    let info = ServerInfo {
        scheme: Some("http".to_string()),
        host: Some("api.example".to_string()),
        port: 443,
        path_prefix: "".to_string(),
    };
    let tls = Some(TlsConfig { insecure_skip_verify: true });
    let (endpoint, settings) = rest_endpoint("target.example", 8080, &tls, info);
    assert_eq!(endpoint.scheme, "https");
    assert_eq!(endpoint.port, 443);
    assert_eq!(settings, TlsSettings { mode: TlsMode::Required, skip_hostname_verification: true });

    let info = ServerInfo { scheme: None, host: None, port: 443, path_prefix: "".to_string() };
    let (endpoint, settings) = rest_endpoint("target.example", 8080, &tls, info);
    assert_eq!(endpoint.scheme, "https");
    assert_eq!(endpoint.host, "target.example");
    assert_eq!(endpoint.port, 8080);
    assert_eq!(settings.mode, TlsMode::Preferred);
}

#[test]
fn rest_endpoint_keeps_the_host_of_the_target_when_the_schema_names_none() {
    let info = ServerInfo {
        scheme: Some("https".to_string()),
        host: None,
        port: 8443,
        path_prefix: "/v3".to_string(),
    };
    let (endpoint, settings) = rest_endpoint("target.example", 8080, &None, info);
    assert_eq!(
        endpoint,
        RestEndpoint {
            scheme: "http".to_string(),
            host: "target.example".to_string(),
            port: 8443,
            path_prefix: "/v3".to_string(),
        }
    );
    assert_eq!(settings.mode, TlsMode::Disabled);
}
