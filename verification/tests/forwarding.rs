//! Header hygiene, upstream URL construction, response relaying, the
//! WebSocket bridge state machine, and the error taxonomy.

use gateway::error::{status_text, ErrorResponse, GatewayError};
use gateway::proxy::{
    build_upstream_url, bridge_step, filter_hop_headers, find_header, prepare_upstream_headers,
    relay_upstream_response, ws_url_of, BridgeAction, BridgeEvent, BridgeState, WsFrame,
};

fn headers(pairs: &[(&str, &str)]) -> Vec<(String, String)> {
    pairs.iter().map(|(n, v)| (n.to_string(), v.to_string())).collect()
}

fn value_of<'a>(hs: &'a [(String, String)], name: &str) -> Option<&'a str> {
    hs.iter().find(|(n, _)| n == name).map(|(_, v)| v.as_str())
}

#[test]
fn test_build_upstream_url_basic() {
    let url = build_upstream_url("http://svc:8080", "/foo/bar", "").unwrap();
    assert_eq!(url, "http://svc:8080/foo/bar");
}

#[test]
fn test_build_upstream_url_with_query() {
    let url = build_upstream_url("http://svc:8080", "/foo", "?x=1").unwrap();
    assert_eq!(url, "http://svc:8080/foo?x=1");
}

#[test]
fn test_build_upstream_url_trailing_slash() {
    let url = build_upstream_url("http://svc:8080/", "/bar", "").unwrap();
    assert_eq!(url, "http://svc:8080/bar");
}

#[test]
fn test_build_upstream_url_adds_leading_slash() {
    let url = build_upstream_url("http://svc:8080", "bar", "").unwrap();
    assert_eq!(url, "http://svc:8080/bar");
}

#[test]
fn test_build_upstream_url_rejects_garbage() {
    match build_upstream_url("not a url", "/x", "") {
        Err(GatewayError::Config(detail)) => assert!(detail.contains("bad upstream URL")),
        other => panic!("expected a configuration error, got {other:?}"),
    }
}

#[test]
fn test_filter_hop_headers() {
    let input = headers(&[
        ("content-type", "application/json"),
        ("connection", "keep-alive"),
        ("x-custom", "value"),
    ]);
    let filtered = filter_hop_headers(&input);
    assert!(value_of(&filtered, "content-type").is_some());
    assert!(value_of(&filtered, "x-custom").is_some());
    assert!(value_of(&filtered, "connection").is_none());
}

#[test]
fn test_filter_hop_headers_drops_all_hop_headers() {
    let input = headers(&[
        ("connection", "a"),
        ("keep-alive", "b"),
        ("proxy-authenticate", "c"),
        ("proxy-authorization", "d"),
        ("te", "e"),
        ("trailers", "f"),
        ("transfer-encoding", "g"),
        ("upgrade", "h"),
        ("host", "kept"),
    ]);
    let filtered = filter_hop_headers(&input);
    assert_eq!(filtered.len(), 1);
    assert_eq!(value_of(&filtered, "host"), Some("kept"));
}

#[test]
fn test_prepare_upstream_headers_merges_and_forwards() {
    let inbound = headers(&[
        ("host", "gateway.example.com"),
        ("connection", "keep-alive"),
        ("content-type", "application/json"),
        ("x-overridden", "inbound-value"),
    ]);
    let extra = headers(&[("x-custom-header", "custom-value"), ("x-overridden", "route-value")]);

    let prepared = prepare_upstream_headers(&inbound, &extra);

    assert!(value_of(&prepared, "connection").is_none());
    assert_eq!(value_of(&prepared, "content-type"), Some("application/json"));
    assert_eq!(value_of(&prepared, "x-custom-header"), Some("custom-value"));
    assert_eq!(value_of(&prepared, "x-overridden"), Some("route-value"));
    assert_eq!(value_of(&prepared, "x-forwarded-host"), Some("gateway.example.com"));
    assert_eq!(value_of(&prepared, "x-forwarded-proto"), Some("https"));
}

#[test]
fn test_prepare_upstream_headers_without_host() {
    let inbound = headers(&[("accept", "*/*")]);
    let prepared = prepare_upstream_headers(&inbound, &Vec::new());
    assert!(value_of(&prepared, "x-forwarded-host").is_none());
    assert_eq!(value_of(&prepared, "x-forwarded-proto"), Some("https"));
}

#[test]
fn test_find_header() {
    let hs = headers(&[("a", "1"), ("b", "2"), ("a", "3")]);
    assert_eq!(find_header(&hs, "a"), Some("1".to_string()));
    assert_eq!(find_header(&hs, "b"), Some("2".to_string()));
    assert_eq!(find_header(&hs, "c"), None);
}

#[test]
fn test_upstream_error_status_relayed_verbatim() {
    let upstream_headers = headers(&[("content-type", "text/plain"), ("connection", "close")]);
    let body = b"service down".to_vec();
    let (status, relayed_headers, relayed_body) =
        relay_upstream_response(503, &upstream_headers, body);
    assert_eq!(status, 503);
    assert_eq!(relayed_body, b"service down".to_vec());
    assert_eq!(value_of(&relayed_headers, "content-type"), Some("text/plain"));
    assert!(value_of(&relayed_headers, "connection").is_none());
}

#[test]
fn test_ws_url_conversion() {
    assert_eq!(ws_url_of("http://svc:8080/socket"), "ws://svc:8080/socket");
    assert_eq!(ws_url_of("https://svc/socket"), "wss://svc/socket");
    assert_eq!(ws_url_of("ftp://svc/socket"), "ftp://svc/socket");
}

#[test]
fn test_bridge_dial_lifecycle() {
    let (state, action) = bridge_step(BridgeState::Pending, BridgeEvent::Start);
    assert_eq!(state, BridgeState::Connecting);
    assert_eq!(action, BridgeAction::Dial);

    let (state, action) = bridge_step(BridgeState::Connecting, BridgeEvent::DialSucceeded);
    assert_eq!(state, BridgeState::Bridging);
    assert_eq!(action, BridgeAction::Ignore);

    let (state, action) = bridge_step(BridgeState::Connecting, BridgeEvent::DialFailed);
    assert_eq!(state, BridgeState::Closed);
    assert_eq!(action, BridgeAction::Shutdown);
}

#[test]
fn test_bridge_relays_frames_unchanged() {
    let (state, action) = bridge_step(
        BridgeState::Bridging,
        BridgeEvent::FromClient(WsFrame::Text("hello".to_string())),
    );
    assert_eq!(state, BridgeState::Bridging);
    assert_eq!(action, BridgeAction::SendUpstream(WsFrame::Text("hello".to_string())));

    let (state, action) = bridge_step(
        BridgeState::Bridging,
        BridgeEvent::FromUpstream(WsFrame::Binary(vec![1, 2, 3])),
    );
    assert_eq!(state, BridgeState::Bridging);
    assert_eq!(action, BridgeAction::SendClient(WsFrame::Binary(vec![1, 2, 3])));

    let (state, action) =
        bridge_step(BridgeState::Bridging, BridgeEvent::FromClient(WsFrame::Ping(vec![9])));
    assert_eq!(state, BridgeState::Bridging);
    assert_eq!(action, BridgeAction::SendUpstream(WsFrame::Ping(vec![9])));
}

#[test]
fn test_bridge_close_tears_down() {
    let (state, action) = bridge_step(BridgeState::Bridging, BridgeEvent::FromClient(WsFrame::Close));
    assert_eq!(state, BridgeState::Closed);
    assert_eq!(action, BridgeAction::Shutdown);

    let (state, action) = bridge_step(BridgeState::Bridging, BridgeEvent::UpstreamGone);
    assert_eq!(state, BridgeState::Closed);
    assert_eq!(action, BridgeAction::Shutdown);

    // Closed is terminal.
    let (state, action) = bridge_step(
        BridgeState::Closed,
        BridgeEvent::FromUpstream(WsFrame::Text("late".to_string())),
    );
    assert_eq!(state, BridgeState::Closed);
    assert_eq!(action, BridgeAction::Ignore);
}

#[test]
fn test_error_status_codes() {
    assert_eq!(GatewayError::RouteNotFound("/x".to_string()).status_code(), 404);
    assert_eq!(GatewayError::UpstreamUnavailable("down".to_string()).status_code(), 502);
    assert_eq!(
        GatewayError::UpstreamError { status: 503, body: "down".to_string() }.status_code(),
        503
    );
    assert_eq!(GatewayError::Timeout.status_code(), 504);
    assert_eq!(GatewayError::RateLimited.status_code(), 429);
    assert_eq!(GatewayError::Config("bad".to_string()).status_code(), 500);
    assert_eq!(GatewayError::WebSocket("bad".to_string()).status_code(), 400);
    assert_eq!(GatewayError::Internal("bad".to_string()).status_code(), 500);
}

#[test]
fn test_error_messages() {
    let err = GatewayError::RouteNotFound("/unknown/path".to_string());
    assert_eq!(err.message(), "No route matched for path: /unknown/path");
    assert_eq!(GatewayError::Timeout.message(), "Request to upstream timed out");
}

#[test]
fn test_error_response_body() {
    let err = GatewayError::RouteNotFound("/unknown/path".to_string());
    let resp = ErrorResponse::from_error(&err);
    assert_eq!(resp.error.code, 404);
    assert_eq!(resp.error.status, "Not Found");
    assert!(resp.error.message.contains("No route matched"));
    assert!(resp.error.request_id.is_none());

    let tagged = resp.with_request_id("req-1".to_string());
    assert_eq!(tagged.error.request_id, Some("req-1".to_string()));
    assert_eq!(tagged.error.code, 404);
}

#[test]
fn test_status_text_table() {
    assert_eq!(status_text(404), "Not Found");
    assert_eq!(status_text(429), "Too Many Requests");
    assert_eq!(status_text(502), "Bad Gateway");
    assert_eq!(status_text(504), "Gateway Timeout");
    assert_eq!(status_text(418), "Unknown");
}
