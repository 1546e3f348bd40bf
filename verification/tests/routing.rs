//! Routing table and configuration handle behavior.

use gateway::config::{
    default_cors_max_age, default_poll_interval_secs, default_timeout_ms, default_true,
    initial_config, ConfigHandle, ConfigSource, CorsConfig, IngressConfig, Route, RoutingTable,
};
use gateway::error::GatewayError;

fn make_route(prefix: &str, upstream: &str) -> Route {
    Route {
        path_prefix: prefix.to_string(),
        upstream_url: upstream.to_string(),
        strip_prefix: true,
        headers: Vec::new(),
        rate_limit: None,
        timeout_ms: 30_000,
        websocket: false,
    }
}

fn sample_routes() -> RoutingTable {
    RoutingTable {
        routes: vec![
            make_route("/api/v1/users", "http://users-svc:8080"),
            make_route("/api/v1", "http://api-svc:8080"),
            Route {
                path_prefix: "/ws".to_string(),
                upstream_url: "http://ws-svc:8080".to_string(),
                strip_prefix: true,
                headers: Vec::new(),
                rate_limit: None,
                timeout_ms: 60_000,
                websocket: true,
            },
        ],
    }
}

#[test]
fn test_longest_prefix_wins() {
    let table = sample_routes();
    let (route, suffix) = table.match_route("/api/v1/users/123").unwrap();
    assert_eq!(route.upstream_url, "http://users-svc:8080");
    assert_eq!(suffix, "/123");
}

#[test]
fn test_shorter_prefix_match() {
    let table = sample_routes();
    let (route, suffix) = table.match_route("/api/v1/orders/42").unwrap();
    assert_eq!(route.upstream_url, "http://api-svc:8080");
    assert_eq!(suffix, "/orders/42");
}

#[test]
fn test_exact_prefix_match() {
    let table = sample_routes();
    let (route, suffix) = table.match_route("/api/v1/users").unwrap();
    assert_eq!(route.upstream_url, "http://users-svc:8080");
    assert_eq!(suffix, "/");
}

#[test]
fn test_websocket_route() {
    let table = sample_routes();
    let (route, _suffix) = table.match_route("/ws/graphql").unwrap();
    assert!(route.websocket);
}

#[test]
fn test_no_match() {
    let table = sample_routes();
    assert!(table.match_route("/unknown/path").is_none());
}

#[test]
fn test_match_is_deterministic() {
    let table = sample_routes();
    let first = table.match_route("/api/v1/users/123").map(|(r, s)| (r.upstream_url.clone(), s));
    let second = table.match_route("/api/v1/users/123").map(|(r, s)| (r.upstream_url.clone(), s));
    assert_eq!(first, second);
}

#[test]
fn test_empty_prefix_matches_everything() {
    let table = RoutingTable { routes: vec![make_route("", "http://fallback:80")] };
    let (route, suffix) = table.match_route("/anything/at/all").unwrap();
    assert_eq!(route.upstream_url, "http://fallback:80");
    assert_eq!(suffix, "/anything/at/all");
}

#[test]
fn test_trailing_slash_prefix_normalized() {
    let table = RoutingTable { routes: vec![make_route("/api/", "http://api:80")] };
    let (route, suffix) = table.match_route("/api/x").unwrap();
    assert_eq!(route.upstream_url, "http://api:80");
    assert_eq!(suffix, "/x");
    // "/apix" continues the prefix without a `/` boundary: no match.
    assert!(table.match_route("/apix").is_none());
}

#[test]
fn test_equal_length_prefixes_later_route_wins() {
    let table = RoutingTable {
        routes: vec![make_route("/api", "http://first:80"), make_route("/api", "http://second:80")],
    };
    let (route, _suffix) = table.match_route("/api/x").unwrap();
    assert_eq!(route.upstream_url, "http://second:80");
}

#[test]
fn test_no_strip_keeps_full_path() {
    let mut route = make_route("/api", "http://api:80");
    route.strip_prefix = false;
    let table = RoutingTable { routes: vec![route] };
    let (_route, suffix) = table.match_route("/api/x").unwrap();
    assert_eq!(suffix, "/api/x");
}

#[test]
fn test_config_source_auto() {
    match ConfigSource::from_str_auto("http://operator:9000/config") {
        ConfigSource::Url(u) => assert_eq!(u, "http://operator:9000/config"),
        other => panic!("expected a remote source, got {other:?}"),
    }
    match ConfigSource::from_str_auto("https://operator/config.json") {
        ConfigSource::Url(_) => {}
        other => panic!("expected a remote source, got {other:?}"),
    }
    match ConfigSource::from_str_auto("/etc/gateway/config.json") {
        ConfigSource::File(f) => assert_eq!(f, "/etc/gateway/config.json"),
        other => panic!("expected a file source, got {other:?}"),
    }
}

#[test]
fn test_default_values() {
    assert!(default_true());
    assert_eq!(default_timeout_ms(), 30_000);
    assert_eq!(default_poll_interval_secs(), 15);
    assert_eq!(default_cors_max_age(), 86_400);
    let cors = CorsConfig::default();
    assert_eq!(cors.allowed_origins, vec!["*".to_string()]);
    assert_eq!(cors.allowed_methods.len(), 6);
    assert_eq!(cors.allowed_headers.len(), 3);
    assert!(!cors.allow_credentials);
    let config = IngressConfig::default();
    assert!(config.routing.routes.is_empty());
    assert!(config.rate_limit.is_none());
    assert_eq!(config.poll_interval_secs, 15);
}

fn one_route_config() -> IngressConfig {
    IngressConfig {
        routing: RoutingTable { routes: vec![make_route("/api", "http://api:80")] },
        cors: CorsConfig::default(),
        rate_limit: None,
        poll_interval_secs: 15,
    }
}

#[test]
fn test_failed_reload_keeps_previous_table() {
    let mut handle = ConfigHandle::new(one_route_config());
    assert!(handle.read().routing.match_route("/api/x").is_some());
    let version_before = handle.version;

    handle.apply_refresh(Err(GatewayError::Config("parse failure".to_string())));

    // The previously active table answers exactly as before.
    let (route, suffix) = handle.read().routing.match_route("/api/x").unwrap();
    assert_eq!(route.upstream_url, "http://api:80");
    assert_eq!(suffix, "/x");
    assert_eq!(handle.version, version_before);
}

#[test]
fn test_successful_reload_replaces_table() {
    let mut handle = ConfigHandle::new(one_route_config());
    let mut next = one_route_config();
    next.routing.routes.push(make_route("/v2", "http://v2:80"));

    handle.apply_refresh(Ok(next));

    assert_eq!(handle.read().routing.routes.len(), 2);
    assert_eq!(handle.version, 1);
    assert!(handle.read().routing.match_route("/v2/x").is_some());
}

#[test]
fn test_initial_config_defaults_on_error() {
    let config = initial_config(Err(GatewayError::Config("no such file".to_string())));
    assert!(config.routing.routes.is_empty());
    assert_eq!(config.poll_interval_secs, 15);

    let loaded = initial_config(Ok(one_route_config()));
    assert_eq!(loaded.routing.routes.len(), 1);
}
