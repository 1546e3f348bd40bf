//! Configuration types, the routing table with longest-prefix matching, and
//! the reloadable holder of the active configuration.

use vstd::prelude::*;
use vstd::string::StrSliceExecFns;
use crate::error::GatewayError;
use crate::strutil::{spec_trim_slashes, str_starts_with, trim_trailing_slashes};

verus! {

/// Token-bucket rate limit parameters.
#[derive(Debug, Clone, Copy)]
pub struct RateLimitConfig {
    /// Sustained refill rate.
    pub requests_per_second: u32,
    /// Bucket capacity.
    pub burst: u32,
}

/// Cross-origin resource sharing policy.
#[derive(Debug, Clone)]
pub struct CorsConfig {
    pub allowed_origins: Vec<String>,
    pub allowed_methods: Vec<String>,
    pub allowed_headers: Vec<String>,
    pub allow_credentials: bool,
    pub max_age_secs: u64,
}

/// A single routing rule: a path prefix mapped to an upstream base URL,
/// with its policy overrides.
#[derive(Debug)]
pub struct Route {
    /// Path prefix to match. The longest matching prefix wins; among equal
    /// lengths the route scanned later is kept.
    pub path_prefix: String,
    /// Upstream base URL the matched request is forwarded to.
    pub upstream_url: String,
    /// Whether to strip the matched prefix before forwarding.
    pub strip_prefix: bool,
    /// Extra headers injected into the upstream request, as name-value
    /// pairs; a later pair with the same name overrides an earlier one.
    pub headers: Vec<(String, String)>,
    /// Per-route rate limit, overriding the global one.
    pub rate_limit: Option<RateLimitConfig>,
    /// Per-route upstream timeout in milliseconds.
    pub timeout_ms: u64,
    /// Whether WebSocket upgrade is allowed on this route.
    pub websocket: bool,
}

/// An ordered list of routes, evaluated as one table.
#[derive(Debug)]
pub struct RoutingTable {
    pub routes: Vec<Route>,
}

/// Everything the gateway needs to know: routes, CORS policy, the default
/// rate limit, and how often to re-poll the configuration source.
#[derive(Debug)]
pub struct IngressConfig {
    pub routing: RoutingTable,
    pub cors: CorsConfig,
    pub rate_limit: Option<RateLimitConfig>,
    pub poll_interval_secs: u64,
}

// ---------------------------------------------------------------------------
// Defaults
// ---------------------------------------------------------------------------

pub fn default_true() -> (r: bool)
    ensures
        r == true,
{
    true
}

pub fn default_timeout_ms() -> (r: u64)
    ensures
        r == 30000,
{
    30_000
}

pub fn default_poll_interval_secs() -> (r: u64)
    ensures
        r == 15,
{
    15
}

pub fn default_cors_max_age() -> (r: u64)
    ensures
        r == 86400,
{
    86400
}

pub fn default_cors_origins() -> (r: Vec<String>)
    ensures
        r@.len() == 1,
        r@[0]@ == "*"@,
{
    let mut v: Vec<String> = Vec::new();
    v.push("*".to_owned());
    v
}

pub fn default_cors_methods() -> (r: Vec<String>)
    ensures
        r@.len() == 6,
        r@[0]@ == "GET"@,
        r@[1]@ == "POST"@,
        r@[2]@ == "PUT"@,
        r@[3]@ == "DELETE"@,
        r@[4]@ == "OPTIONS"@,
        r@[5]@ == "PATCH"@,
{
    let mut v: Vec<String> = Vec::new();
    v.push("GET".to_owned());
    v.push("POST".to_owned());
    v.push("PUT".to_owned());
    v.push("DELETE".to_owned());
    v.push("OPTIONS".to_owned());
    v.push("PATCH".to_owned());
    v
}

pub fn default_cors_headers() -> (r: Vec<String>)
    ensures
        r@.len() == 3,
        r@[0]@ == "Content-Type"@,
        r@[1]@ == "Authorization"@,
        r@[2]@ == "X-Request-ID"@,
{
    let mut v: Vec<String> = Vec::new();
    v.push("Content-Type".to_owned());
    v.push("Authorization".to_owned());
    v.push("X-Request-ID".to_owned());
    v
}

/// The CORS policy used when the configuration names none.
pub open spec fn is_default_cors(c: CorsConfig) -> bool {
    &&& c.allowed_origins@.len() == 1
    &&& c.allowed_origins@[0]@ == "*"@
    &&& c.allowed_methods@.len() == 6
    &&& c.allowed_methods@[0]@ == "GET"@
    &&& c.allowed_methods@[1]@ == "POST"@
    &&& c.allowed_methods@[2]@ == "PUT"@
    &&& c.allowed_methods@[3]@ == "DELETE"@
    &&& c.allowed_methods@[4]@ == "OPTIONS"@
    &&& c.allowed_methods@[5]@ == "PATCH"@
    &&& c.allowed_headers@.len() == 3
    &&& c.allowed_headers@[0]@ == "Content-Type"@
    &&& c.allowed_headers@[1]@ == "Authorization"@
    &&& c.allowed_headers@[2]@ == "X-Request-ID"@
    &&& c.allow_credentials == false
    &&& c.max_age_secs == 86400
}

/// The configuration the gateway boots with when none could be loaded:
/// an empty routing table and the stock policy defaults.
pub open spec fn is_default_config(c: IngressConfig) -> bool {
    &&& c.routing.routes@.len() == 0
    &&& is_default_cors(c.cors)
    &&& c.rate_limit is None
    &&& c.poll_interval_secs == 15
}

impl Default for CorsConfig {
    fn default() -> (r: Self)
        ensures
            is_default_cors(r),
    {
        CorsConfig {
            allowed_origins: default_cors_origins(),
            allowed_methods: default_cors_methods(),
            allowed_headers: default_cors_headers(),
            allow_credentials: false,
            max_age_secs: default_cors_max_age(),
        }
    }
}

impl Default for IngressConfig {
    fn default() -> (r: Self)
        ensures
            is_default_config(r),
    {
        IngressConfig {
            routing: RoutingTable { routes: Vec::new() },
            cors: CorsConfig::default(),
            rate_limit: None,
            poll_interval_secs: default_poll_interval_secs(),
        }
    }
}

// ---------------------------------------------------------------------------
// Route matching
// ---------------------------------------------------------------------------

/// Whether the normalized prefix `p` matches `path`: the path equals the
/// prefix, or continues it at a `/` boundary, or the prefix is empty
/// (an empty prefix matches every path).
pub open spec fn spec_prefix_matches(path: Seq<char>, p: Seq<char>) -> bool {
    ||| p.len() == 0
    ||| (crate::strutil::spec_starts_with(path, p) && (path.len() == p.len() || path[p.len() as int]
        == '/'))
}

/// A route's configured prefix with trailing slashes trimmed.
pub open spec fn route_norm_prefix(r: Route) -> Seq<char> {
    spec_trim_slashes(r.path_prefix@)
}

/// Whether a route matches `path`.
pub open spec fn route_matches(r: Route, path: Seq<char>) -> bool {
    spec_prefix_matches(path, route_norm_prefix(r))
}

/// The path forwarded upstream: the full path when the prefix is kept, the
/// remainder after the prefix when it is stripped, and `/` when stripping
/// leaves nothing (an empty path is never forwarded).
pub open spec fn spec_suffix(path: Seq<char>, p: Seq<char>, strip: bool) -> Seq<char> {
    if !strip {
        path
    } else if path.len() == p.len() {
        seq!['/']
    } else {
        path.subrange(p.len() as int, path.len() as int)
    }
}

/// One left-to-right scan over the routes, keeping the current candidate
/// whenever a route matches with a normalized prefix at least as long: the
/// longest prefix wins, and among equal lengths the route scanned later.
pub open spec fn spec_scan(
    routes: Seq<Route>,
    path: Seq<char>,
    i: int,
    best: Option<int>,
    best_len: int,
) -> Option<int>
    decreases routes.len() - i,
{
    if i < 0 || i >= routes.len() {
        best
    } else {
        let p = route_norm_prefix(routes[i]);
        if route_matches(routes[i], path) && p.len() >= best_len {
            spec_scan(routes, path, i + 1, Some(i), p.len() as int)
        } else {
            spec_scan(routes, path, i + 1, best, best_len)
        }
    }
}

/// The index of the route chosen for `path`, if any route matches.
pub open spec fn spec_match_idx(routes: Seq<Route>, path: Seq<char>) -> Option<int> {
    spec_scan(routes, path, 0, None, 0)
}

/// The full result of route matching: the chosen index and the suffix.
pub open spec fn spec_match_result(routes: Seq<Route>, path: Seq<char>) -> Option<
    (int, Seq<char>),
> {
    match spec_match_idx(routes, path) {
        Some(b) => Some(
            (b, spec_suffix(path, route_norm_prefix(routes[b]), routes[b].strip_prefix)),
        ),
        None => None,
    }
}

/// An `Option<usize>` as a mathematical index option.
pub open spec fn opt_idx(o: Option<usize>) -> Option<int> {
    match o {
        Some(b) => Some(b as int),
        None => None,
    }
}

proof fn lemma_scan_props(
    routes: Seq<Route>,
    path: Seq<char>,
    i: int,
    best: Option<int>,
    best_len: int,
)
    requires
        0 <= i <= routes.len(),
        best matches Some(b) ==> (0 <= b < i && route_matches(routes[b], path)
            && route_norm_prefix(routes[b]).len() == best_len && forall|j: int|
            b < j < i && route_matches(routes[j], path) ==> route_norm_prefix(
                routes[j],
            ).len() < best_len),
        best is None ==> (best_len == 0 && forall|j: int|
            0 <= j < i ==> !route_matches(routes[j], path)),
        forall|j: int|
            0 <= j < i && route_matches(routes[j], path) ==> route_norm_prefix(
                routes[j],
            ).len() <= best_len,
    ensures
        ({
            let r = spec_scan(routes, path, i, best, best_len);
            &&& (r matches Some(b) ==> 0 <= b < routes.len() && route_matches(routes[b], path)
                && (forall|j: int|
                0 <= j < routes.len() && route_matches(routes[j], path) ==> route_norm_prefix(
                    routes[j],
                ).len() <= route_norm_prefix(routes[b]).len()) && forall|j: int|
                b < j < routes.len() && route_matches(routes[j], path) ==> route_norm_prefix(
                    routes[j],
                ).len() < route_norm_prefix(routes[b]).len())
            &&& (r is None ==> forall|j: int|
                0 <= j < routes.len() ==> !route_matches(routes[j], path))
        }),
    decreases routes.len() - i,
{
    if i < routes.len() {
        let p = route_norm_prefix(routes[i]);
        if route_matches(routes[i], path) && p.len() >= best_len {
            lemma_scan_props(routes, path, i + 1, Some(i), p.len() as int);
        } else {
            lemma_scan_props(routes, path, i + 1, best, best_len);
        }
    }
}

/// Law: route matching is deterministic — any two results that satisfy the
/// matching equation for the same table and path are the same result.
pub proof fn lemma_match_route_deterministic(
    routes: Seq<Route>,
    path: Seq<char>,
    r1: Option<(int, Seq<char>)>,
    r2: Option<(int, Seq<char>)>,
)
    requires
        r1 == spec_match_result(routes, path),
        r2 == spec_match_result(routes, path),
    ensures
        r1 == r2,
{
}

/// Law: the longest prefix wins — a chosen route matches the path and no
/// matching route has a longer normalized prefix; among equal-longest
/// prefixes the route registered last is the one chosen; and no route is
/// chosen exactly when no route matches.
pub proof fn lemma_match_route_longest(routes: Seq<Route>, path: Seq<char>)
    ensures
        spec_match_idx(routes, path) matches Some(b) ==> 0 <= b < routes.len() && route_matches(
            routes[b],
            path,
        ) && (forall|j: int|
            0 <= j < routes.len() && route_matches(routes[j], path) ==> route_norm_prefix(
                routes[j],
            ).len() <= route_norm_prefix(routes[b]).len()) && forall|j: int|
            b < j < routes.len() && route_matches(routes[j], path) ==> route_norm_prefix(
                routes[j],
            ).len() < route_norm_prefix(routes[b]).len(),
        spec_match_idx(routes, path) is None ==> forall|j: int|
            0 <= j < routes.len() ==> !route_matches(routes[j], path),
{
    lemma_scan_props(routes, path, 0, None, 0);
}

/// Law: a stripped suffix is never empty — an exact match yields `/`.
pub proof fn lemma_suffix_nonempty(path: Seq<char>, p: Seq<char>)
    requires
        spec_prefix_matches(path, p),
    ensures
        spec_suffix(path, p, true).len() > 0,
        path.len() == p.len() ==> spec_suffix(path, p, true) == seq!['/'],
{
}

/// Whether the normalized prefix `prefix_norm` matches `path`.
fn prefix_matches_exec(path: &str, prefix_norm: &str) -> (r: bool)
    ensures
        r == spec_prefix_matches(path@, prefix_norm@),
{
    let plen = prefix_norm.unicode_len();
    if plen == 0 {
        return true;
    }
    let n = path.unicode_len();
    if !str_starts_with(path, prefix_norm) {
        return false;
    }
    if n == plen {
        return true;
    }
    path.get_char(plen) == '/'
}

impl RoutingTable {
    /// Find the best matching route for `path`: the longest normalized
    /// prefix wins; among equal-longest prefixes the route registered later
    /// is kept. Returns the matched route and the path suffix to forward.
    pub fn match_route<'a>(&'a self, path: &str) -> (r: Option<(&'a Route, String)>)
        ensures
            match r {
                Some(m) => {
                    &&& (spec_match_idx(self.routes@, path@) matches Some(b) && *m.0
                        == self.routes@[b])
                    &&& m.1@ == spec_suffix(path@, route_norm_prefix(*m.0), m.0.strip_prefix)
                    &&& m.0.strip_prefix ==> m.1@.len() > 0
                },
                None => spec_match_idx(self.routes@, path@) is None,
            },
    {
        let ghost target = spec_match_idx(self.routes@, path@);
        let n_routes = self.routes.len();
        let mut best: Option<usize> = None;
        let mut best_len: usize = 0;
        let mut i: usize = 0;
        while i < n_routes
            invariant
                i <= n_routes,
                n_routes == self.routes@.len(),
                spec_scan(self.routes@, path@, i as int, opt_idx(best), best_len as int) == target,
                best matches Some(b) ==> (b < i && route_matches(self.routes@[b as int], path@)
                    && route_norm_prefix(self.routes@[b as int]).len() == best_len),
                best is None ==> best_len == 0,
            decreases n_routes - i,
        {
            let route = &self.routes[i];
            let pref = trim_trailing_slashes(route.path_prefix.as_str());
            let plen = pref.unicode_len();
            let matched = prefix_matches_exec(path, pref);
            proof {
                assert(pref@ == route_norm_prefix(self.routes@[i as int]));
            }
            if matched && plen >= best_len {
                best = Some(i);
                best_len = plen;
            }
            i = i + 1;
        }
        match best {
            Some(b) => {
                proof {
                    assert(target == opt_idx(Some(b)));
                }
                let route = &self.routes[b];
                let pref = trim_trailing_slashes(route.path_prefix.as_str());
                let plen = pref.unicode_len();
                let n = path.unicode_len();
                proof {
                    assert(pref@ == route_norm_prefix(*route));
                    assert(route_matches(*route, path@));
                    assert(plen <= n);
                }
                let suffix: String = if route.strip_prefix {
                    if plen == n {
                        proof {
                            reveal_strlit("/");
                            assert("/"@ =~= seq!['/']);
                        }
                        "/".to_owned()
                    } else {
                        path.substring_char(plen, n).to_owned()
                    }
                } else {
                    path.to_owned()
                };
                Some((route, suffix))
            },
            None => None,
        }
    }
}

// ---------------------------------------------------------------------------
// Configuration source
// ---------------------------------------------------------------------------

/// Where the configuration document comes from.
#[derive(Debug, Clone)]
pub enum ConfigSource {
    /// A local file path.
    File(String),
    /// A remote endpoint.
    Url(String),
}

/// Whether `s` names a remote configuration endpoint.
pub open spec fn spec_is_remote(s: Seq<char>) -> bool {
    crate::strutil::spec_starts_with(s, "http://"@) || crate::strutil::spec_starts_with(
        s,
        "https://"@,
    )
}

impl ConfigSource {
    /// A string beginning with an HTTP scheme is a remote endpoint;
    /// anything else is a file path.
    pub fn from_str_auto(s: &str) -> (r: Self)
        ensures
            spec_is_remote(s@) ==> (r matches ConfigSource::Url(u) && u@ == s@),
            !spec_is_remote(s@) ==> (r matches ConfigSource::File(f) && f@ == s@),
    {
        if str_starts_with(s, "http://") || str_starts_with(s, "https://") {
            ConfigSource::Url(s.to_owned())
        } else {
            ConfigSource::File(s.to_owned())
        }
    }
}

// ---------------------------------------------------------------------------
// Reloadable configuration holder
// ---------------------------------------------------------------------------

/// The version counter after one more successful reload.
pub open spec fn spec_next_version(v: u64) -> u64 {
    if v == 0xFFFF_FFFF_FFFF_FFFFu64 {
        0u64
    } else {
        (v + 1) as u64
    }
}

/// Versioned holder of the active configuration. The configuration is only
/// ever replaced wholesale, never edited in place, so a reader observes one
/// complete value. The surrounding runtime shares one `ConfigHandle` between
/// all request handlers and a single background refresh task.
#[derive(Debug)]
pub struct ConfigHandle {
    pub current: IngressConfig,
    pub version: u64,
}

impl ConfigHandle {
    pub fn new(config: IngressConfig) -> (r: Self)
        ensures
            r.current == config,
            r.version == 0,
    {
        ConfigHandle { current: config, version: 0 }
    }

    /// The active configuration.
    pub fn read(&self) -> (r: &IngressConfig)
        ensures
            *r == self.current,
    {
        &self.current
    }

    /// Replace the configuration wholesale.
    pub fn update(&mut self, config: IngressConfig)
        ensures
            final (self).current == config,
            final (self).version == spec_next_version(old(self).version),
    {
        self.current = config;
        if self.version == 0xFFFF_FFFF_FFFF_FFFFu64 {
            self.version = 0;
        } else {
            self.version = self.version + 1;
        }
    }

    /// Apply the outcome of one background refresh: a freshly fetched
    /// configuration replaces the active one; a failed fetch leaves the
    /// active configuration exactly as it was.
    pub fn apply_refresh(&mut self, fetched: Result<IngressConfig, GatewayError>)
        ensures
            fetched matches Ok(cfg) ==> final (self).current == cfg && final (self).version
                == spec_next_version(old(self).version),
            fetched is Err ==> *final (self) == *old(self),
    {
        match fetched {
            Ok(cfg) => self.update(cfg),
            Err(_) => (),
        }
    }
}

/// The configuration the gateway starts with: the loaded one if the initial
/// load succeeded, the default (empty routing table) if it failed.
pub fn initial_config(loaded: Result<IngressConfig, GatewayError>) -> (r: IngressConfig)
    ensures
        loaded matches Ok(cfg) ==> r == cfg,
        loaded is Err ==> is_default_config(r),
{
    match loaded {
        Ok(cfg) => cfg,
        Err(_) => IngressConfig::default(),
    }
}

} // verus!
