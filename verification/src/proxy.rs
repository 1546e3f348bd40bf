//! The forwarding engine's pure core: hop-by-hop header hygiene, header
//! merging for the upstream request, upstream URL construction, and the
//! WebSocket bridge modeled as an explicit state machine.
//!
//! Headers are modeled as ordered name-value pairs with names already in
//! their canonical lower-case form, the form the surrounding HTTP layer
//! hands over. Contracts speak of the character-sequence view of each pair.

use vstd::prelude::*;
use vstd::string::StrSliceExecFns;
use crate::error::GatewayError;
use crate::strutil::{spec_starts_with, spec_trim_slashes, str_concat, str_eq, str_starts_with,
    trim_trailing_slashes};

verus! {

/// The character-sequence view of a header list.
pub open spec fn hview(hs: Seq<(String, String)>) -> Seq<(Seq<char>, Seq<char>)> {
    hs.map_values(|p: (String, String)| (p.0@, p.1@))
}

// ---------------------------------------------------------------------------
// Hop-by-hop header hygiene
// ---------------------------------------------------------------------------

/// Whether `n` names one of the hop-by-hop headers that must not cross a
/// proxy boundary.
pub open spec fn spec_is_hop_header(n: Seq<char>) -> bool {
    ||| n == "connection"@
    ||| n == "keep-alive"@
    ||| n == "proxy-authenticate"@
    ||| n == "proxy-authorization"@
    ||| n == "te"@
    ||| n == "trailers"@
    ||| n == "transfer-encoding"@
    ||| n == "upgrade"@
}

/// Whether `name` is a hop-by-hop header.
pub fn is_hop_header(name: &str) -> (r: bool)
    ensures
        r == spec_is_hop_header(name@),
{
    str_eq(name, "connection") || str_eq(name, "keep-alive") || str_eq(name, "proxy-authenticate")
        || str_eq(name, "proxy-authorization") || str_eq(name, "te") || str_eq(name, "trailers")
        || str_eq(name, "transfer-encoding") || str_eq(name, "upgrade")
}

/// A header list with the hop-by-hop headers removed, order kept.
pub open spec fn spec_filter_hop(hs: Seq<(Seq<char>, Seq<char>)>) -> Seq<(Seq<char>, Seq<char>)> {
    hs.filter(|p: (Seq<char>, Seq<char>)| !spec_is_hop_header(p.0))
}

/// Drop every hop-by-hop header, keeping the rest in order.
pub fn filter_hop_headers(headers: &Vec<(String, String)>) -> (r: Vec<(String, String)>)
    ensures
        hview(r@) == spec_filter_hop(hview(headers@)),
{
    let ghost hv = hview(headers@);
    let n = headers.len();
    let mut out: Vec<(String, String)> = Vec::new();
    let mut i: usize = 0;
    while i < n
        invariant
            i <= n,
            n == headers@.len(),
            hv == hview(headers@),
            hview(out@) == spec_filter_hop(hv.take(i as int)),
        decreases n - i,
    {
        proof {
            reveal(Seq::filter);
            assert(hv[i as int] == (headers@[i as int].0@, headers@[i as int].1@));
            assert(hv.take(i + 1).drop_last() =~= hv.take(i as int));
            assert(hv.take(i + 1).last() == hv[i as int]);
            assert(spec_filter_hop(hv.take(i + 1)) == if !spec_is_hop_header(hv[i as int].0) {
                spec_filter_hop(hv.take(i as int)).push(hv[i as int])
            } else {
                spec_filter_hop(hv.take(i as int))
            });
        }
        if !is_hop_header(headers[i].0.as_str()) {
            let pair = (headers[i].0.clone(), headers[i].1.clone());
            let ghost prev = out@;
            out.push(pair);
            proof {
                assert(hview(out@) =~= hview(prev).push((pair.0@, pair.1@)));
            }
        }
        i = i + 1;
    }
    proof {
        assert(hv.take(n as int) =~= hv);
    }
    out
}

// ---------------------------------------------------------------------------
// Header merging for the upstream request
// ---------------------------------------------------------------------------

/// `hs` with every pair named `name` removed, order otherwise kept.
pub open spec fn spec_drop_name(hs: Seq<(Seq<char>, Seq<char>)>, name: Seq<char>) -> Seq<
    (Seq<char>, Seq<char>),
> {
    hs.filter(|p: (Seq<char>, Seq<char>)| p.0 != name)
}

/// `hs` with the header `name: value` set: any same-named pair is replaced.
pub open spec fn spec_upsert(
    hs: Seq<(Seq<char>, Seq<char>)>,
    name: Seq<char>,
    value: Seq<char>,
) -> Seq<(Seq<char>, Seq<char>)> {
    spec_drop_name(hs, name).push((name, value))
}

/// `base` with each of the pairs of `extra` from index `i` on set in turn.
pub open spec fn spec_merge_extra(
    base: Seq<(Seq<char>, Seq<char>)>,
    extra: Seq<(Seq<char>, Seq<char>)>,
    i: int,
) -> Seq<(Seq<char>, Seq<char>)>
    decreases extra.len() - i,
{
    if i < 0 || i >= extra.len() {
        base
    } else {
        spec_merge_extra(spec_upsert(base, extra[i].0, extra[i].1), extra, i + 1)
    }
}

/// The value of the first header named `name`, if one is present.
pub open spec fn spec_find_header(hs: Seq<(Seq<char>, Seq<char>)>, name: Seq<char>) -> Option<
    Seq<char>,
>
    decreases hs.len(),
{
    if hs.len() == 0 {
        None
    } else if hs[0].0 == name {
        Some(hs[0].1)
    } else {
        spec_find_header(hs.drop_first(), name)
    }
}

/// Set `name: value`, replacing any same-named pair.
fn upsert_header(headers: Vec<(String, String)>, name: String, value: String) -> (r: Vec<
    (String, String),
>)
    ensures
        hview(r@) == spec_upsert(hview(headers@), name@, value@),
{
    let ghost hv = hview(headers@);
    let n = headers.len();
    let mut out: Vec<(String, String)> = Vec::new();
    let mut i: usize = 0;
    while i < n
        invariant
            i <= n,
            n == headers@.len(),
            hv == hview(headers@),
            hview(out@) == spec_drop_name(hv.take(i as int), name@),
        decreases n - i,
    {
        proof {
            reveal(Seq::filter);
            assert(hv[i as int] == (headers@[i as int].0@, headers@[i as int].1@));
            assert(hv.take(i + 1).drop_last() =~= hv.take(i as int));
            assert(hv.take(i + 1).last() == hv[i as int]);
            assert(spec_drop_name(hv.take(i + 1), name@) == if hv[i as int].0 != name@ {
                spec_drop_name(hv.take(i as int), name@).push(hv[i as int])
            } else {
                spec_drop_name(hv.take(i as int), name@)
            });
        }
        if !str_eq(headers[i].0.as_str(), name.as_str()) {
            let pair = (headers[i].0.clone(), headers[i].1.clone());
            let ghost prev = out@;
            out.push(pair);
            proof {
                assert(hview(out@) =~= hview(prev).push((pair.0@, pair.1@)));
            }
        }
        i = i + 1;
    }
    proof {
        assert(hv.take(n as int) =~= hv);
    }
    let ghost prev = out@;
    out.push((name, value));
    proof {
        assert(hview(out@) =~= hview(prev).push((out@.last().0@, out@.last().1@)));
    }
    out
}

/// The value of the first header named `name`, if one is present.
pub fn find_header(headers: &Vec<(String, String)>, name: &str) -> (r: Option<String>)
    ensures
        match r {
            Some(v) => spec_find_header(hview(headers@), name@) == Some(v@),
            None => spec_find_header(hview(headers@), name@) is None,
        },
{
    let ghost hv = hview(headers@);
    let n = headers.len();
    let mut i: usize = 0;
    proof {
        assert(hv.skip(0) =~= hv);
    }
    while i < n
        invariant
            i <= n,
            n == headers@.len(),
            hv == hview(headers@),
            spec_find_header(hv.skip(i as int), name@) == spec_find_header(hv, name@),
        decreases n - i,
    {
        proof {
            assert(hv[i as int] == (headers@[i as int].0@, headers@[i as int].1@));
            assert(hv.skip(i as int)[0] == hv[i as int]);
            assert(hv.skip(i as int).drop_first() =~= hv.skip(i + 1));
        }
        if str_eq(headers[i].0.as_str(), name) {
            return Some(headers[i].1.clone());
        }
        i = i + 1;
    }
    proof {
        assert(hv.skip(n as int) =~= Seq::<(Seq<char>, Seq<char>)>::empty());
    }
    None
}

/// The headers sent upstream for a matched request: the inbound headers
/// with hop-by-hop headers dropped, the route's extra headers set in order
/// (overwriting same-named inbound headers), `x-forwarded-host` set from
/// the inbound `host` header when one is present, and `x-forwarded-proto`
/// set.
pub open spec fn spec_prepare_headers(
    inbound: Seq<(Seq<char>, Seq<char>)>,
    extra: Seq<(Seq<char>, Seq<char>)>,
) -> Seq<(Seq<char>, Seq<char>)> {
    let merged = spec_merge_extra(spec_filter_hop(inbound), extra, 0);
    let hosted = match spec_find_header(inbound, "host"@) {
        Some(h) => spec_upsert(merged, "x-forwarded-host"@, h),
        None => merged,
    };
    spec_upsert(hosted, "x-forwarded-proto"@, "https"@)
}

/// Build the header list for the upstream request.
pub fn prepare_upstream_headers(
    inbound: &Vec<(String, String)>,
    extra: &Vec<(String, String)>,
) -> (r: Vec<(String, String)>)
    ensures
        hview(r@) == spec_prepare_headers(hview(inbound@), hview(extra@)),
{
    let ghost iv = hview(inbound@);
    let ghost ev = hview(extra@);
    let mut cur = filter_hop_headers(inbound);
    let n = extra.len();
    let mut i: usize = 0;
    while i < n
        invariant
            i <= n,
            n == extra@.len(),
            ev == hview(extra@),
            spec_merge_extra(hview(cur@), ev, i as int) == spec_merge_extra(
                spec_filter_hop(iv),
                ev,
                0,
            ),
        decreases n - i,
    {
        let name = extra[i].0.clone();
        let value = extra[i].1.clone();
        proof {
            assert((name@, value@) == ev[i as int]);
        }
        cur = upsert_header(cur, name, value);
        i = i + 1;
    }
    let host = find_header(inbound, "host");
    let hosted = match host {
        Some(h) => upsert_header(cur, "x-forwarded-host".to_owned(), h),
        None => cur,
    };
    upsert_header(hosted, "x-forwarded-proto".to_owned(), "https".to_owned())
}

/// The response relayed to the client for an upstream reply: the status
/// and body pass through verbatim — an upstream error status is the
/// upstream's own answer, not a gateway fault — and hop-by-hop headers are
/// dropped.
pub fn relay_upstream_response(
    status: u16,
    headers: &Vec<(String, String)>,
    body: Vec<u8>,
) -> (r: (u16, Vec<(String, String)>, Vec<u8>))
    ensures
        r.0 == status,
        hview(r.1@) == spec_filter_hop(hview(headers@)),
        r.2@ == body@,
{
    (status, filter_hop_headers(headers), body)
}

// ---------------------------------------------------------------------------
// Upstream URL construction
// ---------------------------------------------------------------------------

/// `suffix`, given a leading slash if it lacks one.
pub open spec fn spec_ensure_leading_slash(suffix: Seq<char>) -> Seq<char> {
    if suffix.len() > 0 && suffix[0] == '/' {
        suffix
    } else {
        seq!['/'] + suffix
    }
}

/// The upstream URL for a matched request: the base with trailing slashes
/// trimmed, then the suffix with a leading slash, then the query string.
pub open spec fn spec_upstream_url(base: Seq<char>, suffix: Seq<char>, query: Seq<char>) -> Seq<
    char,
> {
    spec_trim_slashes(base) + spec_ensure_leading_slash(suffix) + query
}

/// Whether a string parses as an absolute URL.
pub uninterp spec fn url_is_valid(s: Seq<char>) -> bool;

/// Relies on `url::Url::parse`: whether `s` parses as an absolute URL,
/// a function of the characters of `s` alone.
#[verifier::external_body]
fn url_parse_ok(s: &str) -> (r: bool)
    ensures
        r == url_is_valid(s@),
{
    url::Url::parse(s).is_ok()
}

/// Construct and validate the upstream URL. The base keeps no trailing
/// slash and the suffix always contributes a leading one, so the join
/// never duplicates or drops a slash.
pub fn build_upstream_url(base: &str, suffix: &str, query: &str) -> (r: Result<
    String,
    GatewayError,
>)
    ensures
        match r {
            Ok(u) => u@ == spec_upstream_url(base@, suffix@, query@) && url_is_valid(u@),
            Err(e) => !url_is_valid(spec_upstream_url(base@, suffix@, query@)) && (
            e matches GatewayError::Config(d) && d@ == "bad upstream URL: "@ + spec_upstream_url(
                base@,
                suffix@,
                query@,
            )),
        },
{
    let trimmed = trim_trailing_slashes(base);
    let n = suffix.unicode_len();
    let with_slash: String = if n > 0 && suffix.get_char(0) == '/' {
        suffix.to_owned()
    } else {
        proof {
            reveal_strlit("/");
            assert("/"@ =~= seq!['/']);
        }
        str_concat("/", suffix)
    };
    let front = str_concat(trimmed, with_slash.as_str());
    let raw = str_concat(front.as_str(), query);
    proof {
        assert(raw@ =~= spec_upstream_url(base@, suffix@, query@));
    }
    if url_parse_ok(raw.as_str()) {
        Ok(raw)
    } else {
        Err(GatewayError::Config(str_concat("bad upstream URL: ", raw.as_str())))
    }
}

// ---------------------------------------------------------------------------
// WebSocket upstream URL
// ---------------------------------------------------------------------------

/// The upstream URL with its scheme switched to the WebSocket one:
/// `http` becomes `ws`, `https` becomes `wss`, anything else is kept.
pub open spec fn spec_ws_url(u: Seq<char>) -> Seq<char> {
    if spec_starts_with(u, "http://"@) {
        "ws://"@ + u.skip("http://"@.len() as int)
    } else if spec_starts_with(u, "https://"@) {
        "wss://"@ + u.skip("https://"@.len() as int)
    } else {
        u
    }
}

/// Switch an upstream URL's scheme to the WebSocket one.
pub fn ws_url_of(url_str: &str) -> (r: String)
    ensures
        r@ == spec_ws_url(url_str@),
{
    let n = url_str.unicode_len();
    if str_starts_with(url_str, "http://") {
        proof {
            reveal_strlit("http://");
        }
        let rest = url_str.substring_char(7, n);
        proof {
            assert(rest@ =~= url_str@.skip("http://"@.len() as int));
        }
        str_concat("ws://", rest)
    } else if str_starts_with(url_str, "https://") {
        proof {
            reveal_strlit("https://");
        }
        let rest = url_str.substring_char(8, n);
        proof {
            assert(rest@ =~= url_str@.skip("https://"@.len() as int));
        }
        str_concat("wss://", rest)
    } else {
        url_str.to_owned()
    }
}

// ---------------------------------------------------------------------------
// WebSocket bridge state machine
// ---------------------------------------------------------------------------

/// One WebSocket frame, as a closed set of kinds. Payloads are carried
/// byte-for-byte; close details are not preserved — a close is a close.
#[derive(Debug, PartialEq)]
pub enum WsFrame {
    Text(String),
    Binary(Vec<u8>),
    Ping(Vec<u8>),
    Pong(Vec<u8>),
    Close,
}

/// Where the bridge stands.
#[derive(Debug, Clone, Copy, PartialEq, Eq, Structural)]
pub enum BridgeState {
    /// Upgrade requested, upstream not yet dialed.
    Pending,
    /// Dialing the upstream.
    Connecting,
    /// Both relay directions live.
    Bridging,
    /// Torn down; terminal.
    Closed,
}

/// What the runtime observed.
#[derive(Debug, PartialEq)]
pub enum BridgeEvent {
    /// The client-side upgrade completed; begin dialing.
    Start,
    DialSucceeded,
    DialFailed,
    /// A frame arrived from the client.
    FromClient(WsFrame),
    /// A frame arrived from the upstream.
    FromUpstream(WsFrame),
    /// The client stream ended or errored.
    ClientGone,
    /// The upstream stream ended or errored.
    UpstreamGone,
}

/// What the runtime must do next.
#[derive(Debug, PartialEq)]
pub enum BridgeAction {
    /// Open the upstream connection.
    Dial,
    /// Relay this frame to the upstream.
    SendUpstream(WsFrame),
    /// Relay this frame to the client.
    SendClient(WsFrame),
    /// Tear both directions down.
    Shutdown,
    /// Nothing to do.
    Ignore,
}

/// The bridge's transition function: frames are relayed unchanged while
/// bridging; a close frame, a vanished peer, or a failed dial tears the
/// whole bridge down; a closed bridge stays closed.
pub open spec fn spec_bridge_step(s: BridgeState, e: BridgeEvent) -> (BridgeState, BridgeAction) {
    match (s, e) {
        (BridgeState::Pending, BridgeEvent::Start) => (BridgeState::Connecting, BridgeAction::Dial),
        (BridgeState::Connecting, BridgeEvent::DialSucceeded) => (
            BridgeState::Bridging,
            BridgeAction::Ignore,
        ),
        (BridgeState::Connecting, BridgeEvent::DialFailed) => (
            BridgeState::Closed,
            BridgeAction::Shutdown,
        ),
        (BridgeState::Bridging, BridgeEvent::FromClient(f)) => if (f matches WsFrame::Close) {
            (BridgeState::Closed, BridgeAction::Shutdown)
        } else {
            (BridgeState::Bridging, BridgeAction::SendUpstream(f))
        },
        (BridgeState::Bridging, BridgeEvent::FromUpstream(f)) => if (f matches WsFrame::Close) {
            (BridgeState::Closed, BridgeAction::Shutdown)
        } else {
            (BridgeState::Bridging, BridgeAction::SendClient(f))
        },
        (BridgeState::Bridging, BridgeEvent::ClientGone) => (
            BridgeState::Closed,
            BridgeAction::Shutdown,
        ),
        (BridgeState::Bridging, BridgeEvent::UpstreamGone) => (
            BridgeState::Closed,
            BridgeAction::Shutdown,
        ),
        (_, _) => (s, BridgeAction::Ignore),
    }
}

/// Advance the bridge by one observed event.
pub fn bridge_step(state: BridgeState, event: BridgeEvent) -> (r: (BridgeState, BridgeAction))
    ensures
        r == spec_bridge_step(state, event),
{
    match (state, event) {
        (BridgeState::Pending, BridgeEvent::Start) => (BridgeState::Connecting, BridgeAction::Dial),
        (BridgeState::Connecting, BridgeEvent::DialSucceeded) => (
            BridgeState::Bridging,
            BridgeAction::Ignore,
        ),
        (BridgeState::Connecting, BridgeEvent::DialFailed) => (
            BridgeState::Closed,
            BridgeAction::Shutdown,
        ),
        (BridgeState::Bridging, BridgeEvent::FromClient(f)) => match f {
            WsFrame::Close => (BridgeState::Closed, BridgeAction::Shutdown),
            other => (BridgeState::Bridging, BridgeAction::SendUpstream(other)),
        },
        (BridgeState::Bridging, BridgeEvent::FromUpstream(f)) => match f {
            WsFrame::Close => (BridgeState::Closed, BridgeAction::Shutdown),
            other => (BridgeState::Bridging, BridgeAction::SendClient(other)),
        },
        (BridgeState::Bridging, BridgeEvent::ClientGone) => (
            BridgeState::Closed,
            BridgeAction::Shutdown,
        ),
        (BridgeState::Bridging, BridgeEvent::UpstreamGone) => (
            BridgeState::Closed,
            BridgeAction::Shutdown,
        ),
        (s, _) => (s, BridgeAction::Ignore),
    }
}

/// Law: while bridging, a non-close frame from either side is relayed to
/// the other side unchanged and the bridge stays up; a close frame or a
/// vanished peer tears the bridge down; and a closed bridge stays closed
/// whatever arrives.
pub proof fn lemma_bridge_relay(e: BridgeEvent)
    ensures
        (e matches BridgeEvent::FromClient(f) && !(f matches WsFrame::Close)) ==> spec_bridge_step(
            BridgeState::Bridging,
            e,
        ) == (BridgeState::Bridging, BridgeAction::SendUpstream(e->FromClient_0)),
        (e matches BridgeEvent::FromUpstream(f) && !(f matches WsFrame::Close))
            ==> spec_bridge_step(BridgeState::Bridging, e) == (
            BridgeState::Bridging,
            BridgeAction::SendClient(e->FromUpstream_0),
        ),
        (e matches BridgeEvent::FromClient(f) && f matches WsFrame::Close) ==> spec_bridge_step(
            BridgeState::Bridging,
            e,
        ) == (BridgeState::Closed, BridgeAction::Shutdown),
        (e matches BridgeEvent::FromUpstream(f) && f matches WsFrame::Close) ==> spec_bridge_step(
            BridgeState::Bridging,
            e,
        ) == (BridgeState::Closed, BridgeAction::Shutdown),
        e == BridgeEvent::ClientGone || e == BridgeEvent::UpstreamGone ==> spec_bridge_step(
            BridgeState::Bridging,
            e,
        ) == (BridgeState::Closed, BridgeAction::Shutdown),
        spec_bridge_step(BridgeState::Closed, e).0 == BridgeState::Closed,
{
}

} // verus!
