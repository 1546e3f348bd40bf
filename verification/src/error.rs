//! The gateway's error taxonomy and its client-facing rendering: a status
//! code, a canonical status text and a message for every error kind, plus
//! the structured body attached to error responses.

use vstd::prelude::*;
use crate::strutil::str_concat;

verus! {

/// Everything that can go wrong while routing or forwarding a request.
#[derive(Debug)]
pub enum GatewayError {
    /// No route's prefix matched the request path.
    RouteNotFound(String),
    /// The upstream could not be reached (connection refused, DNS failure).
    UpstreamUnavailable(String),
    /// The upstream answered with an error status; relayed verbatim.
    UpstreamError { status: u16, body: String },
    /// The per-route deadline elapsed before the upstream answered.
    Timeout,
    /// The token bucket for the request's key was empty.
    RateLimited,
    /// The configuration could not be loaded, parsed, or used.
    Config(String),
    /// A WebSocket upgrade or bridge failure.
    WebSocket(String),
    /// An otherwise unclassified fault.
    Internal(String),
}

/// The HTTP status code each error kind is reported with.
pub open spec fn spec_status_code(e: GatewayError) -> u16 {
    match e {
        GatewayError::RouteNotFound(_) => 404,
        GatewayError::UpstreamUnavailable(_) => 502,
        GatewayError::UpstreamError { status, .. } => status,
        GatewayError::Timeout => 504,
        GatewayError::RateLimited => 429,
        GatewayError::Config(_) => 500,
        GatewayError::WebSocket(_) => 400,
        GatewayError::Internal(_) => 500,
    }
}

/// The human-readable message each error kind carries.
pub open spec fn spec_message(e: GatewayError) -> Seq<char> {
    match e {
        GatewayError::RouteNotFound(path) => "No route matched for path: "@ + path@,
        GatewayError::UpstreamUnavailable(detail) => "Upstream service unavailable: "@ + detail@,
        GatewayError::UpstreamError { status: _, body } => "Upstream error: "@ + body@,
        GatewayError::Timeout => "Request to upstream timed out"@,
        GatewayError::RateLimited => "Rate limit exceeded - try again later"@,
        GatewayError::Config(detail) => "Configuration error: "@ + detail@,
        GatewayError::WebSocket(detail) => "WebSocket error: "@ + detail@,
        GatewayError::Internal(detail) => "Internal error: "@ + detail@,
    }
}

/// Canonical reason phrase for the status codes the gateway emits.
pub open spec fn spec_status_text(code: u16) -> Seq<char> {
    if code == 400 {
        "Bad Request"@
    } else if code == 401 {
        "Unauthorized"@
    } else if code == 403 {
        "Forbidden"@
    } else if code == 404 {
        "Not Found"@
    } else if code == 408 {
        "Request Timeout"@
    } else if code == 429 {
        "Too Many Requests"@
    } else if code == 500 {
        "Internal Server Error"@
    } else if code == 502 {
        "Bad Gateway"@
    } else if code == 503 {
        "Service Unavailable"@
    } else if code == 504 {
        "Gateway Timeout"@
    } else {
        "Unknown"@
    }
}

impl GatewayError {
    /// The HTTP status code this error is reported with.
    pub fn status_code(&self) -> (r: u16)
        ensures
            r == spec_status_code(*self),
    {
        match self {
            GatewayError::RouteNotFound(_) => 404,
            GatewayError::UpstreamUnavailable(_) => 502,
            GatewayError::UpstreamError { status, .. } => *status,
            GatewayError::Timeout => 504,
            GatewayError::RateLimited => 429,
            GatewayError::Config(_) => 500,
            GatewayError::WebSocket(_) => 400,
            GatewayError::Internal(_) => 500,
        }
    }

    /// The message shown to the client for this error.
    pub fn message(&self) -> (r: String)
        ensures
            r@ == spec_message(*self),
    {
        match self {
            GatewayError::RouteNotFound(path) => str_concat(
                "No route matched for path: ",
                path.as_str(),
            ),
            GatewayError::UpstreamUnavailable(detail) => str_concat(
                "Upstream service unavailable: ",
                detail.as_str(),
            ),
            GatewayError::UpstreamError { status: _, body } => str_concat(
                "Upstream error: ",
                body.as_str(),
            ),
            GatewayError::Timeout => "Request to upstream timed out".to_owned(),
            GatewayError::RateLimited => "Rate limit exceeded - try again later".to_owned(),
            GatewayError::Config(detail) => str_concat("Configuration error: ", detail.as_str()),
            GatewayError::WebSocket(detail) => str_concat("WebSocket error: ", detail.as_str()),
            GatewayError::Internal(detail) => str_concat("Internal error: ", detail.as_str()),
        }
    }
}

/// Canonical reason phrase for the status codes the gateway emits;
/// `"Unknown"` for any other code.
pub fn status_text(code: u16) -> (r: String)
    ensures
        r@ == spec_status_text(code),
{
    match code {
        400 => "Bad Request".to_owned(),
        401 => "Unauthorized".to_owned(),
        403 => "Forbidden".to_owned(),
        404 => "Not Found".to_owned(),
        408 => "Request Timeout".to_owned(),
        429 => "Too Many Requests".to_owned(),
        500 => "Internal Server Error".to_owned(),
        502 => "Bad Gateway".to_owned(),
        503 => "Service Unavailable".to_owned(),
        504 => "Gateway Timeout".to_owned(),
        _ => "Unknown".to_owned(),
    }
}

/// Classify a failed upstream call: an elapsed deadline is a timeout,
/// anything else means the upstream could not be reached.
pub fn from_upstream_failure(is_timeout: bool, detail: String) -> (r: GatewayError)
    ensures
        is_timeout ==> r == GatewayError::Timeout,
        !is_timeout ==> r == GatewayError::UpstreamUnavailable(detail),
{
    if is_timeout {
        GatewayError::Timeout
    } else {
        GatewayError::UpstreamUnavailable(detail)
    }
}

/// The machine-readable body carried by every error response.
#[derive(Debug)]
pub struct ErrorBody {
    pub code: u16,
    pub status: String,
    pub message: String,
    pub request_id: Option<String>,
}

/// The envelope around [`ErrorBody`].
#[derive(Debug)]
pub struct ErrorResponse {
    pub error: ErrorBody,
}

impl ErrorResponse {
    /// Build the structured body for an error, without a request id.
    pub fn from_error(e: &GatewayError) -> (r: ErrorResponse)
        ensures
            r.error.code == spec_status_code(*e),
            r.error.status@ == spec_status_text(spec_status_code(*e)),
            r.error.message@ == spec_message(*e),
            r.error.request_id is None,
    {
        let code = e.status_code();
        ErrorResponse {
            error: ErrorBody {
                code,
                status: status_text(code),
                message: e.message(),
                request_id: None,
            },
        }
    }

    /// The same response with the request id attached.
    pub fn with_request_id(self, id: String) -> (r: Self)
        ensures
            r.error.request_id == Some(id),
            r.error.code == self.error.code,
            r.error.status == self.error.status,
            r.error.message == self.error.message,
    {
        ErrorResponse {
            error: ErrorBody {
                code: self.error.code,
                status: self.error.status,
                message: self.error.message,
                request_id: Some(id),
            },
        }
    }

    /// The message text, as the response would display it.
    pub fn message_text(&self) -> (r: String)
        ensures
            r@ == self.error.message@,
    {
        self.error.message.clone()
    }
}

} // verus!
