use vstd::prelude::*;
use crate::text::{contains_ci, str_contains_ci};

verus! {

/// JSON envelope used for every failure response: `{"error": <message>}`.
pub struct ErrorMessage {
    pub error: String,
}

impl ErrorMessage {
    pub fn new(error: &str) -> (r: Self)
        ensures
            r.error@ == error@,
    {
        Self { error: error.to_owned() }
    }
}

/// What one upstream call ended in, as the gateway's logic reads it:
/// a structured API error carrying the upstream's own status code and
/// message, or a transport/parsing failure with no structure to read.
pub enum UpstreamFailure {
    Structured { status: u16, message: String },
    Transport,
}

/// The gateway's failure vocabulary, each variant carrying the message
/// that the response envelope will show.
pub enum GatewayError {
    /// The upstream reported a missing resource.
    NotFound { message: String },
    /// The upstream reported quota exhaustion.
    RateLimited { message: String },
    /// Any other structured upstream error, passed through with the
    /// upstream's own status code and message.
    Upstream { status: u16, message: String },
    /// A transport or parsing failure; only a generic message is shown.
    Internal { message: String },
}

/// The upstream message reports a missing resource.
pub open spec fn indicates_not_found(msg: Seq<char>) -> bool {
    contains_ci(msg, "not found"@)
}

/// The upstream message reports quota exhaustion.
pub open spec fn indicates_rate_limited(msg: Seq<char>) -> bool {
    contains_ci(msg, "rate limit"@) || contains_ci(msg, "abuse detection"@)
}

/// The translation policy, checked in order, first match wins: missing
/// resource, quota exhaustion, other structured error (passed through),
/// transport failure (generic).
pub open spec fn translated(f: UpstreamFailure, r: GatewayError) -> bool {
    match f {
        UpstreamFailure::Structured { status, message } => {
            if indicates_not_found(message@) {
                &&& r matches GatewayError::NotFound { message: m }
                &&& m@ == message@
            } else if indicates_rate_limited(message@) {
                &&& r matches GatewayError::RateLimited { message: m }
                &&& m@ == message@
            } else {
                &&& r matches GatewayError::Upstream { status: s, message: m }
                &&& s == status
                &&& m@ == message@
            }
        },
        UpstreamFailure::Transport => {
            &&& r matches GatewayError::Internal { message: m }
            &&& m@ == "Internal server error"@
        },
    }
}

/// The status code a failure is answered with: 404 for a missing
/// resource, 429 for quota exhaustion, the upstream's own code for any
/// other structured error, 500 for a transport failure.
pub open spec fn failure_status(f: UpstreamFailure) -> u16 {
    match f {
        UpstreamFailure::Structured { status, message } => {
            if indicates_not_found(message@) {
                404
            } else if indicates_rate_limited(message@) {
                429
            } else {
                status
            }
        },
        UpstreamFailure::Transport => 500,
    }
}

/// The message a failure is answered with: the upstream's own message
/// for a structured error, a generic one for a transport failure.
pub open spec fn failure_message(f: UpstreamFailure) -> Seq<char> {
    match f {
        UpstreamFailure::Structured { message, .. } => message@,
        UpstreamFailure::Transport => "Internal server error"@,
    }
}

/// Maps an upstream failure into the gateway's vocabulary, per the
/// ordered policy of `translated`.
pub fn translate(f: UpstreamFailure) -> (r: GatewayError)
    ensures
        translated(f, r),
{
    match f {
        UpstreamFailure::Structured { status, message } => {
            if str_contains_ci(message.as_str(), "not found") {
                GatewayError::NotFound { message }
            } else if str_contains_ci(message.as_str(), "rate limit") || str_contains_ci(
                message.as_str(),
                "abuse detection",
            ) {
                GatewayError::RateLimited { message }
            } else {
                GatewayError::Upstream { status, message }
            }
        },
        UpstreamFailure::Transport => {
            GatewayError::Internal { message: "Internal server error".to_owned() }
        },
    }
}

/// The status code of a translated error.
pub open spec fn spec_status(e: GatewayError) -> u16 {
    match e {
        GatewayError::NotFound { .. } => 404,
        GatewayError::RateLimited { .. } => 429,
        GatewayError::Upstream { status, .. } => status,
        GatewayError::Internal { .. } => 500,
    }
}

/// The message of a translated error.
pub open spec fn spec_message(e: GatewayError) -> Seq<char> {
    match e {
        GatewayError::NotFound { message } => message@,
        GatewayError::RateLimited { message } => message@,
        GatewayError::Upstream { message, .. } => message@,
        GatewayError::Internal { message } => message@,
    }
}

impl GatewayError {
    /// The HTTP status code this error is answered with.
    pub fn status_code(&self) -> (s: u16)
        ensures
            s == spec_status(*self),
    {
        match self {
            GatewayError::NotFound { .. } => 404,
            GatewayError::RateLimited { .. } => 429,
            GatewayError::Upstream { status, .. } => *status,
            GatewayError::Internal { .. } => 500,
        }
    }

    /// The message shown in the response envelope.
    pub fn message(&self) -> (m: &str)
        ensures
            m@ == spec_message(*self),
    {
        match self {
            GatewayError::NotFound { message } => message.as_str(),
            GatewayError::RateLimited { message } => message.as_str(),
            GatewayError::Upstream { message, .. } => message.as_str(),
            GatewayError::Internal { message } => message.as_str(),
        }
    }
}

/// Translation is faithful: whatever error the policy produces answers
/// with exactly the status and message that the failure itself determines.
pub proof fn lemma_translated_status_message(f: UpstreamFailure, e: GatewayError)
    requires
        translated(f, e),
    ensures
        spec_status(e) == failure_status(f),
        spec_message(e) == failure_message(f),
{
}

} // verus!
