//! Every outcome a call against an `avalon-server` can end in, as a
//! protocol-level taxonomy a game can act on without knowing HTTP.

use vstd::prelude::*;
use crate::text::{decimal, owned, push_decimal, push_str};

verus! {

/// Every protocol-level outcome of a request, never a raw transport error
/// or status code.
#[derive(Debug, Clone, PartialEq, Eq)]
pub enum SdkError {
    /// The session token itself was rejected (expired, unknown, malformed).
    Unauthorized,
    /// A capability this session needs is not granted, or the server's own
    /// 403 means something it does not expose more specifically.
    CapabilityNotGranted(String),
    /// A referenced resource does not exist; carries the server's message.
    NotFound(String),
    /// The request conflicts with existing state.
    Conflict(String),
    /// The server made a final decision not to apply the request. Never
    /// retried.
    Rejected {
        /// The server's stable `code` (or, failing that, its `error` text).
        reason: String,
    },
    /// A connection error, timeout, or 5xx, after `retried` retries.
    Unavailable {
        /// How many retry attempts (beyond the first) were made.
        retried: u32,
        /// The last attempt's error text.
        detail: String,
    },
    /// HTTP 429: a server rate limit rejected the request.
    RateLimited {
        /// The server-requested delay in whole seconds, when it sent one
        /// as an integer `Retry-After`.
        retry_after: Option<u64>,
    },
    /// The response did not parse as expected, or the transport failed in
    /// a way that is not connectivity.
    Protocol(String),
    /// The presence websocket handshake or connection failed.
    WebSocket(String),
    /// The server refused a conversation read or send with "not a
    /// participant" — deliberately the same whether the caller never was
    /// one or is a blocked one.
    NotConversationParticipant,
    /// Issuance needs this integrator's slug and signing key, and they were
    /// not configured.
    MissingIssuerCredentials,
    /// A device pairing was explicitly denied.
    DeviceLoginDenied,
    /// A device pairing expired before it was approved.
    DeviceLoginExpired,
    /// A cross-node login was explicitly denied.
    CrossNodeLoginDenied,
    /// A cross-node login expired before it was approved.
    CrossNodeLoginExpired,
}

/// How a whole number of seconds prints as a duration: `0ns` for zero,
/// otherwise the count followed by `s`.
pub open spec fn seconds_text(secs: u64) -> Seq<char> {
    if secs == 0 {
        "0ns"@
    } else {
        decimal(secs as nat) + "s"@
    }
}

/// How an optional delay prints: `None`, or `Some(..)` around it.
pub open spec fn optional_seconds_text(secs: Option<u64>) -> Seq<char> {
    match secs {
        None => "None"@,
        Some(s) => "Some("@ + seconds_text(s) + ")"@,
    }
}

impl SdkError {
    /// The human-readable text of this error.
    pub open spec fn text(&self) -> Seq<char> {
        match self {
            SdkError::Unauthorized => "unauthorized"@,
            SdkError::CapabilityNotGranted(c) => "capability not granted: "@ + c@,
            SdkError::NotFound(m) => "not found: "@ + m@,
            SdkError::Conflict(m) => "conflict: "@ + m@,
            SdkError::Rejected { reason } => "rejected: "@ + reason@,
            SdkError::Unavailable { retried, detail } => "avalon-server unavailable after "@
                + decimal(*retried as nat) + " retries: "@ + detail@,
            SdkError::RateLimited { retry_after } => "rate limited by avalon-server (retry after "@
                + optional_seconds_text(*retry_after) + ")"@,
            SdkError::Protocol(m) => "unexpected response from avalon-server: "@ + m@,
            SdkError::WebSocket(m) => "presence websocket connection failed: "@ + m@,
            SdkError::NotConversationParticipant => "not a participant in this conversation"@,
            SdkError::MissingIssuerCredentials =>
                "this integrator's integrator_slug/signing_key were not configured"@,
            SdkError::DeviceLoginDenied => "device pairing was denied"@,
            SdkError::DeviceLoginExpired => "device pairing expired before it was approved"@,
            SdkError::CrossNodeLoginDenied => "cross-node login was denied"@,
            SdkError::CrossNodeLoginExpired => "cross-node login expired before it was approved"@,
        }
    }

    /// The server-requested retry delay in seconds, for `RateLimited`
    /// responses that carried a numeric `Retry-After`.
    pub fn retry_after(&self) -> (r: Option<u64>)
        ensures
            r == (match self {
                SdkError::RateLimited { retry_after } => *retry_after,
                _ => None,
            }),
    {
        match self {
            SdkError::RateLimited { retry_after } => *retry_after,
            _ => None,
        }
    }

    /// The HTTP status behind this error where the variant pins one down:
    /// `429` for `RateLimited`, `401` for `Unauthorized`.
    pub fn http_status(&self) -> (r: Option<u16>)
        ensures
            r == (match self {
                SdkError::RateLimited { .. } => Some(429u16),
                SdkError::Unauthorized => Some(401u16),
                _ => None,
            }),
    {
        match self {
            SdkError::RateLimited { .. } => Some(429),
            SdkError::Unauthorized => Some(401),
            _ => None,
        }
    }

    /// The human-readable text of this error.
    pub fn message(&self) -> (r: String)
        ensures
            r@ == self.text(),
    {
        match self {
            SdkError::Unauthorized => owned("unauthorized"),
            SdkError::CapabilityNotGranted(c) => prefixed("capability not granted: ", c.as_str()),
            SdkError::NotFound(m) => prefixed("not found: ", m.as_str()),
            SdkError::Conflict(m) => prefixed("conflict: ", m.as_str()),
            SdkError::Rejected { reason } => prefixed("rejected: ", reason.as_str()),
            SdkError::Unavailable { retried, detail } => {
                let mut s = owned("avalon-server unavailable after ");
                push_decimal(&mut s, *retried as u64);
                push_str(&mut s, " retries: ");
                push_str(&mut s, detail.as_str());
                s
            },
            SdkError::RateLimited { retry_after } => {
                let mut s = owned("rate limited by avalon-server (retry after ");
                match retry_after {
                    None => push_str(&mut s, "None"),
                    Some(secs) => {
                        push_str(&mut s, "Some(");
                        if *secs == 0 {
                            push_str(&mut s, "0ns");
                        } else {
                            push_decimal(&mut s, *secs);
                            push_str(&mut s, "s");
                        }
                        push_str(&mut s, ")");
                    },
                }
                push_str(&mut s, ")");
                proof {
                    assert(s@ =~= self.text());
                }
                s
            },
            SdkError::Protocol(m) => prefixed("unexpected response from avalon-server: ", m.as_str()),
            SdkError::WebSocket(m) => prefixed("presence websocket connection failed: ", m.as_str()),
            SdkError::NotConversationParticipant => owned("not a participant in this conversation"),
            SdkError::MissingIssuerCredentials => owned(
                "this integrator's integrator_slug/signing_key were not configured",
            ),
            SdkError::DeviceLoginDenied => owned("device pairing was denied"),
            SdkError::DeviceLoginExpired => owned("device pairing expired before it was approved"),
            SdkError::CrossNodeLoginDenied => owned("cross-node login was denied"),
            SdkError::CrossNodeLoginExpired => owned("cross-node login expired before it was approved"),
        }
    }
}

/// `prefix` followed by `rest`.
fn prefixed(prefix: &str, rest: &str) -> (r: String)
    ensures
        r@ == prefix@ + rest@,
{
    let mut s = owned(prefix);
    push_str(&mut s, rest);
    s
}

} // verus!
