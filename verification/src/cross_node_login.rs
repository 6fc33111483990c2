//! Logging in across nodes and devices: the grant an identity signs to
//! admit itself at another node, and the polling decisions of a login that
//! waits for approval elsewhere. Times are nanoseconds since the Unix epoch.

use vstd::prelude::*;
use crate::crypto::{ed25519_signature, sign};
use crate::error::SdkError;
use crate::text::{hex_encode, hex_text, owned, push_signed_decimal, push_str, signed_decimal, str_eq, utf8_bytes, uuid_string, uuid_text};

verus! {

/// How long a grant stays valid, in seconds.
pub const DEFAULT_TTL_SECONDS: i64 = 60;
/// Poll interval used when the server proposes none, in seconds.
pub const DEFAULT_POLL_INTERVAL_SECONDS: i64 = 5;
/// The longest poll interval a `slow_down` can grow to, in seconds.
pub const MAX_POLL_INTERVAL_SECONDS: i64 = 60;

/// Whole seconds since the epoch of a time in nanoseconds (rounded down,
/// as a date's Unix timestamp is).
pub open spec fn unix_seconds(ns: i128) -> int {
    ns / 1_000_000_000
}

/// `avalon:cross-node-login:v1:<identity>:<key>:<destination>:<context>:<nonce>:<issued>:<expires>`.
pub open spec fn grant_text(
    identity_id: u128,
    signing_key_id: u128,
    destination_base_url: Seq<char>,
    requesting_context: Seq<char>,
    nonce: u128,
    issued_at_ns: i128,
    expires_at_ns: i128,
) -> Seq<char> {
    "avalon:cross-node-login:v1:"@ + uuid_text(identity_id) + ":"@ + uuid_text(signing_key_id) + ":"@
        + destination_base_url + ":"@ + requesting_context + ":"@ + uuid_text(nonce) + ":"@
        + signed_decimal(unix_seconds(issued_at_ns)) + ":"@ + signed_decimal(unix_seconds(expires_at_ns))
}

/// Whole seconds since the epoch, rounded down.
fn seconds_of(ns: i128) -> (r: i64)
    requires
        i64::MIN <= unix_seconds(ns) <= i64::MAX,
    ensures
        r == unix_seconds(ns),
{
    if ns >= 0 {
        let m = ns as u128;
        let q = m / 1_000_000_000;
        proof {
            assert(q == unix_seconds(ns));
        }
        q as i64
    } else {
        let m: u128 = if ns == i128::MIN { 170141183460469231731687303715884105728u128 } else { (-ns) as u128 };
        let up = (m + 999_999_999) / 1_000_000_000;
        proof {
            assert(m == -ns);
            lemma_floor_of_negative(ns as int, m as int, up as int);
        }
        (0 - (up as i128)) as i64
    }
}

/// For negative `ns`, rounding down divides the magnitude rounding up.
proof fn lemma_floor_of_negative(ns: int, m: int, up: int)
    requires
        ns < 0,
        m == -ns,
        up == (m + 999_999_999) / 1_000_000_000,
    ensures
        -up == ns / 1_000_000_000,
{
    let d = 1_000_000_000int;
    let q = ns / d;
    let r = ns % d;
    assert(ns == d * q + r && 0 <= r < d) by {
        vstd::arithmetic::div_mod::lemma_fundamental_div_mod(ns, d);
    }
    let u = (m + d - 1) / d;
    let v = (m + d - 1) % d;
    assert(m + d - 1 == d * u + v && 0 <= v < d) by {
        vstd::arithmetic::div_mod::lemma_fundamental_div_mod(m + d - 1, d);
    }
    assert(u == -q) by (nonlinear_arith)
        requires
            ns == d * q + r,
            0 <= r < d,
            m == -ns,
            m + d - 1 == d * u + v,
            0 <= v < d,
            d == 1_000_000_000,
    {}
}

/// The times a grant can carry: whole seconds of both fit a 64-bit
/// timestamp.
pub open spec fn representable(ns: i128) -> bool {
    i64::MIN <= unix_seconds(ns) <= i64::MAX
}

/// The exact bytes a cross-node login grant signs.
pub fn signing_bytes(
    identity_id: u128,
    signing_key_id: u128,
    destination_base_url: &str,
    requesting_context: &str,
    nonce: u128,
    issued_at_ns: i128,
    expires_at_ns: i128,
) -> (r: Vec<u8>)
    requires
        representable(issued_at_ns),
        representable(expires_at_ns),
    ensures
        r@ == vstd::utf8::encode_utf8(grant_text(identity_id, signing_key_id, destination_base_url@,
            requesting_context@, nonce, issued_at_ns, expires_at_ns)),
{
    let mut s = owned("avalon:cross-node-login:v1:");
    let t = uuid_string(identity_id);
    push_str(&mut s, t.as_str());
    push_str(&mut s, ":");
    let t = uuid_string(signing_key_id);
    push_str(&mut s, t.as_str());
    push_str(&mut s, ":");
    push_str(&mut s, destination_base_url);
    push_str(&mut s, ":");
    push_str(&mut s, requesting_context);
    push_str(&mut s, ":");
    let t = uuid_string(nonce);
    push_str(&mut s, t.as_str());
    push_str(&mut s, ":");
    push_signed_decimal(&mut s, seconds_of(issued_at_ns));
    push_str(&mut s, ":");
    push_signed_decimal(&mut s, seconds_of(expires_at_ns));
    utf8_bytes(s.as_str())
}

/// A signed statement by an identity that it admits itself at the node
/// `destination_base_url`, valid from `issued_at_ns` to `expires_at_ns`.
#[derive(Debug, Clone, PartialEq, Eq)]
pub struct CrossNodeLoginGrant {
    /// The identity granting the login.
    pub identity_id: u128,
    /// The identity's signing key that signed.
    pub signing_key_id: u128,
    /// The node the grant is for.
    pub destination_base_url: String,
    /// Who asked for the login.
    pub requesting_context: String,
    /// A fresh random value, so no two grants are alike.
    pub nonce: u128,
    /// When the grant was issued.
    pub issued_at_ns: i128,
    /// When the grant stops being valid.
    pub expires_at_ns: i128,
    /// Lowercase hex Ed25519 signature over the grant's signing bytes.
    pub signature: String,
}

impl CrossNodeLoginGrant {
    /// The exact bytes this grant's signature covers.
    pub fn signing_bytes(&self) -> (r: Vec<u8>)
        requires
            representable(self.issued_at_ns),
            representable(self.expires_at_ns),
        ensures
            r@ == vstd::utf8::encode_utf8(grant_text(self.identity_id, self.signing_key_id,
                self.destination_base_url@, self.requesting_context@, self.nonce, self.issued_at_ns,
                self.expires_at_ns)),
    {
        signing_bytes(
            self.identity_id,
            self.signing_key_id,
            self.destination_base_url.as_str(),
            self.requesting_context.as_str(),
            self.nonce,
            self.issued_at_ns,
            self.expires_at_ns,
        )
    }
}

/// A grant for the node at `server_url`, issued at `issued_at_ns` with the
/// given nonce: it expires one TTL later, names the node as both
/// destination and requesting context, and carries the hex signature of
/// its signing bytes under `seed`.
pub fn issue_grant(
    identity_id: u128,
    signing_key_id: u128,
    seed: &[u8; 32],
    server_url: &str,
    nonce: u128,
    issued_at_ns: i128,
) -> (g: CrossNodeLoginGrant)
    requires
        -1_000_000_000_000_000_000_000_000_000 <= issued_at_ns <= 1_000_000_000_000_000_000_000_000_000,
    ensures
        g.identity_id == identity_id,
        g.signing_key_id == signing_key_id,
        g.destination_base_url@ == server_url@,
        g.requesting_context@ == server_url@,
        g.nonce == nonce,
        g.issued_at_ns == issued_at_ns,
        g.expires_at_ns == issued_at_ns + DEFAULT_TTL_SECONDS * 1_000_000_000,
        g.signature@ == hex_text(ed25519_signature(seed@, vstd::utf8::encode_utf8(grant_text(
            identity_id, signing_key_id, server_url@, server_url@, nonce, issued_at_ns, g.expires_at_ns)))),
{
    let expires_at_ns = issued_at_ns + 60_000_000_000;
    let bytes = signing_bytes(identity_id, signing_key_id, server_url, server_url, nonce, issued_at_ns, expires_at_ns);
    let signature = sign(seed, bytes.as_slice());
    CrossNodeLoginGrant {
        identity_id,
        signing_key_id,
        destination_base_url: owned(server_url),
        requesting_context: owned(server_url),
        nonce,
        issued_at_ns,
        expires_at_ns,
        signature: hex_encode(&signature),
    }
}

/// The poll interval a waiting login starts from: the server's proposal
/// when positive, otherwise the default.
pub fn initial_poll_interval(proposed: i64) -> (r: i64)
    ensures
        r == (if proposed > 0 { proposed } else { DEFAULT_POLL_INTERVAL_SECONDS }),
{
    if proposed > 0 { proposed } else { DEFAULT_POLL_INTERVAL_SECONDS }
}

/// What a waiting login does after a poll.
#[derive(Debug, Clone, PartialEq, Eq)]
pub enum PollStep {
    /// Poll again after this many seconds.
    Wait(i64),
    /// Approved: finish the login with this token.
    Approved(String),
    /// The login ended without a session.
    Failed(SdkError),
}

/// Which kind of login is waiting: the errors its refusals are reported as
/// differ.
#[derive(Debug, Clone, Copy, PartialEq, Eq, Structural)]
pub enum LoginKind {
    /// A cross-node login.
    CrossNode,
    /// A cross-device pairing.
    Device,
}

/// The decision after a poll answered `status`: `pending` waits the same
/// interval, `slow_down` doubles it up to a minute, `denied` and any
/// other status end the login, `approved` finishes it with the token (a
/// missing token is a protocol error).
pub open spec fn poll_decision(kind: LoginKind, interval: i64, status: Seq<char>, token: Option<String>, r: PollStep) -> bool {
    if status == "pending"@ {
        r == PollStep::Wait(interval)
    } else if status == "slow_down"@ {
        r == PollStep::Wait(if 2 * interval < MAX_POLL_INTERVAL_SECONDS { (2 * interval) as i64 } else { MAX_POLL_INTERVAL_SECONDS })
    } else if status == "denied"@ {
        r == PollStep::Failed(if kind == LoginKind::CrossNode { SdkError::CrossNodeLoginDenied } else { SdkError::DeviceLoginDenied })
    } else if status == "approved"@ {
        match token {
            Some(t) => r matches PollStep::Approved(a) && a@ == t@,
            None => r matches PollStep::Failed(SdkError::Protocol(m)) && m@ == "approved poll response was missing a token"@,
        }
    } else {
        r == PollStep::Failed(if kind == LoginKind::CrossNode { SdkError::CrossNodeLoginExpired } else { SdkError::DeviceLoginExpired })
    }
}

/// Decides what a waiting login does after a poll; `interval` is the
/// current interval in seconds (at least one).
pub fn poll_step(kind: LoginKind, interval: i64, status: &str, token: Option<String>) -> (r: PollStep)
    requires
        interval >= 1,
    ensures
        poll_decision(kind, interval, status@, token, r),
{
    if str_eq(status, "pending") {
        PollStep::Wait(interval)
    } else if str_eq(status, "slow_down") {
        let capped = if interval > 30 { 30 } else { interval };
        PollStep::Wait(capped * 2)
    } else if str_eq(status, "denied") {
        match kind {
            LoginKind::CrossNode => PollStep::Failed(SdkError::CrossNodeLoginDenied),
            LoginKind::Device => PollStep::Failed(SdkError::DeviceLoginDenied),
        }
    } else if str_eq(status, "approved") {
        match token {
            Some(t) => PollStep::Approved(t),
            None => PollStep::Failed(SdkError::Protocol(owned("approved poll response was missing a token"))),
        }
    } else {
        match kind {
            LoginKind::CrossNode => PollStep::Failed(SdkError::CrossNodeLoginExpired),
            LoginKind::Device => PollStep::Failed(SdkError::DeviceLoginExpired),
        }
    }
}

/// The interval a login starts waiting with: at least one second.
pub fn first_wait(poll_interval: i64) -> (r: i64)
    ensures
        r == (if poll_interval < 1 { 1 } else { poll_interval }),
{
    if poll_interval < 1 { 1 } else { poll_interval }
}

/// A waiting login's poll interval stays between one second and a minute:
/// it starts at least at one second and `slow_down` never takes it past
/// sixty.
pub proof fn lemma_poll_interval_stays_bounded(kind: LoginKind, interval: i64, status: Seq<char>, token: Option<String>, r: PollStep)
    requires
        1 <= interval <= MAX_POLL_INTERVAL_SECONDS,
        poll_decision(kind, interval, status, token, r),
    ensures
        r matches PollStep::Wait(next) ==> interval <= next <= MAX_POLL_INTERVAL_SECONDS,
{
}

/// What the approving side sees of a pending cross-node login.
#[derive(Debug, Clone, PartialEq, Eq)]
pub struct CrossNodeLoginLookup {
    /// `pending`, `approved`, `denied` or `expired`.
    pub status: String,
    /// Who asked for the login.
    pub requesting_context: String,
    /// Seconds until the request expires.
    pub expires_in: i64,
    /// Whether the requesting integrator is verified.
    pub integrator_verified: bool,
    /// The requesting integrator's display name, if known.
    pub display_name: Option<String>,
}

/// The answer to denying a cross-node login.
#[derive(Debug, Clone, PartialEq, Eq)]
pub struct CrossNodeLoginDenial {
    /// The request's status afterwards.
    pub status: String,
}

} // verus!
