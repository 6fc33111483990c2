//! Bounded breadth-first walk of the overlay, assembled from each node's
//! own topology view. This module holds the walk's state and every
//! decision it makes: which nodes exist, at what depth, who reported whom,
//! which limits cut the walk short, and when a rate-limited node is
//! retried. Fetching a node's view is left to the caller.

use vstd::prelude::*;
use crate::text::{owned, push_decimal, push_str, str_eq, texts};

verus! {

/// Hard ceiling on the number of nodes kept.
pub const CEILING_MAX_NODES: usize = 1_000;
/// Hard ceiling on the depth queried.
pub const CEILING_MAX_DEPTH: u32 = 16;
/// Hard ceiling on simultaneous requests.
pub const CEILING_CONCURRENCY: usize = 32;
/// Hard ceiling on any wait, in milliseconds.
pub const CEILING_DURATION_MS: u64 = 120_000;
/// Wait applied to a 429 that carries no usable `Retry-After`, in
/// milliseconds.
pub const FALLBACK_RETRY_AFTER_MS: u64 = 1_000;

/// How a reporting node relates to the node it names.
#[derive(Debug, Clone, Copy, PartialEq, Eq, Structural)]
pub enum WalkEdgeKind {
    /// An active link (neighbor).
    Active,
    /// The reporter mirrors a shard from the target.
    Mirror,
    /// The reporter only knows the target from its peer table.
    Known,
}

/// Why a node could not be read.
#[derive(Debug, Clone, Copy, PartialEq, Eq, Structural)]
pub enum WalkFailureReason {
    /// No response within the request timeout.
    Timeout,
    /// A non-success status other than 429.
    HttpStatus,
    /// 429, and no retry was possible within the wait budget or the retry
    /// also got 429.
    RateLimited,
    /// A success response whose body is not a topology view.
    ProtocolError,
    /// Connection-level failure.
    Network,
}

/// Whether a node was read.
#[derive(Debug, Clone, Copy, PartialEq, Eq, Structural)]
pub enum WalkNodeStatus {
    /// Its topology view was read.
    Visited,
    /// Every attempt failed; see the node's `failure`.
    Unreachable,
    /// Discovered but not queried: a limit was reached or the walk was
    /// cancelled.
    Unvisited,
}

/// A node that could not be read, and why.
#[derive(Debug, Clone, PartialEq, Eq)]
pub struct WalkFailure {
    /// Failure class.
    pub reason: WalkFailureReason,
    /// HTTP status for `HttpStatus` and `RateLimited`.
    pub status: Option<u16>,
    /// `Retry-After` the node sent, for `RateLimited`.
    pub retry_after_seconds: Option<u64>,
    /// Human-readable detail.
    pub message: String,
}

/// A failure of class `reason` with only a message.
pub fn failure(reason: WalkFailureReason, message: String) -> (f: WalkFailure)
    ensures
        f.reason == reason,
        f.status is None,
        f.retry_after_seconds is None,
        f.message == message,
{
    WalkFailure { reason, status: None, retry_after_seconds: None, message }
}

/// The failure a non-success status answers with: 429 is `RateLimited`
/// carrying the node's `Retry-After`, anything else `HttpStatus` carrying
/// the status line.
pub fn status_failure(status: u16, retry_after_seconds: Option<u64>) -> (f: WalkFailure)
    requires
        100 <= status <= 999,
    ensures
        status == 429 ==> f == (WalkFailure {
            reason: WalkFailureReason::RateLimited,
            status: Some(429u16),
            retry_after_seconds,
            message: f.message,
        }) && f.message@ == "rate limited"@,
        status != 429 ==> f.reason == WalkFailureReason::HttpStatus && f.status == Some(status)
            && f.retry_after_seconds is None && f.message@ == crate::http::http_status_line(status),
{
    if status == 429 {
        WalkFailure {
            reason: WalkFailureReason::RateLimited,
            status: Some(429),
            retry_after_seconds,
            message: owned("rate limited"),
        }
    } else {
        WalkFailure {
            reason: WalkFailureReason::HttpStatus,
            status: Some(status),
            retry_after_seconds: None,
            message: crate::http::status_line(status),
        }
    }
}

/// The failure of a node that did not answer within `timeout_ms`.
pub fn timeout_failure(timeout_ms: u64) -> (f: WalkFailure)
    ensures
        f.reason == WalkFailureReason::Timeout,
        f.status is None,
        f.retry_after_seconds is None,
        f.message@ == "no response within "@ + crate::text::decimal(timeout_ms as nat) + " ms"@,
{
    let mut m = owned("no response within ");
    push_decimal(&mut m, timeout_ms);
    push_str(&mut m, " ms");
    failure(WalkFailureReason::Timeout, m)
}

/// Limits and hooks of a walk. Every limit has a default and a hard
/// ceiling. Durations are in milliseconds.
#[derive(Debug, Clone, Copy, PartialEq, Eq, Structural)]
pub struct WalkOptions {
    /// Most distinct nodes kept in the graph (default 64, ceiling 1000).
    pub max_nodes: usize,
    /// Deepest hop count queried; seeds are depth 0 (default 4, ceiling 16).
    pub max_depth: u32,
    /// Simultaneous requests (default 4, ceiling 32).
    pub concurrency: usize,
    /// Timeout of each request (default 10 s).
    pub request_timeout_ms: u64,
    /// Longest `Retry-After` honored before one retry; a longer one is
    /// recorded as `RateLimited` (default 10 s).
    pub max_retry_after_ms: u64,
}

impl Default for WalkOptions {
    fn default() -> (o: WalkOptions)
        ensures
            o == (WalkOptions {
                max_nodes: 64,
                max_depth: 4,
                concurrency: 4,
                request_timeout_ms: 10_000,
                max_retry_after_ms: 10_000,
            }),
    {
        WalkOptions {
            max_nodes: 64,
            max_depth: 4,
            concurrency: 4,
            request_timeout_ms: 10_000,
            max_retry_after_ms: 10_000,
        }
    }
}

/// The limits a walk actually runs with: the options clamped to their
/// ceilings.
#[derive(Debug, Clone, Copy, PartialEq, Eq, Structural)]
pub struct Limits {
    /// Most distinct nodes kept, in `1..=1000`.
    pub max_nodes: usize,
    /// Deepest hop count queried, at most 16.
    pub max_depth: u32,
    /// Simultaneous requests, in `1..=32`.
    pub concurrency: usize,
    /// Timeout of each request, in `1..=120000` ms.
    pub request_timeout_ms: u64,
    /// Longest `Retry-After` honored, at most 120000 ms.
    pub max_retry_after_ms: u64,
}

/// `v` clamped into `lo..=hi`.
pub open spec fn clamped(v: int, lo: int, hi: int) -> int {
    if v < lo { lo } else if v > hi { hi } else { v }
}

impl Limits {
    /// The options clamped to the walk's ceilings.
    pub fn from_options(o: &WalkOptions) -> (l: Limits)
        ensures
            l.max_nodes == clamped(o.max_nodes as int, 1, CEILING_MAX_NODES as int),
            l.max_depth == clamped(o.max_depth as int, 0, CEILING_MAX_DEPTH as int),
            l.concurrency == clamped(o.concurrency as int, 1, CEILING_CONCURRENCY as int),
            l.request_timeout_ms == clamped(o.request_timeout_ms as int, 1, CEILING_DURATION_MS as int),
            l.max_retry_after_ms == clamped(o.max_retry_after_ms as int, 0, CEILING_DURATION_MS as int),
    {
        Limits {
            max_nodes: if o.max_nodes < 1 { 1 } else if o.max_nodes > CEILING_MAX_NODES { CEILING_MAX_NODES } else { o.max_nodes },
            max_depth: if o.max_depth > CEILING_MAX_DEPTH { CEILING_MAX_DEPTH } else { o.max_depth },
            concurrency: if o.concurrency < 1 { 1 } else if o.concurrency > CEILING_CONCURRENCY { CEILING_CONCURRENCY } else { o.concurrency },
            request_timeout_ms: if o.request_timeout_ms < 1 { 1 } else if o.request_timeout_ms > CEILING_DURATION_MS { CEILING_DURATION_MS } else { o.request_timeout_ms },
            max_retry_after_ms: if o.max_retry_after_ms > CEILING_DURATION_MS { CEILING_DURATION_MS } else { o.max_retry_after_ms },
        }
    }
}

/// What to do after one fetch of a node's topology.
#[derive(Debug, Clone, PartialEq, Eq)]
pub enum VisitStep {
    /// The view was read.
    Reached,
    /// Wait this many milliseconds, then fetch once more.
    RetryAfter(u64),
    /// The node is unreachable for this reason.
    Failed(WalkFailure),
}

/// The wait a rate-limited answer asks for, in milliseconds.
pub open spec fn requested_wait_ms(f: WalkFailure) -> int {
    match f.retry_after_seconds {
        Some(s) => s * 1000,
        None => FALLBACK_RETRY_AFTER_MS as int,
    }
}

/// The decision after one fetch: a first 429 is retried once after its
/// `Retry-After` (one second when it sent none) if that wait is within
/// `max_retry_after_ms`; every other failure is final.
pub open spec fn visit_decision(result: Result<(), WalkFailure>, retried: bool, max_retry_after_ms: u64) -> VisitStep {
    match result {
        Ok(_) => VisitStep::Reached,
        Err(f) => if f.reason == WalkFailureReason::RateLimited && !retried {
            if requested_wait_ms(f) > max_retry_after_ms {
                VisitStep::Failed(f)
            } else {
                VisitStep::RetryAfter(requested_wait_ms(f) as u64)
            }
        } else {
            VisitStep::Failed(f)
        },
    }
}

/// Decides what follows one fetch of a node's topology.
pub fn visit_step(result: Result<(), WalkFailure>, retried: bool, max_retry_after_ms: u64) -> (r: VisitStep)
    ensures
        r == visit_decision(result, retried, max_retry_after_ms),
{
    match result {
        Ok(_) => VisitStep::Reached,
        Err(f) => {
            let rate_limited = match f.reason {
                WalkFailureReason::RateLimited => true,
                _ => false,
            };
            if rate_limited && !retried {
                let wait: u128 = match f.retry_after_seconds {
                    Some(s) => s as u128 * 1000,
                    None => FALLBACK_RETRY_AFTER_MS as u128,
                };
                if wait > max_retry_after_ms as u128 {
                    VisitStep::Failed(f)
                } else {
                    VisitStep::RetryAfter(wait as u64)
                }
            } else {
                VisitStep::Failed(f)
            }
        },
    }
}

/// Whether `c` has Unicode's `White_Space` property (what
/// `char::is_whitespace` tests).
pub open spec fn is_white_space(c: char) -> bool {
    let n = c as u32;
    ||| 0x09 <= n <= 0x0D
    ||| n == 0x20
    ||| n == 0x85
    ||| n == 0xA0
    ||| n == 0x1680
    ||| 0x2000 <= n <= 0x200A
    ||| n == 0x2028
    ||| n == 0x2029
    ||| n == 0x202F
    ||| n == 0x205F
    ||| n == 0x3000
}

/// A text without its leading whitespace.
pub open spec fn trimmed_front(s: Seq<char>) -> Seq<char>
    decreases s.len(),
{
    if s.len() > 0 && is_white_space(s[0]) {
        trimmed_front(s.drop_first())
    } else {
        s
    }
}

/// A text without its trailing whitespace.
pub open spec fn trimmed_back(s: Seq<char>) -> Seq<char>
    decreases s.len(),
{
    if s.len() > 0 && is_white_space(s.last()) {
        trimmed_back(s.drop_last())
    } else {
        s
    }
}

/// A text without leading and trailing whitespace.
pub open spec fn trimmed(s: Seq<char>) -> Seq<char> {
    trimmed_back(trimmed_front(s))
}

/// `str::trim`: the text without leading and trailing characters of
/// Unicode's `White_Space` property, as its documentation defines it.
#[verifier::external_body]
fn trim(s: &str) -> (r: &str)
    ensures
        r@ == trimmed(s@),
{
    s.trim()
}

/// What `url::Url::parse` makes of a text, as the parsed URL's scheme, its
/// ASCII-serialized origin and its path; `None` when it does not parse.
pub uninterp spec fn url_parts(s: Seq<char>) -> Option<(Seq<char>, Seq<char>, Seq<char>)>;

/// Parses a URL with the `url` crate and reads back its scheme, the ASCII
/// serialization of its origin (lowercased scheme and host, default port
/// dropped) and its path. The WHATWG parsing rules are the crate's own and
/// are only named here.
#[verifier::external_body]
fn parse_url(s: &str) -> (r: Option<(String, String, String)>)
    ensures
        match r {
            Some((scheme, origin, path)) => url_parts(s@) == Some((scheme@, origin@, path@)),
            None => url_parts(s@) is None,
        },
{
    match url::Url::parse(s) {
        Ok(u) => Some((u.scheme().to_string(), u.origin().ascii_serialization(), u.path().to_string())),
        Err(_) => None,
    }
}

/// A text with every trailing `/` removed.
pub open spec fn without_trailing_slashes(s: Seq<char>) -> Seq<char>
    decreases s.len(),
{
    if s.len() > 0 && s.last() == '/' {
        without_trailing_slashes(s.drop_last())
    } else {
        s
    }
}

/// What a parsed URL makes a node's identity: the origin and the path
/// without trailing slashes, for an http(s) URL only.
pub open spec fn normalized_from(parts: Option<(Seq<char>, Seq<char>, Seq<char>)>) -> Option<Seq<char>> {
    match parts {
        Some((scheme, origin, path)) => if scheme == "http"@ || scheme == "https"@ {
            Some(origin + without_trailing_slashes(path))
        } else {
            None
        },
        None => None,
    }
}

/// The identity of a node in the graph: its URL with the scheme and host
/// lowercased, the default port dropped and no trailing slash; `None` when
/// it is not an http(s) URL.
pub open spec fn normalized_url(raw: Seq<char>) -> Option<Seq<char>> {
    normalized_from(url_parts(trimmed(raw)))
}

/// The view of parsed URL parts.
pub open spec fn parts_view(parts: Option<(String, String, String)>) -> Option<(Seq<char>, Seq<char>, Seq<char>)> {
    match parts {
        Some((scheme, origin, path)) => Some((scheme@, origin@, path@)),
        None => None,
    }
}

/// A node's identity from the parts of its parsed URL (scheme, ASCII
/// origin, path): the origin followed by the path without trailing
/// slashes, when the scheme is http or https.
pub fn node_url_from_parts(parts: Option<(String, String, String)>) -> (r: Option<String>)
    ensures
        match r {
            Some(u) => normalized_from(parts_view(parts)) == Some(u@),
            None => normalized_from(parts_view(parts)) is None,
        },
{
    match parts {
        None => None,
        Some((scheme, origin, path)) => {
            if str_eq(scheme.as_str(), "http") || str_eq(scheme.as_str(), "https") {
                let chars = crate::text::chars_of(path.as_str());
                let mut end: usize = chars.len();
                proof {
                    assert(chars@.subrange(0, chars@.len() as int) =~= chars@);
                }
                while end > 0 && chars[end - 1] == '/'
                    invariant
                        chars@ == path@,
                        end <= chars@.len(),
                        without_trailing_slashes(path@) == without_trailing_slashes(chars@.subrange(0, end as int)),
                    decreases end,
                {
                    proof {
                        let sub = chars@.subrange(0, end as int);
                        assert(sub.drop_last() =~= chars@.subrange(0, end - 1));
                    }
                    end = end - 1;
                }
                let mut out = origin;
                crate::text::push_chars(&mut out, vstd::slice::slice_subrange(chars.as_slice(), 0, end));
                Some(out)
            } else {
                None
            }
        },
    }
}

/// Lowercased scheme and host, default port dropped, no trailing slash;
/// `None` when not an http(s) URL.
pub fn normalize_node_url(raw: &str) -> (r: Option<String>)
    ensures
        match r {
            Some(u) => normalized_url(raw@) == Some(u@),
            None => normalized_url(raw@) is None,
        },
{
    node_url_from_parts(parse_url(trim(raw)))
}

/// One node in the graph.
#[derive(Debug, Clone, PartialEq, Eq)]
pub struct WalkNode {
    /// Normalized base URL, the node's identity in the graph.
    pub url: String,
    /// Hops from the nearest seed.
    pub depth: u32,
    /// Whether the node was read, could not be, or was never queried.
    pub status: WalkNodeStatus,
    /// Set when `status` is `Unreachable`.
    pub failure: Option<WalkFailure>,
    /// Every node that reported this one, in report order, each once.
    pub reported_by: Vec<String>,
}

/// One observation: `from` reported `to`. What `from` measured of the link
/// belongs to `from` alone, not to the link.
#[derive(Debug, Clone, PartialEq, Eq)]
pub struct WalkEdge {
    /// Normalized URL of the reporting node.
    pub from: String,
    /// Normalized URL of the reported node.
    pub to: String,
    /// Relationship the reporter has to the target.
    pub kind: WalkEdgeKind,
}

/// Which limits cut the walk short.
#[derive(Debug, Clone, Copy, PartialEq, Eq, Structural)]
pub struct WalkTruncation {
    /// Nodes were dropped because the graph was full.
    pub max_nodes: bool,
    /// Nodes beyond the depth limit were left unvisited.
    pub max_depth: bool,
}

/// The graph assembled by a walk.
#[derive(Debug, Clone, PartialEq, Eq)]
pub struct TopologyGraph {
    /// Distinct normalized seed URLs.
    pub seeds: Vec<String>,
    /// Every discovered node, in discovery order.
    pub nodes: Vec<WalkNode>,
    /// Every observation; a node reported by several neighbors appears in
    /// several edges.
    pub edges: Vec<WalkEdge>,
    /// Limits that were hit.
    pub truncated: WalkTruncation,
    /// The walk stopped because it was cancelled.
    pub cancelled: bool,
}

/// Progress of a walk, by position in the graph.
#[derive(Debug, Clone, Copy, PartialEq, Eq, Structural)]
pub enum WalkEvent {
    /// The node at this position was first seen.
    Discovered(usize),
    /// The visit of the node at `node` finished; it reported the edges at
    /// positions `first_edge..end_edge`.
    Visited {
        /// The node, now `Visited` or `Unreachable`.
        node: usize,
        /// First edge it reported.
        first_edge: usize,
        /// One past the last edge it reported.
        end_edge: usize,
    },
}

/// `s` with `x` appended unless it already holds it.
pub open spec fn add_once(s: Seq<Seq<char>>, x: Seq<char>) -> Seq<Seq<char>> {
    if s.contains(x) { s } else { s.push(x) }
}

/// The position of the node whose URL is `url`, if one is.
pub open spec fn node_index(nodes: Seq<WalkNode>, url: Seq<char>) -> Option<int> {
    if exists|i: int| 0 <= i < nodes.len() && nodes[i].url@ == url {
        Some(choose|i: int| 0 <= i < nodes.len() && nodes[i].url@ == url)
    } else {
        None
    }
}

/// Some node has the edge's target URL and counts the edge's source among
/// its reporters.
pub open spec fn observed_by(nodes: Seq<WalkNode>, e: WalkEdge) -> bool {
    exists|i: int| 0 <= i < nodes.len() && nodes[i].url@ == e.to@ && #[trigger] texts(nodes[i].reported_by@).contains(e.from@)
}

/// Some node with the edge's source URL was visited.
pub open spec fn reported_by_visited(nodes: Seq<WalkNode>, e: WalkEdge) -> bool {
    exists|i: int| 0 <= i < nodes.len() && #[trigger] nodes[i].url@ == e.from@ && nodes[i].status == WalkNodeStatus::Visited
}

/// Edges stay observed, and their sources visited, when every node keeps
/// its URL, its reporters and a visited status.
proof fn lemma_observations_kept(before: Seq<WalkNode>, after: Seq<WalkNode>, edges: Seq<WalkEdge>)
    requires
        after.len() >= before.len(),
        forall|k: int| 0 <= k < before.len() ==> (#[trigger] after[k]).url@ == before[k].url@,
        forall|k: int| 0 <= k < before.len() && (#[trigger] before[k]).status == WalkNodeStatus::Visited
            ==> after[k].status == WalkNodeStatus::Visited,
        forall|k: int, x: Seq<char>| 0 <= k < before.len() && #[trigger] texts(before[k].reported_by@).contains(x)
            ==> texts(after[k].reported_by@).contains(x),
        forall|e: int| 0 <= e < edges.len() ==> observed_by(before, #[trigger] edges[e]),
        forall|e: int| 0 <= e < edges.len() ==> reported_by_visited(before, #[trigger] edges[e]),
    ensures
        forall|e: int| 0 <= e < edges.len() ==> observed_by(after, #[trigger] edges[e]),
        forall|e: int| 0 <= e < edges.len() ==> reported_by_visited(after, #[trigger] edges[e]),
{
    assert forall|e: int| 0 <= e < edges.len() implies observed_by(after, #[trigger] edges[e]) by {
        assert(observed_by(before, edges[e]));
        let i = choose|i: int| 0 <= i < before.len() && before[i].url@ == edges[e].to@
            && #[trigger] texts(before[i].reported_by@).contains(edges[e].from@);
        assert(after[i].url@ == edges[e].to@);
        assert(texts(after[i].reported_by@).contains(edges[e].from@));
    }
    assert forall|e: int| 0 <= e < edges.len() implies reported_by_visited(after, #[trigger] edges[e]) by {
        assert(reported_by_visited(before, edges[e]));
        let i = choose|i: int| 0 <= i < before.len() && #[trigger] before[i].url@ == edges[e].from@
            && before[i].status == WalkNodeStatus::Visited;
        assert(after[i].url@ == edges[e].from@);
    }
}

/// The state of a walk: the nodes seen so far, the edges they reported,
/// the limits that were hit, and the progress not yet handed out.
pub struct Walk {
    nodes: Vec<WalkNode>,
    edges: Vec<WalkEdge>,
    truncated: WalkTruncation,
    max_nodes: usize,
    events: Vec<WalkEvent>,
}

impl Walk {
    /// The nodes, in discovery order.
    pub closed spec fn nodes(&self) -> Seq<WalkNode> {
        self.nodes@
    }

    /// The edges, in report order.
    pub closed spec fn edges(&self) -> Seq<WalkEdge> {
        self.edges@
    }

    /// The limits that were hit.
    pub closed spec fn truncation(&self) -> WalkTruncation {
        self.truncated
    }

    /// The most nodes the graph keeps.
    pub closed spec fn capacity(&self) -> usize {
        self.max_nodes
    }

    /// Progress not yet handed out.
    pub closed spec fn pending_events(&self) -> Seq<WalkEvent> {
        self.events@
    }

    /// The walk's invariant: at most `capacity` nodes, and the node limit
    /// recorded as hit only when the graph is full; no URL twice, no
    /// reporter twice for one node; every edge between two different known
    /// nodes, reported by a visited node that its target counts among its
    /// reporters; a failure recorded exactly on unreachable nodes; and
    /// every event about a node and edges that exist.
    pub open spec fn wf(&self) -> bool {
        &&& self.nodes().len() <= self.capacity()
        &&& self.truncation().max_nodes ==> self.nodes().len() == self.capacity()
        &&& forall|e: int| 0 <= e < self.edges().len() ==> observed_by(self.nodes(), #[trigger] self.edges()[e])
        &&& forall|e: int| 0 <= e < self.edges().len() ==> reported_by_visited(self.nodes(), #[trigger] self.edges()[e])
        &&& forall|e: int| 0 <= e < self.edges().len() ==> (#[trigger] self.edges()[e]).from@ != self.edges()[e].to@
        &&& forall|i: int| 0 <= i < self.nodes().len() ==> ((#[trigger] self.nodes()[i]).failure is Some
            <==> self.nodes()[i].status == WalkNodeStatus::Unreachable)
        &&& forall|i: int, j: int| 0 <= i < j < self.nodes().len() ==> self.nodes()[i].url@ != self.nodes()[j].url@
        &&& forall|i: int| 0 <= i < self.nodes().len() ==> texts(#[trigger] self.nodes()[i].reported_by@).no_duplicates()
        &&& forall|e: int| 0 <= e < self.edges().len() ==> node_index(self.nodes(), #[trigger] self.edges()[e].from@) is Some
            && node_index(self.nodes(), self.edges()[e].to@) is Some
        &&& forall|k: int| 0 <= k < self.pending_events().len() ==> match #[trigger] self.pending_events()[k] {
            WalkEvent::Discovered(n) => n < self.nodes().len(),
            WalkEvent::Visited { node, first_edge, end_edge } => node < self.nodes().len()
                && first_edge <= end_edge <= self.edges().len(),
        }
    }

    /// An empty walk keeping at most `max_nodes` nodes.
    pub fn new(max_nodes: usize) -> (w: Walk)
        ensures
            w.wf(),
            w.nodes().len() == 0,
            w.edges().len() == 0,
            w.truncation() == (WalkTruncation { max_nodes: false, max_depth: false }),
            w.capacity() == max_nodes,
            w.pending_events().len() == 0,
    {
        Walk {
            nodes: Vec::new(),
            edges: Vec::new(),
            truncated: WalkTruncation { max_nodes: false, max_depth: false },
            max_nodes,
            events: Vec::new(),
        }
    }

    /// How many nodes were discovered.
    pub fn node_count(&self) -> (r: usize)
        ensures
            r == self.nodes().len(),
    {
        self.nodes.len()
    }

    /// The node at position `i`.
    pub fn node(&self, i: usize) -> (r: &WalkNode)
        requires
            i < self.nodes().len(),
        ensures
            *r == self.nodes()[i as int],
    {
        &self.nodes[i]
    }

    /// How many edges were reported.
    pub fn edge_count(&self) -> (r: usize)
        ensures
            r == self.edges().len(),
    {
        self.edges.len()
    }

    /// The edge at position `i`.
    pub fn edge(&self, i: usize) -> (r: &WalkEdge)
        requires
            i < self.edges().len(),
        ensures
            *r == self.edges()[i as int],
    {
        &self.edges[i]
    }

    /// Hands out the progress recorded since the last call, oldest first.
    pub fn take_events(&mut self) -> (r: Vec<WalkEvent>)
        requires
            old(self).wf(),
        ensures
            final(self).wf(),
            r@ == old(self).pending_events(),
            final(self).pending_events().len() == 0,
            final(self).nodes() == old(self).nodes(),
            final(self).edges() == old(self).edges(),
            final(self).truncation() == old(self).truncation(),
            final(self).capacity() == old(self).capacity(),
    {
        let mut taken: Vec<WalkEvent> = Vec::new();
        std::mem::swap(&mut taken, &mut self.events);
        taken
    }

    /// The position of the node whose URL is `url`, if one is.
    fn find(&self, url: &str) -> (r: Option<usize>)
        requires
            self.wf(),
        ensures
            r matches Some(i) ==> node_index(self.nodes(), url@) == Some(i as int),
            r is None ==> node_index(self.nodes(), url@) is None,
    {
        let mut i: usize = 0;
        while i < self.nodes.len()
            invariant
                self.wf(),
                i <= self.nodes@.len(),
                forall|j: int| 0 <= j < i ==> self.nodes@[j].url@ != url@,
            decreases self.nodes@.len() - i,
        {
            if str_eq(self.nodes[i].url.as_str(), url) {
                proof {
                    let k = choose|k: int| 0 <= k < self.nodes@.len() && self.nodes@[k].url@ == url@;
                    if k != i {
                        assert(self.nodes@[k].url@ == self.nodes@[i as int].url@);
                    }
                }
                return Some(i);
            }
            i = i + 1;
        }
        None
    }
}

/// Where discovering `raw` lands: the node already holding its normalized
/// URL, else a new node at the end when there is room; nowhere for a text
/// that is not an http(s) URL or when the graph is full.
pub open spec fn discover_target(nodes: Seq<WalkNode>, capacity: usize, raw: Seq<char>) -> Option<int> {
    match normalized_url(raw) {
        None => None,
        Some(u) => match node_index(nodes, u) {
            Some(i) => Some(i),
            None => if nodes.len() < capacity { Some(nodes.len() as int) } else { None },
        },
    }
}

/// Whether `raw` is an http(s) URL that was dropped because the graph is
/// full.
pub open spec fn dropped_for_room(nodes: Seq<WalkNode>, capacity: usize, raw: Seq<char>) -> bool {
    normalized_url(raw) is Some && node_index(nodes, normalized_url(raw).unwrap()) is None
        && nodes.len() >= capacity
}

/// The reporters a node has after `reporter` (if any) reports it.
pub open spec fn reporters_after(before: Seq<Seq<char>>, reporter: Option<Seq<char>>) -> Seq<Seq<char>> {
    match reporter {
        Some(r) => add_once(before, r),
        None => before,
    }
}

/// How discovering `raw` at `depth`, reported by `reporter`, changes the
/// walk's nodes, limits and progress.
pub open spec fn discovered(old: &Walk, new: &Walk, raw: Seq<char>, depth: u32, reporter: Option<Seq<char>>, r: Option<usize>) -> bool {
    let target = discover_target(old.nodes(), old.capacity(), raw);
    &&& r matches Some(i) ==> target == Some(i as int)
    &&& r is None ==> target is None
    &&& new.capacity() == old.capacity()
    &&& new.edges() == old.edges()
    &&& new.truncation() == (if dropped_for_room(old.nodes(), old.capacity(), raw) {
        WalkTruncation { max_nodes: true, max_depth: old.truncation().max_depth }
    } else {
        old.truncation()
    })
    &&& match target {
        None => new.nodes() == old.nodes() && new.pending_events() == old.pending_events(),
        Some(i) => {
            &&& new.nodes().len() == (if i == old.nodes().len() { old.nodes().len() + 1 } else { old.nodes().len() })
            &&& forall|k: int| 0 <= k < old.nodes().len() && k != i ==> new.nodes()[k] == old.nodes()[k]
            &&& if i == old.nodes().len() {
                &&& new.nodes()[i].url@ == normalized_url(raw).unwrap()
                &&& new.nodes()[i].depth == depth
                &&& new.nodes()[i].status == WalkNodeStatus::Unvisited
                &&& new.nodes()[i].failure is None
                &&& texts(new.nodes()[i].reported_by@) == reporters_after(Seq::empty(), reporter)
                &&& new.pending_events() == old.pending_events().push(WalkEvent::Discovered(i as usize))
            } else {
                &&& new.nodes()[i].url == old.nodes()[i].url
                &&& new.nodes()[i].depth == old.nodes()[i].depth
                &&& new.nodes()[i].status == old.nodes()[i].status
                &&& new.nodes()[i].failure == old.nodes()[i].failure
                &&& texts(new.nodes()[i].reported_by@) == reporters_after(texts(old.nodes()[i].reported_by@), reporter)
                &&& new.pending_events() == old.pending_events()
            }
        },
    }
}

/// Appends `x` to `list` unless it already holds it.
fn push_once(list: &mut Vec<String>, x: &str)
    requires
        texts(old(list)@).no_duplicates(),
    ensures
        texts(final(list)@) == add_once(texts(old(list)@), x@),
        texts(final(list)@).no_duplicates(),
{
    let mut i: usize = 0;
    while i < list.len()
        invariant
            list@ == old(list)@,
            texts(list@).no_duplicates(),
            i <= list@.len(),
            forall|j: int| 0 <= j < i ==> list@[j]@ != x@,
        decreases list@.len() - i,
    {
        if str_eq(list[i].as_str(), x) {
            proof {
                assert(texts(list@)[i as int] == x@);
            }
            return;
        }
        i = i + 1;
    }
    proof {
        assert(!texts(list@).contains(x@)) by {
            if texts(list@).contains(x@) {
                let j = choose|j: int| 0 <= j < texts(list@).len() && texts(list@)[j] == x@;
                assert(list@[j]@ == x@);
            }
        }
    }
    list.push(owned(x));
    proof {
        assert(texts(list@) =~= texts(old(list)@).push(x@));
    }
}

impl Walk {
    /// Records that `raw` was seen at `depth`, reported by `reporter` (none
    /// for a seed): an existing node gains the reporter, a new node is
    /// added when there is room, and a full graph records the truncation.
    /// Returns the node's position.
    pub fn discover(&mut self, raw: &str, depth: u32, reporter: Option<&str>) -> (r: Option<usize>)
        requires
            old(self).wf(),
        ensures
            final(self).wf(),
            discovered(&*old(self), &*final(self), raw@, depth, match reporter { Some(x) => Some(x@), None => None }, r),
    {
        let url = match normalize_node_url(raw) {
            Some(u) => u,
            None => return None,
        };
        let idx = match self.find(url.as_str()) {
            Some(i) => i,
            None => {
                if self.nodes.len() >= self.max_nodes {
                    self.truncated = WalkTruncation { max_nodes: true, max_depth: self.truncated.max_depth };
                    return None;
                }
                let idx = self.nodes.len();
                let mut reported_by: Vec<String> = Vec::new();
                match reporter {
                    Some(rep) => reported_by.push(owned(rep)),
                    None => {},
                }
                proof {
                    assert(texts(reported_by@) =~= reporters_after(Seq::empty(), match reporter { Some(x) => Some(x@), None => None }));
                }
                let ghost before = *self;
                self.nodes.push(WalkNode {
                    url,
                    depth,
                    status: WalkNodeStatus::Unvisited,
                    failure: None,
                    reported_by,
                });
                self.events.push(WalkEvent::Discovered(idx));
                proof {
                    assert forall|k: int, x: Seq<char>| 0 <= k < before.nodes@.len() && #[trigger] texts(before.nodes@[k].reported_by@).contains(x)
                        implies texts(self.nodes@[k].reported_by@).contains(x) by {
                        assert(self.nodes@[k] == before.nodes@[k]);
                    }
                    lemma_observations_kept(before.nodes@, self.nodes@, self.edges@);
                    assert forall|e: int| 0 <= e < self.edges@.len() implies node_index(self.nodes@, #[trigger] self.edges@[e].from@) is Some
                        && node_index(self.nodes@, self.edges@[e].to@) is Some by {
                        let a = choose|k: int| 0 <= k < before.nodes@.len() && before.nodes@[k].url@ == self.edges@[e].from@;
                        assert(self.nodes@[a].url@ == self.edges@[e].from@);
                        let b = choose|k: int| 0 <= k < before.nodes@.len() && before.nodes@[k].url@ == self.edges@[e].to@;
                        assert(self.nodes@[b].url@ == self.edges@[e].to@);
                    }
                    assert forall|i: int, j: int| 0 <= i < j < self.nodes@.len() implies self.nodes@[i].url@ != self.nodes@[j].url@ by {
                        if j == idx {
                            assert(self.nodes@[i] == before.nodes@[i]);
                        }
                    }
                    assert forall|i: int| 0 <= i < self.nodes@.len() implies texts(#[trigger] self.nodes@[i].reported_by@).no_duplicates() by {
                        if i < idx {
                            assert(self.nodes@[i] == before.nodes@[i]);
                        }
                    }
                }
                return Some(idx);
            },
        };
        match reporter {
            Some(rep) => {
                let ghost before = *self;
                push_once(&mut self.nodes[idx].reported_by, rep);
                proof {
                    assert forall|k: int, x: Seq<char>| 0 <= k < before.nodes@.len() && #[trigger] texts(before.nodes@[k].reported_by@).contains(x)
                        implies texts(self.nodes@[k].reported_by@).contains(x) by {
                        if k == idx {
                            let j = choose|j: int| 0 <= j < texts(before.nodes@[k].reported_by@).len()
                                && texts(before.nodes@[k].reported_by@)[j] == x;
                            assert(texts(self.nodes@[k].reported_by@) == add_once(texts(before.nodes@[k].reported_by@), rep@));
                            if !texts(before.nodes@[k].reported_by@).contains(rep@) {
                                assert(texts(self.nodes@[k].reported_by@)[j] == x);
                            }
                        } else {
                            assert(self.nodes@[k] == before.nodes@[k]);
                        }
                    }
                    lemma_observations_kept(before.nodes@, self.nodes@, self.edges@);
                    assert forall|e: int| 0 <= e < self.edges@.len() implies node_index(self.nodes@, #[trigger] self.edges@[e].from@) is Some
                        && node_index(self.nodes@, self.edges@[e].to@) is Some by {
                        let a = choose|k: int| 0 <= k < before.nodes@.len() && before.nodes@[k].url@ == self.edges@[e].from@;
                        assert(self.nodes@[a].url@ == self.edges@[e].from@);
                        let b = choose|k: int| 0 <= k < before.nodes@.len() && before.nodes@[k].url@ == self.edges@[e].to@;
                        assert(self.nodes@[b].url@ == self.edges@[e].to@);
                    }
                }
            },
            None => {},
        }
        Some(idx)
    }
}

/// How linking the reporting node `from` to the discovered node `child`
/// changes the walk: nothing when there is no child or it is `from`
/// itself; otherwise one more edge, and the child is queued for the next
/// level when it is unvisited, was discovered at exactly this depth and is
/// not queued yet, unless that depth is beyond the limit, which is recorded
/// instead.
pub open spec fn linked(
    mid: &Walk,
    new: &Walk,
    from: usize,
    child: Option<usize>,
    kind: WalkEdgeKind,
    next_before: Seq<usize>,
    next_after: Seq<usize>,
    max_depth: u32,
    depth: int,
    produced: bool,
) -> bool {
    &&& new.nodes() == mid.nodes()
    &&& new.capacity() == mid.capacity()
    &&& new.pending_events() == mid.pending_events()
    &&& match child {
        Some(c) if c != from => {
            let node = mid.nodes()[c as int];
            let queue = node.status == WalkNodeStatus::Unvisited && node.depth == depth
                && !next_before.contains(c);
            &&& produced
            &&& new.edges().len() == mid.edges().len() + 1
            &&& new.edges().drop_last() == mid.edges()
            &&& new.edges().last().from@ == mid.nodes()[from as int].url@
            &&& new.edges().last().to@ == node.url@
            &&& new.edges().last().kind == kind
            &&& if queue && depth > max_depth {
                new.truncation() == (WalkTruncation { max_nodes: mid.truncation().max_nodes, max_depth: true })
                    && next_after == next_before
            } else if queue {
                new.truncation() == mid.truncation() && next_after == next_before.push(c)
            } else {
                new.truncation() == mid.truncation() && next_after == next_before
            }
        },
        _ => {
            &&& !produced
            &&& new.edges() == mid.edges()
            &&& new.truncation() == mid.truncation()
            &&& next_after == next_before
        },
    }
}

/// Whether `v` holds `x`.
fn holds(v: &Vec<usize>, x: usize) -> (r: bool)
    ensures
        r == v@.contains(x),
{
    let mut i: usize = 0;
    while i < v.len()
        invariant
            i <= v@.len(),
            forall|j: int| 0 <= j < i ==> v@[j] != x,
        decreases v@.len() - i,
    {
        if v[i] == x {
            return true;
        }
        i = i + 1;
    }
    false
}

impl Walk {
    /// Records that the node at `from` reported `target` with relationship
    /// `kind`: the target is discovered one hop deeper, and unless it is
    /// dropped or is `from` itself, the observation becomes an edge and the
    /// target may join the next level. Returns whether an edge was added.
    pub fn report(
        &mut self,
        from: usize,
        target: &str,
        kind: WalkEdgeKind,
        next: &mut Vec<usize>,
        max_depth: u32,
    ) -> (produced: bool)
        requires
            old(self).wf(),
            from < old(self).nodes().len(),
            old(self).nodes()[from as int].status == WalkNodeStatus::Visited,
            old(self).nodes()[from as int].depth < u32::MAX,
            forall|k: int| 0 <= k < old(next)@.len() ==> old(next)@[k] < old(self).nodes().len(),
        ensures
            final(self).wf(),
            forall|k: int| 0 <= k < final(next)@.len() ==> final(next)@[k] < final(self).nodes().len(),
            exists|mid: Walk, child: Option<usize>| {
                &&& #[trigger] discovered(&*old(self), &mid, target@, (old(self).nodes()[from as int].depth + 1) as u32,
                    Some(old(self).nodes()[from as int].url@), child)
                &&& linked(&mid, &*final(self), from, child, kind, old(next)@, final(next)@, max_depth,
                    old(self).nodes()[from as int].depth + 1, produced)
            },
    {
        let from_url = owned(self.nodes[from].url.as_str());
        let depth = self.nodes[from].depth + 1;
        let ghost old_walk = *self;
        let child = self.discover(target, depth, Some(from_url.as_str()));
        let ghost mid = *self;
        proof {
            assert(mid.nodes@[from as int].url@ == old_walk.nodes@[from as int].url@);
        }
        let c = match child {
            Some(c) => c,
            None => {
                proof {
                    assert(linked(&mid, &*self, from, child, kind, old(next)@, next@, max_depth, depth as int, false));
                }
                return false;
            },
        };
        if c == from {
            proof {
                assert(linked(&mid, &*self, from, child, kind, old(next)@, next@, max_depth, depth as int, false));
            }
            return false;
        }
        let edge = WalkEdge { from: from_url, to: owned(self.nodes[c].url.as_str()), kind };
        proof {
            assert(node_index(self.nodes@, edge.from@) is Some) by {
                assert(self.nodes@[from as int].url@ == edge.from@);
            }
            assert(node_index(self.nodes@, edge.to@) is Some) by {
                assert(self.nodes@[c as int].url@ == edge.to@);
            }
        }
        self.edges.push(edge);
        let queue = match self.nodes[c].status {
            WalkNodeStatus::Unvisited => self.nodes[c].depth == depth && !holds(next, c),
            _ => false,
        };
        if queue {
            if depth > max_depth {
                self.truncated = WalkTruncation { max_nodes: self.truncated.max_nodes, max_depth: true };
            } else {
                next.push(c);
            }
        }
        proof {
            assert(self.edges@.drop_last() =~= mid.edges@);
            assert forall|k: int| 0 <= k < self.events@.len() implies match #[trigger] self.events@[k] {
                WalkEvent::Discovered(n) => n < self.nodes@.len(),
                WalkEvent::Visited { node, first_edge, end_edge } => node < self.nodes@.len()
                    && first_edge <= end_edge <= self.edges@.len(),
            } by {
                assert(self.events@[k] == mid.events@[k]);
            }
            assert(linked(&mid, &*self, from, child, kind, old(next)@, next@, max_depth, depth as int, true));
            assert(texts(self.nodes@[c as int].reported_by@).contains(from_url@)) by {
                let rb = texts(self.nodes@[c as int].reported_by@);
                let prev = if c < old_walk.nodes@.len() { texts(old_walk.nodes@[c as int].reported_by@) } else { Seq::empty() };
                assert(rb == add_once(prev, from_url@));
                if !prev.contains(from_url@) {
                    assert(rb[prev.len() as int] == from_url@);
                }
            }
            assert forall|e: int| 0 <= e < self.edges@.len() implies observed_by(self.nodes@, #[trigger] self.edges@[e]) by {
                if e < mid.edges@.len() {
                    assert(self.edges@[e] == mid.edges@[e]);
                    assert(observed_by(mid.nodes@, mid.edges@[e]));
                } else {
                    assert(self.nodes@[c as int].url@ == self.edges@[e].to@);
                }
            }
        }
        true
    }
}

/// The fields of a node a later report never changes.
pub open spec fn same_identity(a: WalkNode, b: WalkNode) -> bool {
    a.url == b.url && a.depth == b.depth && a.status == b.status && a.failure == b.failure
}

/// `node_index` finds a node with the URL it is asked for.
proof fn lemma_node_index(nodes: Seq<WalkNode>, url: Seq<char>)
    ensures
        node_index(nodes, url) matches Some(i) ==> 0 <= i < nodes.len() && nodes[i].url@ == url,
{
}

/// With distinct URLs, the node holding a URL is found at its position.
proof fn lemma_node_index_at(nodes: Seq<WalkNode>, i: int)
    requires
        0 <= i < nodes.len(),
        forall|a: int, b: int| 0 <= a < b < nodes.len() ==> nodes[a].url@ != nodes[b].url@,
    ensures
        node_index(nodes, nodes[i].url@) == Some(i),
{
    let k = choose|k: int| 0 <= k < nodes.len() && nodes[k].url@ == nodes[i].url@;
    if k < i {
    } else if k > i {
    }
}

/// What a report keeps of the nodes before it: every earlier node keeps
/// its identity, and a node it adds is unvisited at the reported depth.
proof fn lemma_after_report(before: &Walk, mid: &Walk, after: &Walk, raw: Seq<char>, depth: u32, child: Option<usize>)
    requires
        depth < u32::MAX,
        discovered(before, mid, raw, (depth + 1) as u32, Some(before.nodes()[0].url@), child)
            || discovered(before, mid, raw, (depth + 1) as u32, None, child)
            || exists|r: Seq<char>| discovered(before, mid, raw, (depth + 1) as u32, Some(r), child),
        after.nodes() == mid.nodes(),
        before.wf(),
        after.wf(),
    ensures
        after.nodes().len() >= before.nodes().len(),
        forall|k: int| 0 <= k < before.nodes().len() ==> same_identity(#[trigger] after.nodes()[k], before.nodes()[k]),
        forall|k: int| before.nodes().len() <= k < after.nodes().len() ==> (#[trigger] after.nodes()[k]).status
            == WalkNodeStatus::Unvisited && after.nodes()[k].depth == depth + 1,
        child matches Some(c) ==> c < after.nodes().len() && (c >= before.nodes().len() ==> after.nodes()[c as int].depth == depth + 1),
{
}

/// How marking the node at `idx` visited changes the walk: that node
/// becomes `Visited` with no failure, keeping its URL, depth and
/// reporters, and nothing else changes.
pub open spec fn marked_visited(old: &Walk, new: &Walk, idx: usize) -> bool {
    &&& new.nodes().len() == old.nodes().len()
    &&& forall|k: int| 0 <= k < old.nodes().len() && k != idx ==> new.nodes()[k] == old.nodes()[k]
    &&& new.nodes()[idx as int].url@ == old.nodes()[idx as int].url@
    &&& new.nodes()[idx as int].depth == old.nodes()[idx as int].depth
    &&& new.nodes()[idx as int].status == WalkNodeStatus::Visited
    &&& new.nodes()[idx as int].failure is None
    &&& texts(new.nodes()[idx as int].reported_by@) == texts(old.nodes()[idx as int].reported_by@)
    &&& new.edges() == old.edges()
    &&& new.truncation() == old.truncation()
    &&& new.capacity() == old.capacity()
    &&& new.pending_events() == old.pending_events()
}

/// Step `l` of a visit's trace: the node at `from` reported link `l`,
/// taking the walk from `trace[l]` to `trace[l + 1]` and the next level
/// from `queues[l]` to `queues[l + 1]`, with `added[l]` telling whether an
/// edge was added (what `report` does).
pub open spec fn link_reported(
    trace: Seq<Walk>,
    queues: Seq<Seq<usize>>,
    added: Seq<bool>,
    from: usize,
    links: Seq<(WalkEdgeKind, String)>,
    max_depth: u32,
    l: int,
) -> bool {
    let before = trace[l];
    exists|mid: Walk, child: Option<usize>| {
        &&& #[trigger] discovered(&before, &mid, links[l].1@, (before.nodes()[from as int].depth + 1) as u32,
            Some(before.nodes()[from as int].url@), child)
        &&& linked(&mid, &trace[l + 1], from, child, links[l].0, queues[l], queues[l + 1], max_depth,
            before.nodes()[from as int].depth + 1, added[l])
    }
}

/// A visit of the node at `idx` as a trace: the node is marked visited,
/// then each link is reported in turn (`trace`, `queues` and `added` record
/// the walk, the next level and whether an edge was added after each
/// step), the result is the last step's walk with the visit's event
/// appended, and `produced` lists exactly the links that added an edge.
pub open spec fn visit_traced(
    old: &Walk,
    new: &Walk,
    idx: usize,
    links: Seq<(WalkEdgeKind, String)>,
    next_old: Seq<usize>,
    next_new: Seq<usize>,
    max_depth: u32,
    produced: Seq<usize>,
    trace: Seq<Walk>,
    queues: Seq<Seq<usize>>,
    added: Seq<bool>,
) -> bool {
    &&& trace.len() == links.len() + 1
    &&& queues.len() == links.len() + 1
    &&& added.len() == links.len()
    &&& marked_visited(old, &trace[0], idx)
    &&& queues[0] == next_old
    &&& forall|l: int| 0 <= l < links.len() ==> #[trigger] link_reported(trace, queues, added, idx, links, max_depth, l)
    &&& new.nodes() == trace.last().nodes()
    &&& new.edges() == trace.last().edges()
    &&& new.truncation() == trace.last().truncation()
    &&& new.capacity() == trace.last().capacity()
    &&& new.pending_events() == trace.last().pending_events().push(WalkEvent::Visited {
        node: idx,
        first_edge: old.edges().len() as usize,
        end_edge: new.edges().len() as usize,
    })
    &&& next_new == queues.last()
    &&& forall|p: int| 0 <= p < produced.len() ==> added[#[trigger] produced[p] as int]
    &&& forall|l: int| 0 <= l < links.len() && #[trigger] added[l] ==> produced.contains(l as usize)
}

impl Walk {
    /// Records a read topology view of the node at `idx`: it becomes
    /// `Visited`, and every link it reports (in order: neighbors, mirror
    /// sources, known peers) is reported from it. Returns, for every edge
    /// added, the position of the link it came from.
    #[verifier::rlimit(80)]
    #[verifier::spinoff_prover]
    pub fn apply(
        &mut self,
        idx: usize,
        links: &Vec<(WalkEdgeKind, String)>,
        next: &mut Vec<usize>,
        max_depth: u32,
    ) -> (produced: Vec<usize>)
        requires
            old(self).wf(),
            idx < old(self).nodes().len(),
            old(self).nodes()[idx as int].status == WalkNodeStatus::Unvisited,
            old(self).nodes()[idx as int].depth <= max_depth,
            old(self).nodes()[idx as int].depth < u32::MAX,
            forall|k: int| 0 <= k < old(next)@.len() ==> old(next)@[k] < old(self).nodes().len(),
            forall|k: int| 0 <= k < old(next)@.len() ==> old(self).nodes()[#[trigger] old(next)@[k] as int].depth <= max_depth,
            old(next)@.no_duplicates(),
        ensures
            final(self).wf(),
            forall|k: int| 0 <= k < final(next)@.len() ==> final(next)@[k] < final(self).nodes().len(),
            forall|k: int| 0 <= k < final(next)@.len() ==> final(self).nodes()[#[trigger] final(next)@[k] as int].depth <= max_depth,
            final(next)@.no_duplicates(),
            final(next)@.subrange(0, old(next)@.len() as int) == old(next)@,
            forall|k: int| old(next)@.len() <= k < final(next)@.len() ==> {
                let n = final(self).nodes()[#[trigger] final(next)@[k] as int];
                n.status == WalkNodeStatus::Unvisited && n.depth == old(self).nodes()[idx as int].depth + 1
            },
            forall|p: int| 0 <= p < produced@.len() ==> {
                let e = #[trigger] final(self).edges()[old(self).edges().len() + p];
                let c = node_index(final(self).nodes(), e.to@).unwrap();
                final(self).nodes()[c].status == WalkNodeStatus::Unvisited
                    && final(self).nodes()[c].depth == old(self).nodes()[idx as int].depth + 1
                    ==> (if old(self).nodes()[idx as int].depth + 1 <= max_depth {
                        final(next)@.contains(c as usize)
                    } else {
                        final(self).truncation().max_depth
                    })
            },
            old(self).truncation().max_depth ==> final(self).truncation().max_depth,
            final(self).capacity() == old(self).capacity(),
            final(self).nodes().len() >= old(self).nodes().len(),
            final(self).nodes()[idx as int].status == WalkNodeStatus::Visited,
            final(self).nodes()[idx as int].url@ == old(self).nodes()[idx as int].url@,
            final(self).nodes()[idx as int].depth == old(self).nodes()[idx as int].depth,
            forall|k: int| 0 <= k < old(self).nodes().len() && k != idx ==> same_identity(
                #[trigger] final(self).nodes()[k],
                old(self).nodes()[k],
            ),
            final(self).edges().len() == old(self).edges().len() + produced@.len(),
            final(self).edges().subrange(0, old(self).edges().len() as int) == old(self).edges(),
            forall|p: int, q: int| 0 <= p < q < produced@.len() ==> produced@[p] < produced@[q],
            forall|p: int| 0 <= p < produced@.len() ==> {
                let e = #[trigger] final(self).edges()[old(self).edges().len() + p];
                &&& produced@[p] < links@.len()
                &&& e.kind == links@[produced@[p] as int].0
                &&& e.from@ == old(self).nodes()[idx as int].url@
                &&& normalized_url(links@[produced@[p] as int].1@) == Some(e.to@)
            },
            final(self).pending_events().len() > old(self).pending_events().len(),
            final(self).pending_events().subrange(0, old(self).pending_events().len() as int) == old(self).pending_events(),
            final(self).pending_events().last() == (WalkEvent::Visited {
                node: idx,
                first_edge: old(self).edges().len() as usize,
                end_edge: final(self).edges().len() as usize,
            }),
            exists|trace: Seq<Walk>, queues: Seq<Seq<usize>>, added: Seq<bool>| #[trigger] visit_traced(
                &*old(self), &*final(self), idx, links@, old(next)@, final(next)@, max_depth, produced@, trace, queues, added),
    {
        let ghost start = *self;
        let ghost next0 = next@;
        let n0 = self.edges.len();
        let url = owned(self.nodes[idx].url.as_str());
        let depth = self.nodes[idx].depth;
        self.nodes.set(idx, WalkNode {
            url: owned(self.nodes[idx].url.as_str()),
            depth,
            status: WalkNodeStatus::Visited,
            failure: None,
            reported_by: crate::text::copy_strings(&self.nodes[idx].reported_by),
        });
        let ghost visited = *self;
        proof {
            assert forall|e: int| 0 <= e < self.edges@.len() implies node_index(self.nodes@, #[trigger] self.edges@[e].from@) is Some
                && node_index(self.nodes@, self.edges@[e].to@) is Some by {
                let a = choose|k: int| 0 <= k < start.nodes@.len() && start.nodes@[k].url@ == self.edges@[e].from@;
                assert(self.nodes@[a].url@ == self.edges@[e].from@);
                let b = choose|k: int| 0 <= k < start.nodes@.len() && start.nodes@[k].url@ == self.edges@[e].to@;
                assert(self.nodes@[b].url@ == self.edges@[e].to@);
            }
            assert forall|i: int, j: int| 0 <= i < j < self.nodes@.len() implies self.nodes@[i].url@ != self.nodes@[j].url@ by {
                assert(self.nodes@[i].url@ == start.nodes@[i].url@);
                assert(self.nodes@[j].url@ == start.nodes@[j].url@);
            }
            assert forall|i: int| 0 <= i < self.nodes@.len() implies texts(#[trigger] self.nodes@[i].reported_by@).no_duplicates() by {
                if i != idx {
                    assert(self.nodes@[i] == start.nodes@[i]);
                } else {
                    assert(texts(self.nodes@[i].reported_by@) == texts(start.nodes@[i].reported_by@));
                }
            }
            assert forall|k: int, x: Seq<char>| 0 <= k < start.nodes@.len() && #[trigger] texts(start.nodes@[k].reported_by@).contains(x)
                implies texts(self.nodes@[k].reported_by@).contains(x) by {
                if k != idx {
                    assert(self.nodes@[k] == start.nodes@[k]);
                } else {
                    assert(texts(self.nodes@[k].reported_by@) == texts(start.nodes@[k].reported_by@));
                }
            }
            lemma_observations_kept(start.nodes@, self.nodes@, self.edges@);
            assert forall|i: int| 0 <= i < self.nodes@.len() implies ((#[trigger] self.nodes@[i]).failure is Some
                <==> self.nodes@[i].status == WalkNodeStatus::Unreachable) by {
                if i != idx {
                    assert(self.nodes@[i] == start.nodes@[i]);
                }
            }
        }
        let ghost mut trace: Seq<Walk> = seq![*self];
        let ghost mut queues: Seq<Seq<usize>> = seq![next@];
        let ghost mut added_at: Seq<bool> = Seq::empty();
        let mut produced: Vec<usize> = Vec::new();
        let mut l: usize = 0;
        while l < links.len()
            invariant
                trace.len() == l + 1,
                queues.len() == l + 1,
                added_at.len() == l,
                trace.last() == *self,
                queues.last() == next@,
                marked_visited(&start, &trace[0], idx),
                queues[0] == next0,
                forall|j: int| 0 <= j < l ==> #[trigger] link_reported(trace, queues, added_at, idx, links@, max_depth, j),
                forall|p: int| 0 <= p < produced@.len() ==> added_at[#[trigger] produced@[p] as int],
                forall|j: int| 0 <= j < l && #[trigger] added_at[j] ==> produced@.contains(j as usize),
                self.wf(),
                idx < start.nodes@.len(),
                self.nodes@.len() >= start.nodes@.len(),
                self.max_nodes == start.max_nodes,
                url@ == start.nodes@[idx as int].url@,
                depth == start.nodes@[idx as int].depth,
                depth < u32::MAX,
                self.nodes@[idx as int].status == WalkNodeStatus::Visited,
                self.nodes@[idx as int].url@ == start.nodes@[idx as int].url@,
                self.nodes@[idx as int].depth == depth,
                forall|k: int| 0 <= k < start.nodes@.len() && k != idx ==> same_identity(#[trigger] self.nodes@[k], start.nodes@[k]),
                forall|k: int| 0 <= k < next@.len() ==> next@[k] < self.nodes@.len(),
                forall|k: int| 0 <= k < next@.len() ==> self.nodes@[#[trigger] next@[k] as int].depth <= max_depth,
                next@.no_duplicates(),
                next@.len() >= next0.len(),
                next@.subrange(0, next0.len() as int) == next0,
                forall|k: int| next0.len() <= k < next@.len() ==> {
                    let n = self.nodes@[#[trigger] next@[k] as int];
                    n.status == WalkNodeStatus::Unvisited && n.depth == depth + 1
                },
                forall|p: int| 0 <= p < produced@.len() ==> {
                    let e = #[trigger] self.edges@[n0 + p];
                    let c = node_index(self.nodes@, e.to@).unwrap();
                    self.nodes@[c].status == WalkNodeStatus::Unvisited && self.nodes@[c].depth == depth + 1
                        ==> (if depth + 1 <= max_depth { next@.contains(c as usize) } else { self.truncated.max_depth })
                },
                start.truncated.max_depth ==> self.truncated.max_depth,
                forall|p: int| 0 <= p < produced@.len() ==> node_index(self.nodes@, (#[trigger] self.edges@[n0 + p]).to@) is Some,
                n0 == start.edges@.len(),
                self.edges@.len() == n0 + produced@.len(),
                self.edges@.subrange(0, n0 as int) == start.edges@,
                l <= links@.len(),
                forall|p: int, q: int| 0 <= p < q < produced@.len() ==> produced@[p] < produced@[q],
                forall|p: int| 0 <= p < produced@.len() ==> produced@[p] < l,
                forall|p: int| 0 <= p < produced@.len() ==> {
                    let e = #[trigger] self.edges@[n0 + p];
                    &&& e.kind == links@[produced@[p] as int].0
                    &&& e.from@ == start.nodes@[idx as int].url@
                    &&& normalized_url(links@[produced@[p] as int].1@) == Some(e.to@)
                },
                self.events@.len() >= start.events@.len(),
                self.events@.subrange(0, start.events@.len() as int) == start.events@,
            decreases links@.len() - l,
        {
            let ghost before = *self;
            let ghost next_before = next@;
            let added = self.report(idx, links[l].1.as_str(), links[l].0, next, max_depth);
            proof {
                let (mid, child) = choose|mid: Walk, child: Option<usize>| {
                    &&& #[trigger] discovered(&before, &mid, links@[l as int].1@, (before.nodes@[idx as int].depth + 1) as u32,
                        Some(before.nodes@[idx as int].url@), child)
                    &&& linked(&mid, &*self, idx, child, links@[l as int].0, next_before, next@, max_depth,
                        before.nodes@[idx as int].depth + 1, added)
                };
                lemma_after_report(&before, &mid, &*self, links@[l as int].1@, depth, child);
                let t = discover_target(before.nodes@, before.max_nodes, links@[l as int].1@);
                lemma_node_index(before.nodes@, normalized_url(links@[l as int].1@).unwrap_or(Seq::empty()));
                assert forall|k: int| 0 <= k < start.nodes@.len() && k != idx implies same_identity(#[trigger] self.nodes@[k], start.nodes@[k]) by {
                    assert(same_identity(before.nodes@[k], start.nodes@[k]));
                }
                assert(next@ == next_before || next@ == next_before.push(child.unwrap()));
                assert forall|k: int| 0 <= k < next@.len() implies self.nodes@[#[trigger] next@[k] as int].depth <= max_depth by {
                    if k < next_before.len() {
                        assert(next@[k] == next_before[k]);
                    }
                }
                assert forall|k: int| next0.len() <= k < next@.len() implies {
                    let n = self.nodes@[#[trigger] next@[k] as int];
                    n.status == WalkNodeStatus::Unvisited && n.depth == depth + 1
                } by {
                    if k < next_before.len() {
                        assert(next@[k] == next_before[k]);
                    }
                }
                assert(next@.subrange(0, next0.len() as int) =~= next0) by {
                    assert(next_before.subrange(0, next0.len() as int) == next0);
                }
                assert forall|p: int| 0 <= p < produced@.len() implies {
                    let e = #[trigger] self.edges@[n0 + p];
                    &&& node_index(self.nodes@, e.to@) is Some
                    &&& {
                        let c = node_index(self.nodes@, e.to@).unwrap();
                        self.nodes@[c].status == WalkNodeStatus::Unvisited && self.nodes@[c].depth == depth + 1
                            ==> (if depth + 1 <= max_depth { next@.contains(c as usize) } else { self.truncated.max_depth })
                    }
                } by {
                    assert(self.edges@[n0 + p] == before.edges@[n0 + p]);
                    let e = before.edges@[n0 + p];
                    let c = node_index(before.nodes@, e.to@).unwrap();
                    lemma_node_index(before.nodes@, e.to@);
                    lemma_node_index_at(before.nodes@, c);
                    lemma_node_index_at(self.nodes@, c);
                    if depth + 1 <= max_depth && before.nodes@[c].status == WalkNodeStatus::Unvisited
                        && before.nodes@[c].depth == depth + 1 {
                        let k = choose|k: int| 0 <= k < next_before.len() && next_before[k] == c as usize;
                        assert(next@[k] == c as usize);
                    }
                }
                if added {
                    let c = child.unwrap();
                    lemma_node_index_at(self.nodes@, c as int);
                    if self.nodes@[c as int].status == WalkNodeStatus::Unvisited && self.nodes@[c as int].depth == depth + 1
                        && depth + 1 > max_depth {
                        assert(!next_before.contains(c)) by {
                            if next_before.contains(c) {
                                let k = choose|k: int| 0 <= k < next_before.len() && next_before[k] == c;
                                assert(before.nodes@[next_before[k] as int].depth <= max_depth);
                            }
                        }
                    }
                    assert(normalized_url(links@[l as int].1@) == Some(mid.nodes()[c as int].url@));
                    assert(node_index(self.nodes@, self.edges@.last().to@) == Some(c as int));
                    if depth + 1 <= max_depth && self.nodes@[c as int].status == WalkNodeStatus::Unvisited
                        && self.nodes@[c as int].depth == depth + 1 {
                        if next_before.contains(c) {
                            let k = choose|k: int| 0 <= k < next_before.len() && next_before[k] == c;
                            assert(next@[k] == c);
                        } else {
                            assert(next@.last() == c);
                        }
                    }
                    assert(self.edges@.last().to@ == mid.nodes()[c as int].url@);
                    assert(self.edges@.last().kind == links@[l as int].0);
                    assert(mid.nodes()[idx as int].url@ == before.nodes@[idx as int].url@);
                    assert(self.edges@.last().from@ == start.nodes@[idx as int].url@);
                    assert(self.edges@.drop_last() == before.edges@);
                }
            }
            let ghost prod_before = produced@;
            if added {
                produced.push(l);
                proof {
                    assert forall|p: int| 0 <= p < produced@.len() implies {
                        let e = #[trigger] self.edges@[n0 + p];
                        &&& e.kind == links@[produced@[p] as int].0
                        &&& e.from@ == start.nodes@[idx as int].url@
                        &&& normalized_url(links@[produced@[p] as int].1@) == Some(e.to@)
                        &&& node_index(self.nodes@, e.to@) is Some
                        &&& {
                            let c = node_index(self.nodes@, e.to@).unwrap();
                            self.nodes@[c].status == WalkNodeStatus::Unvisited && self.nodes@[c].depth == depth + 1
                                ==> (if depth + 1 <= max_depth { next@.contains(c as usize) } else { self.truncated.max_depth })
                        }
                    } by {
                        if p < produced@.len() - 1 {
                            assert(self.edges@[n0 + p] == before.edges@[n0 + p]);
                        } else {
                            assert(self.edges@[n0 + p] == self.edges@.last());
                        }
                    }
                    assert(self.edges@.subrange(0, n0 as int) =~= start.edges@) by {
                        assert(self.edges@.drop_last().subrange(0, n0 as int) =~= before.edges@.subrange(0, n0 as int));
                    }
                }
            }
            proof {
                let t0 = trace;
                let q0 = queues;
                let a0 = added_at;
                let p0 = prod_before;
                trace = t0.push(*self);
                queues = q0.push(next@);
                added_at = a0.push(added);
                assert forall|j: int| 0 <= j < l + 1 implies #[trigger] link_reported(trace, queues, added_at, idx, links@, max_depth, j) by {
                    if j < l {
                        assert(link_reported(t0, q0, a0, idx, links@, max_depth, j));
                        assert(trace[j] == t0[j]);
                        assert(trace[j + 1] == t0[j + 1]);
                        assert(queues[j] == q0[j]);
                        assert(queues[j + 1] == q0[j + 1]);
                        assert(added_at[j] == a0[j]);
                    } else {
                        assert(trace[j] == before);
                        assert(trace[j + 1] == *self);
                        assert(queues[j] == next_before);
                        assert(queues[j + 1] == next@);
                        assert(added_at[j] == added);
                    }
                }
                assert forall|p: int| 0 <= p < produced@.len() implies added_at[#[trigger] produced@[p] as int] by {
                    if p < p0.len() {
                        assert(produced@[p] == p0[p]);
                        assert(p0[p] < l);
                    }
                }
                assert forall|j: int| 0 <= j < l + 1 && #[trigger] added_at[j] implies produced@.contains(j as usize) by {
                    if j < l {
                        assert(a0[j]);
                        let k = choose|k: int| 0 <= k < p0.len() && p0[k] == j as usize;
                        assert(produced@[k] == j as usize);
                    } else {
                        assert(produced@.last() == l);
                    }
                }
            }
            l = l + 1;
        }
        let ghost last = *self;
        let end = self.edges.len();
        self.events.push(WalkEvent::Visited { node: idx, first_edge: n0, end_edge: end });
        proof {
            assert(self.events@.subrange(0, start.events@.len() as int) =~= start.events@);
            assert(trace.last() == last);
            assert(visit_traced(&start, &*self, idx, links@, next0, next@, max_depth, produced@, trace, queues, added_at));
        }
        produced
    }
}

impl Walk {
    /// Records that every attempt to read the node at `idx` failed.
    pub fn fail(&mut self, idx: usize, why: WalkFailure, max_depth: u32)
        requires
            old(self).wf(),
            idx < old(self).nodes().len(),
            old(self).nodes()[idx as int].status == WalkNodeStatus::Unvisited,
            old(self).nodes()[idx as int].depth <= max_depth,
        ensures
            final(self).wf(),
            final(self).capacity() == old(self).capacity(),
            final(self).nodes().len() == old(self).nodes().len(),
            final(self).nodes()[idx as int].status == WalkNodeStatus::Unreachable,
            final(self).nodes()[idx as int].failure == Some(why),
            final(self).nodes()[idx as int].url@ == old(self).nodes()[idx as int].url@,
            final(self).nodes()[idx as int].depth == old(self).nodes()[idx as int].depth,
            texts(final(self).nodes()[idx as int].reported_by@) == texts(old(self).nodes()[idx as int].reported_by@),
            forall|k: int| 0 <= k < old(self).nodes().len() && k != idx ==> final(self).nodes()[k] == old(self).nodes()[k],
            final(self).edges() == old(self).edges(),
            final(self).truncation() == old(self).truncation(),
            final(self).pending_events() == old(self).pending_events().push(WalkEvent::Visited {
                node: idx,
                first_edge: old(self).edges().len() as usize,
                end_edge: old(self).edges().len() as usize,
            }),
    {
        let ghost start = *self;
        let depth = self.nodes[idx].depth;
        self.nodes.set(idx, WalkNode {
            url: owned(self.nodes[idx].url.as_str()),
            depth,
            status: WalkNodeStatus::Unreachable,
            failure: Some(why),
            reported_by: crate::text::copy_strings(&self.nodes[idx].reported_by),
        });
        let n = self.edges.len();
        self.events.push(WalkEvent::Visited { node: idx, first_edge: n, end_edge: n });
        proof {
            assert forall|k: int, x: Seq<char>| 0 <= k < start.nodes@.len() && #[trigger] texts(start.nodes@[k].reported_by@).contains(x)
                implies texts(self.nodes@[k].reported_by@).contains(x) by {
                if k != idx {
                    assert(self.nodes@[k] == start.nodes@[k]);
                }
            }
            lemma_observations_kept(start.nodes@, self.nodes@, self.edges@);
        }
        proof {
            assert forall|e: int| 0 <= e < self.edges@.len() implies node_index(self.nodes@, #[trigger] self.edges@[e].from@) is Some
                && node_index(self.nodes@, self.edges@[e].to@) is Some by {
                let a = choose|k: int| 0 <= k < start.nodes@.len() && start.nodes@[k].url@ == self.edges@[e].from@;
                assert(self.nodes@[a].url@ == self.edges@[e].from@);
                let b = choose|k: int| 0 <= k < start.nodes@.len() && start.nodes@[k].url@ == self.edges@[e].to@;
                assert(self.nodes@[b].url@ == self.edges@[e].to@);
            }
            assert forall|i: int, j: int| 0 <= i < j < self.nodes@.len() implies self.nodes@[i].url@ != self.nodes@[j].url@ by {
                assert(self.nodes@[i].url@ == start.nodes@[i].url@);
                assert(self.nodes@[j].url@ == start.nodes@[j].url@);
            }
            assert forall|i: int| 0 <= i < self.nodes@.len() implies texts(#[trigger] self.nodes@[i].reported_by@).no_duplicates() by {
                if i != idx {
                    assert(self.nodes@[i] == start.nodes@[i]);
                } else {
                    assert(texts(self.nodes@[i].reported_by@) == texts(start.nodes@[i].reported_by@));
                }
            }
        }
    }

    /// The nodes of `level` still to be queried: unvisited and within the
    /// depth limit, in level order.
    pub fn jobs(&self, level: &Vec<usize>, max_depth: u32) -> (r: Vec<usize>)
        requires
            forall|k: int| 0 <= k < level@.len() ==> level@[k] < self.nodes().len(),
        ensures
            r@ == level@.filter(|i: usize| self.nodes()[i as int].status == WalkNodeStatus::Unvisited
                && self.nodes()[i as int].depth <= max_depth),
    {
        let ghost pred = |i: usize| self.nodes()[i as int].status == WalkNodeStatus::Unvisited
            && self.nodes()[i as int].depth <= max_depth;
        let mut r: Vec<usize> = Vec::new();
        let mut k: usize = 0;
        proof {
            assert(level@.subrange(0, 0).filter(pred) =~= Seq::<usize>::empty());
        }
        while k < level.len()
            invariant
                forall|j: int| 0 <= j < level@.len() ==> level@[j] < self.nodes().len(),
                k <= level@.len(),
                r@ == level@.subrange(0, k as int).filter(pred),
                pred == (|i: usize| self.nodes()[i as int].status == WalkNodeStatus::Unvisited
                    && self.nodes()[i as int].depth <= max_depth),
            decreases level@.len() - k,
        {
            let i = level[k];
            let keep = match self.nodes[i].status {
                WalkNodeStatus::Unvisited => self.nodes[i].depth <= max_depth,
                _ => false,
            };
            proof {
                let sub = level@.subrange(0, k + 1);
                assert(sub.drop_last() =~= level@.subrange(0, k as int));
                assert(sub.last() == i);
                reveal(Seq::filter);
            }
            if keep {
                r.push(i);
            }
            k = k + 1;
        }
        proof {
            assert(level@.subrange(0, level@.len() as int) =~= level@);
        }
        r
    }

    /// The assembled graph.
    pub fn into_graph(self, seeds: Vec<String>, cancelled: bool) -> (g: TopologyGraph)
        ensures
            g.seeds == seeds,
            g.nodes@ == self.nodes(),
            g.edges@ == self.edges(),
            g.truncated == self.truncation(),
            g.cancelled == cancelled,
    {
        TopologyGraph { seeds, nodes: self.nodes, edges: self.edges, truncated: self.truncated, cancelled }
    }
}

/// Whether `v` holds `s`'s text.
fn holds_text(v: &Vec<String>, s: &str) -> (r: bool)
    ensures
        r == texts(v@).contains(s@),
{
    let mut i: usize = 0;
    while i < v.len()
        invariant
            i <= v@.len(),
            forall|j: int| 0 <= j < i ==> v@[j]@ != s@,
        decreases v@.len() - i,
    {
        if str_eq(v[i].as_str(), s) {
            proof {
                assert(texts(v@)[i as int] == s@);
            }
            return true;
        }
        i = i + 1;
    }
    proof {
        if texts(v@).contains(s@) {
            let j = choose|j: int| 0 <= j < texts(v@).len() && texts(v@)[j] == s@;
            assert(v@[j]@ == s@);
        }
    }
    false
}

/// The positions of the first level and the seed URLs are valid and each
/// appears once.
pub open spec fn seeding_ok(w: &Walk, seed_urls: Seq<String>, level: Seq<usize>) -> bool {
    &&& texts(seed_urls).no_duplicates()
    &&& level.no_duplicates()
    &&& forall|k: int| 0 <= k < level.len() ==> level[k] < w.nodes().len()
    &&& forall|k: int| 0 <= k < seed_urls.len() ==> node_index(w.nodes(), #[trigger] seed_urls[k]@) is Some
}

/// A URL held by a node is still held when every node keeps its URL.
proof fn lemma_url_kept(before: Seq<WalkNode>, after: Seq<WalkNode>, url: Seq<char>)
    requires
        node_index(before, url) is Some,
        after.len() >= before.len(),
        forall|k: int| 0 <= k < before.len() ==> (#[trigger] after[k]).url@ == before[k].url@,
    ensures
        node_index(after, url) is Some,
{
    let i = choose|i: int| 0 <= i < before.len() && before[i].url@ == url;
    assert(after[i].url@ == url);
}

impl Walk {
    /// Adds one seed. An http(s) URL becomes a depth-0 node of the first
    /// level (once); any other text becomes an unreachable node carrying
    /// the reason, when it is not there yet and there is room.
    pub fn seed(&mut self, raw: &str, seed_urls: &mut Vec<String>, level: &mut Vec<usize>)
        requires
            old(self).wf(),
            seeding_ok(&*old(self), old(seed_urls)@, old(level)@),
        ensures
            final(self).wf(),
            seeding_ok(&*final(self), final(seed_urls)@, final(level)@),
            final(self).capacity() == old(self).capacity(),
            final(self).edges() == old(self).edges(),
            final(self).nodes().len() >= old(self).nodes().len(),
            forall|k: int| 0 <= k < old(self).nodes().len() ==> same_identity(#[trigger] final(self).nodes()[k], old(self).nodes()[k]),
            match discover_target(old(self).nodes(), old(self).capacity(), raw@) {
                Some(i) => {
                    &&& final(level)@ == (if old(level)@.contains(i as usize) { old(level)@ } else { old(level)@.push(i as usize) })
                    &&& texts(final(seed_urls)@) == add_once(texts(old(seed_urls)@), final(self).nodes()[i].url@)
                },
                None => {
                    &&& final(level)@ == old(level)@
                    &&& if normalized_url(raw@) is None && node_index(old(self).nodes(), trimmed(raw@)) is None
                        && old(self).nodes().len() < old(self).capacity() {
                        let i = old(self).nodes().len();
                        let n = final(self).nodes()[i as int];
                        &&& final(self).nodes().len() == old(self).nodes().len() + 1
                        &&& n.url@ == trimmed(raw@)
                        &&& n.depth == 0
                        &&& n.status == WalkNodeStatus::Unreachable
                        &&& n.failure matches Some(f) && f.reason == WalkFailureReason::ProtocolError
                            && f.status is None && f.retry_after_seconds is None
                            && f.message@ == "not an http(s) URL"@
                        &&& n.reported_by@.len() == 0
                        &&& final(self).truncation() == old(self).truncation()
                        &&& final(self).pending_events() == old(self).pending_events()
                            .push(WalkEvent::Discovered(i as usize))
                            .push(WalkEvent::Visited {
                                node: i as usize,
                                first_edge: old(self).edges().len() as usize,
                                end_edge: old(self).edges().len() as usize,
                            })
                        &&& texts(final(seed_urls)@) == texts(old(seed_urls)@).push(trimmed(raw@))
                    } else {
                        &&& final(self).nodes().len() == old(self).nodes().len()
                        &&& final(seed_urls)@ == old(seed_urls)@
                    }
                },
            },
            normalized_url(raw@) is Some ==> discovered(&*old(self), &*final(self), raw@, 0, None,
                match discover_target(old(self).nodes(), old(self).capacity(), raw@) {
                    Some(i) => Some(i as usize),
                    None => None,
                }),
            normalized_url(raw@) is None ==> final(self).truncation() == old(self).truncation()
                && (final(self).nodes().len() == old(self).nodes().len() ==> final(self).nodes() == old(self).nodes()
                    && final(self).pending_events() == old(self).pending_events()),
    {
        let ghost start = *self;
        match self.discover(raw, 0, None) {
            Some(idx) => {
                let url = owned(self.nodes[idx].url.as_str());
                if !holds_text(seed_urls, url.as_str()) {
                    seed_urls.push(url);
                    proof {
                        assert(texts(seed_urls@) =~= texts(old(seed_urls)@).push(self.nodes@[idx as int].url@));
                    }
                }
                if !holds(level, idx) {
                    level.push(idx);
                }
                proof {
                    assert forall|k: int| 0 <= k < start.nodes@.len() implies same_identity(#[trigger] self.nodes@[k], start.nodes@[k]) by {
                        if k != idx {
                            assert(self.nodes@[k] == start.nodes@[k]);
                        }
                    }
                    assert forall|k: int| 0 <= k < seed_urls@.len() implies node_index(self.nodes@, #[trigger] seed_urls@[k]@) is Some by {
                        if k < old(seed_urls)@.len() {
                            assert(seed_urls@[k] == old(seed_urls)@[k]);
                            lemma_url_kept(start.nodes@, self.nodes@, seed_urls@[k]@);
                        } else {
                            assert(self.nodes@[idx as int].url@ == seed_urls@[k]@);
                        }
                    }
                }
            },
            None => {
                proof {
                    assert(self.nodes@ == start.nodes@);
                }
                if normalize_node_url(raw).is_none() {
                    let t = owned(trim(raw));
                    if self.find(t.as_str()).is_none() && self.nodes.len() < self.max_nodes {
                        let idx = self.nodes.len();
                        let not_url = failure(WalkFailureReason::ProtocolError, owned("not an http(s) URL"));
                        let ghost before = *self;
                        self.nodes.push(WalkNode {
                            url: owned(t.as_str()),
                            depth: 0,
                            status: WalkNodeStatus::Unreachable,
                            failure: Some(not_url),
                            reported_by: Vec::new(),
                        });
                        proof {
                            if texts(seed_urls@).contains(t@) {
                                let j = choose|j: int| 0 <= j < texts(seed_urls@).len() && texts(seed_urls@)[j] == t@;
                                assert(node_index(before.nodes@, seed_urls@[j]@) is Some);
                            }
                        }
                        seed_urls.push(t);
                        let n = self.edges.len();
                        self.events.push(WalkEvent::Discovered(idx));
                        self.events.push(WalkEvent::Visited { node: idx, first_edge: n, end_edge: n });
                        proof {
                            assert(texts(seed_urls@) =~= texts(old(seed_urls)@).push(trimmed(raw@)));
                            assert(texts(self.nodes@[idx as int].reported_by@) =~= Seq::<Seq<char>>::empty());
                            assert forall|e: int| 0 <= e < self.edges@.len() implies node_index(self.nodes@, #[trigger] self.edges@[e].from@) is Some
                                && node_index(self.nodes@, self.edges@[e].to@) is Some by {
                                let a = choose|k: int| 0 <= k < before.nodes@.len() && before.nodes@[k].url@ == self.edges@[e].from@;
                                assert(self.nodes@[a].url@ == self.edges@[e].from@);
                                let b = choose|k: int| 0 <= k < before.nodes@.len() && before.nodes@[k].url@ == self.edges@[e].to@;
                                assert(self.nodes@[b].url@ == self.edges@[e].to@);
                            }
                            assert forall|i: int, j: int| 0 <= i < j < self.nodes@.len() implies self.nodes@[i].url@ != self.nodes@[j].url@ by {
                                if j == idx {
                                    assert(self.nodes@[i] == before.nodes@[i]);
                                }
                            }
                            assert forall|i: int| 0 <= i < self.nodes@.len() implies texts(#[trigger] self.nodes@[i].reported_by@).no_duplicates() by {
                                if i < idx {
                                    assert(self.nodes@[i] == before.nodes@[i]);
                                }
                            }
                            assert forall|k: int| 0 <= k < start.nodes@.len() implies same_identity(#[trigger] self.nodes@[k], start.nodes@[k]) by {
                                assert(self.nodes@[k] == before.nodes@[k]);
                            }
                            assert forall|k: int| 0 <= k < seed_urls@.len() implies node_index(self.nodes@, #[trigger] seed_urls@[k]@) is Some by {
                                if k < old(seed_urls)@.len() {
                                    assert(seed_urls@[k] == old(seed_urls)@[k]);
                                    lemma_url_kept(start.nodes@, self.nodes@, seed_urls@[k]@);
                                } else {
                                    assert(self.nodes@[idx as int].url@ == seed_urls@[k]@);
                                }
                            }
                            assert forall|k: int| 0 <= k < self.events@.len() implies match #[trigger] self.events@[k] {
                                WalkEvent::Discovered(n) => n < self.nodes@.len(),
                                WalkEvent::Visited { node, first_edge, end_edge } => node < self.nodes@.len()
                                    && first_edge <= end_edge <= self.edges@.len(),
                            } by {
                                if k < before.events@.len() {
                                    assert(self.events@[k] == before.events@[k]);
                                }
                            }
                        }
                    }
                }
            },
        }
    }
}

/// URLs are deduplicated after normalization: two texts with the same
/// normalized URL land on the same node.
pub proof fn lemma_same_url_same_node(nodes: Seq<WalkNode>, capacity: usize, a: Seq<char>, b: Seq<char>)
    requires
        normalized_url(a) == normalized_url(b),
    ensures
        discover_target(nodes, capacity, a) == discover_target(nodes, capacity, b),
{
}

/// A walk never holds more nodes than it may: the count stays within the
/// clamped limit, at most 1000.
pub proof fn lemma_walk_is_bounded(w: &Walk, limits: Limits, options: WalkOptions)
    requires
        w.wf(),
        w.capacity() == limits.max_nodes,
        limits.max_nodes == clamped(options.max_nodes as int, 1, CEILING_MAX_NODES as int),
    ensures
        w.nodes().len() <= CEILING_MAX_NODES,
{
}

/// A rate-limited node is retried at most once, and never waits longer
/// than the budget allows.
pub proof fn lemma_rate_limits_are_retried_once(result: Result<(), WalkFailure>, max_retry_after_ms: u64)
    ensures
        !(visit_decision(result, true, max_retry_after_ms) is RetryAfter),
        visit_decision(result, false, max_retry_after_ms) matches VisitStep::RetryAfter(ms) ==> ms <= max_retry_after_ms,
        result is Ok ==> visit_decision(result, false, max_retry_after_ms) == VisitStep::Reached,
{
}

} // verus!
