# avalon-sdk

A client library for the Avalon Protocol's network-facing API, written in
Verus: the rules the client follows are executable Rust with contracts, and
Verus proves every function meets its contract.

## Layout

- `src/` — the verified library.
  - `http.rs` — retry, backoff and error mapping as decision functions.
  - `network.rs` — trust anchors, the Signed Tree Head check against the
    pinned key, target checks and candidate discovery and ranking.
  - `topology_walk.rs` — the bounded breadth-first overlay walk as a state
    machine over nodes, edges and progress events.
  - `submission.rs` — the offline journal's outcome classification, retry
    book and drain order.
  - `account.rs`, `signed_actions.rs`, `achievements.rs`,
    `cross_node_login.rs`, `issuer_registration.rs` — the exact bytes each
    signed action, claim, grant and registration signs, and the checks
    before a signature is made.
  - `types/` — identifiers, integrator categories and capabilities with
    their wire vocabularies.
  - `crypto.rs` — Ed25519 signing and verification, base64, hex and UUID
    parsing, called through the `ed25519-dalek`, `base64`, `hex` and `uuid`
    crates.
  - `text.rs` — decimal, hex and UUID text, and string helpers.
- `tests/` — the test suite, run against the compiled library.
- `app/` — the networked half: HTTP requests, serde wire shapes, timers and
  the async loops that drive the library's decision functions.

Public proof functions named `lemma_*` state the library's laws: that plain
writes are never retried, that discovery only contacts pinned hosts, that a
stale token never discards queued work, and the like.
