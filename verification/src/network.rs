//! Network trust: which network a server verifiably is, whether that is the
//! network a caller declared, and which published node to connect to.
//!
//! A `network_id` alone carries no authority: only a Signed Tree Head that
//! verifies under the claimed network's pinned key establishes which
//! network a server is. Candidates for discovery come only from the pinned
//! trust-anchor list, so discovery never contacts an unpinned host.

use vstd::prelude::*;
use crate::crypto::{ed25519_verifies, hex_decode, hex_decoded, verify_signature};
use crate::http::RetryConfig;
use crate::text::{copy_opt, copy_strings, opt_text, owned, push_str, texts};

verus! {

/// Which deployment tier a trust anchor pins.
#[derive(Debug, Clone, Copy, PartialEq, Eq, Structural)]
pub enum NetworkEnvironment {
    /// No real deployment: a freely generated key that exercises the
    /// trust-anchor mechanism end to end.
    LocalDev,
    /// A real, non-production, single-node deployment.
    Dev,
    /// A real, non-production, interconnected test bed.
    Int,
    /// A real mainnet deployment.
    Prod,
}

/// One entry of the published trust-anchor list.
#[derive(Debug, Clone, PartialEq, Eq)]
pub struct TrustAnchorEntry {
    /// Human-readable name for the network.
    pub label: String,
    /// The exact string a server sets as its network id.
    pub network_id: String,
    /// Lowercase hex Ed25519 public key that verifies this network's
    /// Signed Tree Heads.
    pub verify_key: String,
    /// Which key generation this is.
    pub signing_key_id: String,
    /// The server URL this network is reachable at, if published.
    pub server_url: Option<String>,
    /// Which deployment tier this is.
    pub environment: NetworkEnvironment,
    /// Base URLs of this network's always-on anchor nodes.
    pub seed_nodes: Vec<String>,
    /// Free-text notes.
    pub notes: Option<String>,
}

/// The plain contents of a trust anchor.
pub struct AnchorView {
    pub label: Seq<char>,
    pub network_id: Seq<char>,
    pub verify_key: Seq<char>,
    pub signing_key_id: Seq<char>,
    pub server_url: Option<Seq<char>>,
    pub environment: NetworkEnvironment,
    pub seed_nodes: Seq<Seq<char>>,
    pub notes: Option<Seq<char>>,
}

impl View for TrustAnchorEntry {
    type V = AnchorView;

    open spec fn view(&self) -> AnchorView {
        AnchorView {
            label: self.label@,
            network_id: self.network_id@,
            verify_key: self.verify_key@,
            signing_key_id: self.signing_key_id@,
            server_url: opt_text(self.server_url),
            environment: self.environment,
            seed_nodes: texts(self.seed_nodes@),
            notes: opt_text(self.notes),
        }
    }
}

impl TrustAnchorEntry {
    /// A field-for-field copy.
    pub fn duplicate(&self) -> (r: TrustAnchorEntry)
        ensures
            r@ == self@,
    {
        TrustAnchorEntry {
            label: owned(self.label.as_str()),
            network_id: owned(self.network_id.as_str()),
            verify_key: owned(self.verify_key.as_str()),
            signing_key_id: owned(self.signing_key_id.as_str()),
            server_url: copy_opt(&self.server_url),
            environment: self.environment,
            seed_nodes: copy_strings(&self.seed_nodes),
            notes: copy_opt(&self.notes),
        }
    }
}

/// Which of four states a server's claimed network is in. Only `Verified`
/// means "connected to the real network".
#[derive(Debug, Clone, PartialEq, Eq)]
pub enum NetworkTrustStatus {
    /// The claimed network is pinned and the Signed Tree Head verifies.
    Verified {
        /// The pinned entry the Signed Tree Head verified against.
        entry: TrustAnchorEntry,
    },
    /// The claimed network is pinned, but the signature does not verify
    /// under its pinned key: the impostor case.
    Mismatch {
        /// The pinned entry for the claimed network.
        entry: TrustAnchorEntry,
        /// The network id the server claimed.
        claimed_network_id: String,
    },
    /// The claimed network is not in the published list at all.
    UnknownNetwork {
        /// The network id the server claimed.
        claimed_network_id: String,
    },
    /// Fetching or parsing the server's Signed Tree Head failed.
    Unreachable {
        /// What went wrong.
        detail: String,
    },
}

/// The index of the first anchor pinning `network_id`, if any.
pub open spec fn first_anchor_for(anchors: Seq<TrustAnchorEntry>, network_id: Seq<char>) -> Option<int>
    decreases anchors.len(),
{
    if anchors.len() == 0 {
        None
    } else {
        match first_anchor_for(anchors.drop_last(), network_id) {
            Some(i) => Some(i),
            None => if anchors.last().network_id@ == network_id {
                Some(anchors.len() - 1)
            } else {
                None
            },
        }
    }
}

/// `first_anchor_for` finds the first index whose network id matches.
pub proof fn lemma_first_anchor_for(anchors: Seq<TrustAnchorEntry>, network_id: Seq<char>)
    ensures
        first_anchor_for(anchors, network_id) matches Some(i) ==> 0 <= i < anchors.len()
            && anchors[i].network_id@ == network_id
            && forall|j: int| 0 <= j < i ==> anchors[j].network_id@ != network_id,
        first_anchor_for(anchors, network_id) is None ==> forall|j: int|
            0 <= j < anchors.len() ==> anchors[j].network_id@ != network_id,
    decreases anchors.len(),
{
    if anchors.len() > 0 {
        lemma_first_anchor_for(anchors.drop_last(), network_id);
        assert forall|j: int| 0 <= j < anchors.len() - 1 implies anchors.drop_last()[j] == anchors[j] by {}
    }
}

/// The 32-byte public key a pinned hex text stands for; nothing when it is
/// not hex or not 32 bytes long.
pub open spec fn pinned_key(verify_key_hex: Seq<char>) -> Option<Seq<u8>> {
    match hex_decoded(verify_key_hex) {
        Some(b) => if b.len() == 32 { Some(b) } else { None },
        None => None,
    }
}

/// Whether a tree head whose signed bytes are `signed` carries a valid
/// signature under the pinned hex key; `false` for a malformed key.
pub open spec fn tree_head_valid(verify_key_hex: Seq<char>, signed: Seq<u8>, signature: Seq<u8>) -> bool {
    match pinned_key(verify_key_hex) {
        Some(k) => ed25519_verifies(k, signed, signature),
        None => false,
    }
}

/// The public key of a pinned hex text: lowercase or uppercase hex of
/// exactly 32 bytes; `None` otherwise.
pub fn pinned_verify_key(verify_key_hex: &str) -> (r: Option<[u8; 32]>)
    ensures
        match r {
            Some(k) => pinned_key(verify_key_hex@) == Some(k@),
            None => pinned_key(verify_key_hex@) is None,
        },
{
    match hex_decode(verify_key_hex) {
        Some(bytes) => {
            if bytes.len() != 32 {
                return None;
            }
            let mut key = [0u8; 32];
            let mut i: usize = 0;
            while i < 32
                invariant
                    bytes@.len() == 32,
                    i <= 32,
                    key@.len() == 32,
                    forall|j: int| 0 <= j < i ==> key@[j] == bytes@[j],
                decreases 32 - i,
            {
                key[i] = bytes[i];
                i = i + 1;
            }
            proof {
                assert(key@ =~= bytes@);
            }
            Some(key)
        },
        None => None,
    }
}

/// Whether a Signed Tree Head verifies under a pinned hex key: `false` for
/// a key that is not 32 bytes of hex, and otherwise whether `signature` is
/// a valid Ed25519 signature of the tree head's signed bytes. Never panics.
pub fn tree_head_verifies(verify_key_hex: &str, signed_bytes: &[u8], signature: &[u8; 64]) -> (r: bool)
    ensures
        r == tree_head_valid(verify_key_hex@, signed_bytes@, signature@),
{
    match pinned_verify_key(verify_key_hex) {
        Some(key) => verify_signature(&key, signed_bytes, signature),
        None => false,
    }
}

/// Whether a tree head's signature (none when its text did not decode to
/// 64 bytes) verifies under a pinned hex key.
pub open spec fn signature_valid(verify_key_hex: Seq<char>, signed: Seq<u8>, signature: Option<[u8; 64]>) -> bool {
    match signature {
        Some(sig) => tree_head_valid(verify_key_hex, signed, sig@),
        None => false,
    }
}

/// The trust status a Signed Tree Head claiming `claimed`, with signed
/// bytes `signed` and signature `signature`, earns against `anchors`:
/// unknown if nothing pins the claimed network, otherwise verified or
/// mismatched by whether it verifies under the first entry pinning it.
pub open spec fn trust_status_of(
    anchors: Seq<TrustAnchorEntry>,
    claimed: Seq<char>,
    signed: Seq<u8>,
    signature: Option<[u8; 64]>,
    status: NetworkTrustStatus,
) -> bool {
    match first_anchor_for(anchors, claimed) {
        None => status matches NetworkTrustStatus::UnknownNetwork { claimed_network_id }
            && claimed_network_id@ == claimed,
        Some(i) => if signature_valid(anchors[i].verify_key@, signed, signature) {
            status matches NetworkTrustStatus::Verified { entry } && entry@ == anchors[i]@
        } else {
            status matches NetworkTrustStatus::Mismatch { entry, claimed_network_id }
                && entry@ == anchors[i]@ && claimed_network_id@ == claimed
        },
    }
}

/// Decides which of the first three trust states applies to a Signed Tree
/// Head that claims `claimed_network_id`, whose signed bytes are
/// `signed_bytes` and whose signature is `signature` (none when its text
/// did not decode to 64 bytes, which verifies under no key): it is checked
/// under the key of the first anchor pinning the claimed network.
pub fn evaluate_network_trust(
    anchors: &Vec<TrustAnchorEntry>,
    claimed_network_id: String,
    signed_bytes: &[u8],
    signature: &Option<[u8; 64]>,
) -> (r: NetworkTrustStatus)
    ensures
        trust_status_of(anchors@, claimed_network_id@, signed_bytes@, *signature, r),
{
    let mut i: usize = 0;
    proof {
        lemma_first_anchor_for(anchors@, claimed_network_id@);
    }
    while i < anchors.len()
        invariant
            i <= anchors@.len(),
            forall|j: int| 0 <= j < i ==> anchors@[j].network_id@ != claimed_network_id@,
        decreases anchors@.len() - i,
    {
        if crate::text::str_eq(anchors[i].network_id.as_str(), claimed_network_id.as_str()) {
            proof {
                lemma_first_anchor_for(anchors@, claimed_network_id@);
                let f = first_anchor_for(anchors@, claimed_network_id@);
                assert(f == Some(i as int)) by {
                    if let Some(k) = f {
                        if k < i {
                        } else if k > i {
                        }
                    }
                }
            }
            let entry = anchors[i].duplicate();
            let verifies = match signature {
                Some(sig) => tree_head_verifies(anchors[i].verify_key.as_str(), signed_bytes, sig),
                None => false,
            };
            if verifies {
                return NetworkTrustStatus::Verified { entry };
            } else {
                return NetworkTrustStatus::Mismatch { entry, claimed_network_id };
            }
        }
        i = i + 1;
    }
    NetworkTrustStatus::UnknownNetwork { claimed_network_id }
}

/// One of the three real deployment tiers a caller can declare intent for
/// without spelling out an exact network id. `LocalDev` is deliberately not
/// one of them: a caller targeting it declares its exact network id.
#[derive(Debug, Clone, Copy, PartialEq, Eq, Structural)]
pub enum TargetNetworkTier {
    /// A real, non-production, single-node deployment.
    Dev,
    /// A real, non-production, interconnected test bed.
    Int,
    /// The real mainnet deployment.
    Mainnet,
}

impl TargetNetworkTier {
    /// Whether this tier names the deployment tier `environment`.
    pub open spec fn names(self, environment: NetworkEnvironment) -> bool {
        ||| self == TargetNetworkTier::Dev && environment == NetworkEnvironment::Dev
        ||| self == TargetNetworkTier::Int && environment == NetworkEnvironment::Int
        ||| self == TargetNetworkTier::Mainnet && environment == NetworkEnvironment::Prod
    }

    /// The tier's name as printed.
    pub open spec fn label_text(self) -> Seq<char> {
        match self {
            TargetNetworkTier::Dev => "dev"@,
            TargetNetworkTier::Int => "int"@,
            TargetNetworkTier::Mainnet => "mainnet"@,
        }
    }

    /// Whether this tier names the deployment tier `environment`.
    pub fn matches(self, environment: NetworkEnvironment) -> (r: bool)
        ensures
            r == self.names(environment),
    {
        match (self, environment) {
            (TargetNetworkTier::Dev, NetworkEnvironment::Dev) => true,
            (TargetNetworkTier::Int, NetworkEnvironment::Int) => true,
            (TargetNetworkTier::Mainnet, NetworkEnvironment::Prod) => true,
            _ => false,
        }
    }

    /// The tier's name as printed.
    pub fn label(&self) -> (r: &'static str)
        ensures
            r@ == self.label_text(),
    {
        match self {
            TargetNetworkTier::Dev => "dev",
            TargetNetworkTier::Int => "int",
            TargetNetworkTier::Mainnet => "mainnet",
        }
    }
}

/// The network a caller must explicitly declare intent for before a write
/// gated by network identity. No default is ever inferred from a server
/// URL.
#[derive(Debug, Clone, PartialEq, Eq)]
pub enum TargetNetwork {
    /// The exact network id the caller expects the server to be.
    NetworkId(String),
    /// A deployment-tier shorthand, resolved against the verified entry's
    /// environment.
    Env(TargetNetworkTier),
}

impl TargetNetwork {
    /// Whether a trust anchor is the network this target declares.
    pub open spec fn admits(&self, entry: AnchorView) -> bool {
        match self {
            TargetNetwork::NetworkId(expected) => entry.network_id == expected@,
            TargetNetwork::Env(tier) => tier.names(entry.environment),
        }
    }

    /// How the declared target prints.
    pub open spec fn text(&self) -> Seq<char> {
        match self {
            TargetNetwork::NetworkId(id) => id@,
            TargetNetwork::Env(tier) => tier.label_text() + " (declared by tier)"@,
        }
    }

    /// Whether a trust anchor is the network this target declares.
    pub fn admits_entry(&self, entry: &TrustAnchorEntry) -> (r: bool)
        ensures
            r == self.admits(entry@),
    {
        match self {
            TargetNetwork::NetworkId(expected) => crate::text::str_eq(
                entry.network_id.as_str(),
                expected.as_str(),
            ),
            TargetNetwork::Env(tier) => tier.matches(entry.environment),
        }
    }

    /// How the declared target prints.
    pub fn to_text(&self) -> (r: String)
        ensures
            r@ == self.text(),
    {
        match self {
            TargetNetwork::NetworkId(id) => owned(id.as_str()),
            TargetNetwork::Env(tier) => {
                let mut s = owned(tier.label());
                push_str(&mut s, " (declared by tier)");
                s
            },
        }
    }
}

/// Why a declared target failed [`check_target_network`]: never a silent
/// proceed.
#[derive(Debug, Clone, PartialEq, Eq)]
pub enum NetworkTargetError {
    /// The server's network was verified, but it is not the declared one.
    Mismatch {
        /// What the caller declared.
        declared: String,
        /// The network id the server verifiably is.
        actual: String,
    },
    /// The server's network could not be verified at all, so there is
    /// nothing to compare the declaration with.
    Unverified {
        /// Why verification did not succeed.
        reason: String,
    },
}

impl NetworkTargetError {
    /// The human-readable text of this error.
    pub open spec fn text(&self) -> Seq<char> {
        match self {
            NetworkTargetError::Mismatch { declared, actual } => "declared target network "@
                + declared@ + " does not match the server's verified network "@ + actual@,
            NetworkTargetError::Unverified { reason } =>
                "server's network could not be independently verified: "@ + reason@,
        }
    }

    /// The human-readable text of this error.
    pub fn message(&self) -> (r: String)
        ensures
            r@ == self.text(),
    {
        match self {
            NetworkTargetError::Mismatch { declared, actual } => {
                let mut s = owned("declared target network ");
                push_str(&mut s, declared.as_str());
                push_str(&mut s, " does not match the server's verified network ");
                push_str(&mut s, actual.as_str());
                s
            },
            NetworkTargetError::Unverified { reason } => {
                let mut s = owned("server's network could not be independently verified: ");
                push_str(&mut s, reason.as_str());
                s
            },
        }
    }
}

/// Why a status that is not `Verified` cannot be checked against a target.
pub open spec fn unverified_reason(status: NetworkTrustStatus) -> Seq<char> {
    match status {
        NetworkTrustStatus::Mismatch { claimed_network_id, .. } =>
            "the server's STH does not verify against the pinned key for "@ + claimed_network_id@,
        NetworkTrustStatus::UnknownNetwork { claimed_network_id } => claimed_network_id@
            + " is not a pinned/known network"@,
        NetworkTrustStatus::Unreachable { detail } => detail@,
        NetworkTrustStatus::Verified { .. } => Seq::empty(),
    }
}

/// What [`check_target_network`] answers: the verified entry when the
/// server verified and is the declared network, `Mismatch` when it verified
/// as another network, `Unverified` whenever it did not verify.
pub open spec fn target_check(status: NetworkTrustStatus, target: TargetNetwork, r: Result<TrustAnchorEntry, NetworkTargetError>) -> bool {
    match status {
        NetworkTrustStatus::Verified { entry } => if target.admits(entry@) {
            r == Ok::<TrustAnchorEntry, NetworkTargetError>(entry)
        } else {
            r matches Err(NetworkTargetError::Mismatch { declared, actual })
                && declared@ == target.text() && actual@ == entry.network_id@
        },
        _ => r matches Err(NetworkTargetError::Unverified { reason })
            && reason@ == unverified_reason(status),
    }
}

/// Each deployment tier names exactly one environment, and distinct tiers
/// name distinct ones: `mainnet` only production, `int` only the
/// interconnected test bed, `dev` only the single-node deployment, and
/// none the local placeholder network.
pub proof fn lemma_each_tier_names_one_environment(t: TargetNetworkTier, u: TargetNetworkTier, e1: NetworkEnvironment, e2: NetworkEnvironment)
    ensures
        TargetNetworkTier::Mainnet.names(e1) <==> e1 == NetworkEnvironment::Prod,
        TargetNetworkTier::Int.names(e1) <==> e1 == NetworkEnvironment::Int,
        TargetNetworkTier::Dev.names(e1) <==> e1 == NetworkEnvironment::Dev,
        !t.names(NetworkEnvironment::LocalDev),
        t.names(e1) && t.names(e2) ==> e1 == e2,
        t.names(e1) && u.names(e1) ==> t == u,
        exists|e: NetworkEnvironment| #[trigger] t.names(e),
{
    match t {
        TargetNetworkTier::Dev => assert(t.names(NetworkEnvironment::Dev)),
        TargetNetworkTier::Int => assert(t.names(NetworkEnvironment::Int)),
        TargetNetworkTier::Mainnet => assert(t.names(NetworkEnvironment::Prod)),
    }
}

/// A target declared by tier proceeds only against a verified server whose
/// verified entry is of that tier's environment: declaring `mainnet`
/// never proceeds against a test bed or a development network.
pub proof fn lemma_tier_targets_need_their_environment(
    status: NetworkTrustStatus,
    tier: TargetNetworkTier,
    r: Result<TrustAnchorEntry, NetworkTargetError>,
)
    requires
        target_check(status, TargetNetwork::Env(tier), r),
    ensures
        r matches Ok(entry) ==> status is Verified && (match tier {
            TargetNetworkTier::Mainnet => entry.environment == NetworkEnvironment::Prod,
            TargetNetworkTier::Int => entry.environment == NetworkEnvironment::Int,
            TargetNetworkTier::Dev => entry.environment == NetworkEnvironment::Dev,
        }),
        status matches NetworkTrustStatus::Verified { entry } ==> (r is Ok <==> match tier {
            TargetNetworkTier::Mainnet => entry.environment == NetworkEnvironment::Prod,
            TargetNetworkTier::Int => entry.environment == NetworkEnvironment::Int,
            TargetNetworkTier::Dev => entry.environment == NetworkEnvironment::Dev,
        }),
{
}

/// A declared target only ever proceeds against a server whose status is
/// `Verified` and whose verified entry is what was declared; returns that
/// entry so the caller can read back the network id it confirmed.
pub fn check_target_network<'a>(status: &'a NetworkTrustStatus, target: &TargetNetwork) -> (r: Result<&'a TrustAnchorEntry, NetworkTargetError>)
    ensures
        target_check(*status, *target, match r {
            Ok(e) => Ok(*e),
            Err(e) => Err(e),
        }),
{
    let entry = match status {
        NetworkTrustStatus::Verified { entry } => entry,
        NetworkTrustStatus::Mismatch { claimed_network_id, .. } => {
            let mut reason = owned("the server's STH does not verify against the pinned key for ");
            push_str(&mut reason, claimed_network_id.as_str());
            return Err(NetworkTargetError::Unverified { reason });
        },
        NetworkTrustStatus::UnknownNetwork { claimed_network_id } => {
            let mut reason = owned(claimed_network_id.as_str());
            push_str(&mut reason, " is not a pinned/known network");
            return Err(NetworkTargetError::Unverified { reason });
        },
        NetworkTrustStatus::Unreachable { detail } => {
            return Err(NetworkTargetError::Unverified { reason: owned(detail.as_str()) });
        },
    };
    if target.admits_entry(entry) {
        Ok(entry)
    } else {
        Err(NetworkTargetError::Mismatch {
            declared: target.to_text(),
            actual: owned(entry.network_id.as_str()),
        })
    }
}

/// Everything connecting through discovery needs besides the server URL,
/// which discovery supplies.
pub struct DiscoveryConfig {
    /// This integrator's own registered credential key id.
    pub integrator_credential_key_id: String,
    /// This integrator's own registered slug, if it issues claims.
    pub integrator_slug: Option<String>,
    /// This integrator's 32-byte Ed25519 signing-key seed, if it issues.
    pub signing_key: Option<[u8; 32]>,
    /// Retry and timeout tuning.
    pub retry: RetryConfig,
}

/// Why discovery could not resolve a target to a live, verified server.
#[derive(Debug, Clone, PartialEq, Eq)]
pub enum DiscoveryError {
    /// No published trust anchor matches the target at all.
    NoCandidates {
        /// The target that had no matching entry.
        target: String,
    },
    /// The published trust-anchor list could not be fetched.
    TrustAnchorsUnavailable {
        /// Why the fetch failed.
        detail: String,
    },
    /// Candidates were tried, but none verified as the target.
    NoneVerified {
        /// The target none of the candidates satisfied.
        target: String,
        /// `(candidate URL, outcome)` for every URL tried.
        attempts: Vec<(String, String)>,
    },
}

/// Bounds on the latency ranking among verified candidates. Durations are
/// in milliseconds.
#[derive(Debug, Clone, Copy, PartialEq, Eq, Structural)]
pub struct RankConfig {
    /// At most this many verified candidates are collected and timed.
    pub max_timed: usize,
    /// Timeout of each timing request.
    pub probe_timeout_ms: u64,
    /// How long verification continues after the first candidate verifies.
    pub collect_window_ms: u64,
}

impl Default for RankConfig {
    fn default() -> (r: RankConfig)
        ensures
            r == (RankConfig { max_timed: 5, probe_timeout_ms: 2000, collect_window_ms: 2000 }),
    {
        RankConfig { max_timed: 5, probe_timeout_ms: 2000, collect_window_ms: 2000 }
    }
}

/// A verified candidate and its measured round trip in nanoseconds;
/// `None` when it was not measured or the probe failed.
#[derive(Debug, Clone, PartialEq, Eq)]
pub struct VerifiedCandidate {
    /// The candidate's base URL.
    pub server_url: String,
    /// The measured round trip, if any.
    pub latency_ns: Option<u64>,
}

/// The outcome of a ranked discovery.
#[derive(Debug, Clone, PartialEq, Eq)]
pub struct Discovered {
    /// The selected server.
    pub server_url: String,
    /// The pinned entry the selected server verified against.
    pub entry: TrustAnchorEntry,
    /// Every verified candidate in selection order: measured fastest
    /// first, then unmeasured ones in candidate order.
    pub verified: Vec<VerifiedCandidate>,
}

/// The URLs one trust anchor publishes: its server URL, then its seeds.
pub open spec fn entry_urls(e: AnchorView) -> Seq<Seq<char>> {
    match e.server_url {
        Some(u) => seq![u] + e.seed_nodes,
        None => e.seed_nodes,
    }
}

/// Every candidate URL for `target`, in list order: each matching entry's
/// server URL before its seed nodes.
pub open spec fn candidate_urls(anchors: Seq<TrustAnchorEntry>, target: TargetNetwork) -> Seq<Seq<char>>
    decreases anchors.len(),
{
    if anchors.len() == 0 {
        Seq::empty()
    } else {
        candidate_urls(anchors.drop_last(), target) + if target.admits(anchors.last()@) {
            entry_urls(anchors.last()@)
        } else {
            Seq::empty()
        }
    }
}

/// Every candidate URL for `target` from the published anchors, in the
/// order discovery tries them.
pub fn discovery_candidates(anchors: &Vec<TrustAnchorEntry>, target: &TargetNetwork) -> (r: Vec<String>)
    ensures
        texts(r@) == candidate_urls(anchors@, *target),
{
    let mut r: Vec<String> = Vec::new();
    let mut i: usize = 0;
    while i < anchors.len()
        invariant
            i <= anchors@.len(),
            texts(r@) == candidate_urls(anchors@.subrange(0, i as int), *target),
        decreases anchors@.len() - i,
    {
        let ghost before = r@;
        let entry = &anchors[i];
        if target.admits_entry(entry) {
            match &entry.server_url {
                Some(u) => r.push(owned(u.as_str())),
                None => {},
            }
            let mut j: usize = 0;
            let ghost mid = r@;
            while j < entry.seed_nodes.len()
                invariant
                    j <= entry.seed_nodes@.len(),
                    r@.len() == mid.len() + j,
                    forall|k: int| 0 <= k < mid.len() ==> r@[k] == mid[k],
                    forall|k: int| 0 <= k < j ==> r@[mid.len() + k]@ == entry.seed_nodes@[k]@,
                decreases entry.seed_nodes@.len() - j,
            {
                r.push(owned(entry.seed_nodes[j].as_str()));
                j = j + 1;
            }
            proof {
                let eu = entry_urls(entry@);
                assert(texts(mid) =~= texts(before) + match entry@.server_url {
                    Some(u) => seq![u],
                    None => Seq::<Seq<char>>::empty(),
                });
                assert(texts(r@) =~= texts(mid) + texts(entry.seed_nodes@));
                assert(texts(r@) =~= texts(before) + eu);
            }
        }
        proof {
            let sub = anchors@.subrange(0, i + 1);
            assert(sub.drop_last() =~= anchors@.subrange(0, i as int));
            assert(sub.last() == anchors@[i as int]);
        }
        i = i + 1;
    }
    proof {
        assert(anchors@.subrange(0, anchors@.len() as int) =~= anchors@);
    }
    r
}

/// Whether round trip `a` ranks strictly ahead of `b`: any measured round
/// trip before an unmeasured one, a faster one before a slower one.
pub open spec fn faster(a: Option<u64>, b: Option<u64>) -> bool {
    match (a, b) {
        (Some(x), Some(y)) => x < y,
        (Some(_), None) => true,
        _ => false,
    }
}

/// Candidate `i` goes before candidate `j`: it is faster, or neither is
/// faster and it came first.
pub open spec fn ranks_before(keys: Seq<Option<u64>>, i: int, j: int) -> bool {
    faster(keys[i], keys[j]) || (!faster(keys[j], keys[i]) && i < j)
}

/// `order` lists every candidate index once, in ranking order.
pub open spec fn is_ranking(keys: Seq<Option<u64>>, order: Seq<usize>) -> bool {
    &&& order.len() == keys.len()
    &&& forall|a: int| 0 <= a < order.len() ==> order[a] < keys.len()
    &&& forall|a: int, b: int| 0 <= a < b < order.len() ==> ranks_before(keys, order[a] as int, order[b] as int)
    &&& forall|j: int| 0 <= j < keys.len() ==> #[trigger] order.contains(j as usize)
}

/// Ranks candidates by measured round trip: measured fastest first, then
/// unmeasured ones; ties keep candidate order.
pub fn rank_by_latency(keys: &Vec<Option<u64>>) -> (order: Vec<usize>)
    ensures
        is_ranking(keys@, order@),
{
    let mut order: Vec<usize> = Vec::new();
    let mut i: usize = 0;
    while i < keys.len()
        invariant
            i <= keys@.len(),
            order@.len() == i,
            forall|a: int| 0 <= a < order@.len() ==> order@[a] < i,
            forall|a: int, b: int| 0 <= a < b < order@.len() ==> ranks_before(keys@, order@[a] as int, order@[b] as int),
            forall|j: int| 0 <= j < i ==> #[trigger] order@.contains(j as usize),
        decreases keys@.len() - i,
    {
        let ki = keys[i];
        let mut pos: usize = 0;
        while pos < order.len() && !latency_faster(ki, keys[order[pos]])
            invariant
                i < keys@.len(),
                ki == keys@[i as int],
                pos <= order@.len(),
                order@.len() == i,
                forall|a: int| 0 <= a < order@.len() ==> order@[a] < i,
                forall|a: int| 0 <= a < pos ==> !faster(ki, keys@[order@[a] as int]),
            decreases order@.len() - pos,
        {
            pos = pos + 1;
        }
        let ghost old_order = order@;
        proof {
            if pos < old_order.len() {
                assert forall|b: int| pos <= b < old_order.len() implies faster(ki, keys@[old_order[b] as int]) by {
                    if b > pos {
                        assert(ranks_before(keys@, old_order[pos as int] as int, old_order[b] as int));
                    }
                }
            }
        }
        order.insert(pos, i);
        proof {
            assert forall|a: int, b: int| 0 <= a < b < order@.len() implies ranks_before(keys@, order@[a] as int, order@[b] as int) by {
                if a < pos && b < pos {
                    assert(order@[a] == old_order[a] && order@[b] == old_order[b]);
                } else if a < pos && b == pos {
                    assert(order@[a] == old_order[a] && order@[b] == i);
                } else if a < pos && b > pos {
                    assert(order@[a] == old_order[a] && order@[b] == old_order[b - 1]);
                } else if a == pos {
                    assert(order@[a] == i && order@[b] == old_order[b - 1]);
                } else {
                    assert(order@[a] == old_order[a - 1] && order@[b] == old_order[b - 1]);
                }
            }
            assert forall|j: int| 0 <= j < i + 1 implies #[trigger] order@.contains(j as usize) by {
                if j == i {
                    assert(order@[pos as int] == i);
                } else {
                    assert(old_order.contains(j as usize));
                    let a = choose|a: int| 0 <= a < old_order.len() && old_order[a] == j as usize;
                    if a < pos {
                        assert(order@[a] == j as usize);
                    } else {
                        assert(order@[a + 1] == j as usize);
                    }
                }
            }
        }
        i = i + 1;
    }
    order
}

/// Whether round trip `a` ranks strictly ahead of `b`.
fn latency_faster(a: Option<u64>, b: Option<u64>) -> (r: bool)
    ensures
        r == faster(a, b),
{
    match (a, b) {
        (Some(x), Some(y)) => x < y,
        (Some(_), None) => true,
        _ => false,
    }
}

/// The verified and failed candidates seen so far by a discovery run.
pub struct DiscoveryProgress {
    /// `(candidate URL, entry it verified against)`, in candidate order.
    pub verified: Vec<(String, TrustAnchorEntry)>,
    /// `(candidate URL, why it did not verify as the target)`.
    pub attempts: Vec<(String, String)>,
    /// Whether any candidate was tried at all.
    pub tried_any: bool,
}

impl DiscoveryProgress {
    /// Nothing tried yet.
    pub fn new() -> (p: DiscoveryProgress)
        ensures
            p.verified@.len() == 0,
            p.attempts@.len() == 0,
            !p.tried_any,
    {
        DiscoveryProgress { verified: Vec::new(), attempts: Vec::new(), tried_any: false }
    }

    /// Whether another candidate may still be tried: at most `max_timed`
    /// candidates are collected.
    pub fn wants_more(&self, rank: &RankConfig) -> (r: bool)
        ensures
            r == (self.verified@.len() < rank.max_timed),
    {
        self.verified.len() < rank.max_timed
    }

    /// A candidate is about to be tried.
    pub fn begin_attempt(&mut self)
        ensures
            final(self).tried_any,
            final(self).verified@ == old(self).verified@,
            final(self).attempts@ == old(self).attempts@,
    {
        self.tried_any = true;
    }

    /// Records the trust status a candidate answered with: it joins the
    /// verified candidates when it verified as the target, otherwise its
    /// refusal is kept among the attempts.
    pub fn record(&mut self, candidate: String, status: &NetworkTrustStatus, target: &TargetNetwork)
        ensures
            final(self).tried_any == old(self).tried_any,
            match check_result(*status, *target) {
                Ok(entry) => {
                    &&& final(self).verified@.len() == old(self).verified@.len() + 1
                    &&& final(self).verified@.drop_last() == old(self).verified@
                    &&& final(self).verified@.last().0@ == candidate@
                    &&& final(self).verified@.last().1@ == entry@
                    &&& final(self).attempts@ == old(self).attempts@
                },
                Err(err) => {
                    &&& final(self).verified@ == old(self).verified@
                    &&& final(self).attempts@.len() == old(self).attempts@.len() + 1
                    &&& final(self).attempts@.drop_last() == old(self).attempts@
                    &&& final(self).attempts@.last().0@ == candidate@
                    &&& final(self).attempts@.last().1@ == err.text()
                },
            },
    {
        match check_target_network(status, target) {
            Ok(entry) => {
                let e = entry.duplicate();
                self.verified.push((candidate, e));
                proof {
                    assert(self.verified@.drop_last() =~= old(self).verified@);
                }
            },
            Err(err) => {
                let m = err.message();
                self.attempts.push((candidate, m));
                proof {
                    assert(self.attempts@.drop_last() =~= old(self).attempts@);
                }
            },
        }
    }
}

/// The answer of [`check_target_network`], as a plain value.
pub open spec fn check_result(status: NetworkTrustStatus, target: TargetNetwork) -> Result<TrustAnchorEntry, NetworkTargetError> {
    choose|r: Result<TrustAnchorEntry, NetworkTargetError>| target_check(status, target, r)
}

/// The outcome discovery settles on from what it collected: no candidates
/// at all, none verified, or the verified candidates in ranking order with
/// the first selected. A single verified candidate is selected without
/// timing it; `latencies[i]` is the measured round trip of `verified[i]`
/// otherwise.
pub open spec fn discovery_outcome(
    verified: Seq<(String, TrustAnchorEntry)>,
    attempts: Seq<(String, String)>,
    tried_any: bool,
    target: TargetNetwork,
    latencies: Seq<Option<u64>>,
    r: Result<Discovered, DiscoveryError>,
) -> bool {
    if verified.len() == 0 {
        if !tried_any {
            r matches Err(DiscoveryError::NoCandidates { target: t }) && t@ == target.text()
        } else {
            r matches Err(DiscoveryError::NoneVerified { target: t, attempts: a })
                && t@ == target.text() && a@ == attempts
        }
    } else if verified.len() == 1 {
        r matches Ok(d) && d.server_url@ == verified[0].0@ && d.entry@ == verified[0].1@
            && d.verified@.len() == 1 && d.verified@[0].server_url@ == verified[0].0@
            && d.verified@[0].latency_ns is None
    } else {
        r matches Ok(d) && exists|order: Seq<usize>| #[trigger] is_ranking(latencies, order)
            && d.server_url@ == verified[order[0] as int].0@
            && d.entry@ == verified[order[0] as int].1@
            && d.verified@.len() == verified.len()
            && forall|k: int| 0 <= k < verified.len() ==> {
                &&& (#[trigger] d.verified@[k]).server_url@ == verified[order[k] as int].0@
                &&& d.verified@[k].latency_ns == latencies[order[k] as int]
            }
    }
}

impl DiscoveryProgress {
    /// Settles the discovery outcome. `latencies` holds the measured round
    /// trip of each verified candidate; it is read only when two or more
    /// verified.
    pub fn finish(self, target: &TargetNetwork, latencies: &Vec<Option<u64>>) -> (r: Result<Discovered, DiscoveryError>)
        requires
            self.verified@.len() >= 2 ==> latencies@.len() == self.verified@.len(),
        ensures
            discovery_outcome(self.verified@, self.attempts@, self.tried_any, *target, latencies@, r),
    {
        let n = self.verified.len();
        if n == 0 {
            if !self.tried_any {
                return Err(DiscoveryError::NoCandidates { target: target.to_text() });
            } else {
                return Err(DiscoveryError::NoneVerified { target: target.to_text(), attempts: self.attempts });
            }
        }
        if n == 1 {
            let url = owned(self.verified[0].0.as_str());
            let entry = self.verified[0].1.duplicate();
            let mut summary: Vec<VerifiedCandidate> = Vec::new();
            summary.push(VerifiedCandidate { server_url: owned(self.verified[0].0.as_str()), latency_ns: None });
            return Ok(Discovered { server_url: url, entry, verified: summary });
        }
        let order = rank_by_latency(latencies);
        let mut summary: Vec<VerifiedCandidate> = Vec::new();
        let mut k: usize = 0;
        while k < n
            invariant
                n == self.verified@.len(),
                latencies@.len() == n,
                is_ranking(latencies@, order@),
                k <= n,
                summary@.len() == k,
                forall|j: int| 0 <= j < k ==> {
                    &&& (#[trigger] summary@[j]).server_url@ == self.verified@[order@[j] as int].0@
                    &&& summary@[j].latency_ns == latencies@[order@[j] as int]
                },
            decreases n - k,
        {
            let idx = order[k];
            summary.push(VerifiedCandidate {
                server_url: owned(self.verified[idx].0.as_str()),
                latency_ns: latencies[idx],
            });
            k = k + 1;
        }
        let first = order[0];
        let url = owned(self.verified[first].0.as_str());
        let entry = self.verified[first].1.duplicate();
        let r = Discovered { server_url: url, entry, verified: summary };
        proof {
            assert(is_ranking(latencies@, order@));
        }
        Ok(r)
    }
}

/// A declared target only ever proceeds against a verified server whose
/// verified entry is what was declared, and then yields that very entry.
pub proof fn lemma_only_verified_networks_proceed(status: NetworkTrustStatus, target: TargetNetwork, entry: TrustAnchorEntry)
    requires
        target_check(status, target, Ok(entry)),
    ensures
        status == (NetworkTrustStatus::Verified { entry }),
        target.admits(entry@),
{
}

/// Discovery never contacts an unpinned host: every candidate URL is the
/// server URL or a seed node of a published entry that matches the target.
pub proof fn lemma_candidates_are_pinned(anchors: Seq<TrustAnchorEntry>, target: TargetNetwork, k: int)
    requires
        0 <= k < candidate_urls(anchors, target).len(),
    ensures
        exists|i: int| 0 <= i < anchors.len() && target.admits(anchors[i]@)
            && #[trigger] entry_urls(anchors[i]@).contains(candidate_urls(anchors, target)[k]),
    decreases anchors.len(),
{
    let prefix = candidate_urls(anchors.drop_last(), target);
    let last = anchors.len() - 1;
    if k < prefix.len() {
        lemma_candidates_are_pinned(anchors.drop_last(), target, k);
        let i = choose|i: int| 0 <= i < anchors.drop_last().len() && target.admits(anchors.drop_last()[i]@)
            && #[trigger] entry_urls(anchors.drop_last()[i]@).contains(candidate_urls(anchors.drop_last(), target)[k]);
        assert(anchors[i] == anchors.drop_last()[i]);
        assert(candidate_urls(anchors, target)[k] == prefix[k]);
    } else {
        assert(target.admits(anchors[last]@));
        let u = candidate_urls(anchors, target)[k];
        assert(u == entry_urls(anchors[last]@)[k - prefix.len()]);
        assert(entry_urls(anchors[last]@).contains(u));
    }
}

/// The selected candidate is one no other verified candidate beats: none
/// was measured faster, so it is unmeasured only when none was measured.
pub proof fn lemma_fastest_is_selected(keys: Seq<Option<u64>>, order: Seq<usize>, j: usize)
    requires
        is_ranking(keys, order),
        j < keys.len(),
    ensures
        !faster(keys[j as int], keys[order[0] as int]),
{
    assert(order.contains((j as int) as usize));
    let b = choose|b: int| 0 <= b < order.len() && order[b] == j;
    if b > 0 {
        assert(ranks_before(keys, order[0] as int, order[b] as int));
    }
}

} // verus!
