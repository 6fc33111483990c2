use avalon_sdk::network::{
    check_target_network, discovery_candidates, evaluate_network_trust, rank_by_latency, DiscoveryError,
    DiscoveryProgress, NetworkEnvironment, NetworkTargetError, NetworkTrustStatus, RankConfig, TargetNetwork,
    TargetNetworkTier, TrustAnchorEntry, pinned_verify_key, tree_head_verifies,
};
use ed25519_dalek::{Signer, SigningKey};

fn entry(network_id: &str, environment: NetworkEnvironment) -> TrustAnchorEntry {
    TrustAnchorEntry {
        label: network_id.to_string(),
        network_id: network_id.to_string(),
        verify_key: "ab".repeat(32),
        signing_key_id: "test-key".to_string(),
        server_url: None,
        environment,
        seed_nodes: Vec::new(),
        notes: None,
    }
}

fn verified_dev(network_id: &str) -> NetworkTrustStatus {
    NetworkTrustStatus::Verified { entry: entry(network_id, NetworkEnvironment::Dev) }
}

#[test]
fn check_target_network_proceeds_when_the_declared_network_id_matches() {
    let status = verified_dev("avalon-dev-1");
    let target = TargetNetwork::NetworkId("avalon-dev-1".to_string());
    assert_eq!(check_target_network(&status, &target).unwrap().network_id, "avalon-dev-1");
}

#[test]
fn check_target_network_proceeds_when_the_declared_tier_matches() {
    let status = verified_dev("avalon-dev-1");
    let target = TargetNetwork::Env(TargetNetworkTier::Dev);
    assert!(check_target_network(&status, &target).is_ok());
}

#[test]
fn check_target_network_rejects_a_mismatched_network_id() {
    let status = verified_dev("avalon-dev-1");
    let target = TargetNetwork::NetworkId("avalon-mainnet-1".to_string());
    assert_eq!(
        check_target_network(&status, &target).unwrap_err(),
        NetworkTargetError::Mismatch {
            declared: "avalon-mainnet-1".to_string(),
            actual: "avalon-dev-1".to_string(),
        }
    );
}

#[test]
fn check_target_network_rejects_a_mismatched_tier() {
    let status = verified_dev("avalon-dev-1");
    let target = TargetNetwork::Env(TargetNetworkTier::Mainnet);
    assert!(matches!(
        check_target_network(&status, &target),
        Err(NetworkTargetError::Mismatch { .. })
    ));
}

#[test]
fn check_target_network_never_proceeds_against_an_unverified_network() {
    let target = TargetNetwork::NetworkId("avalon-dev-1".to_string());

    let unknown = NetworkTrustStatus::UnknownNetwork { claimed_network_id: "avalon-dev-1".to_string() };
    assert!(matches!(
        check_target_network(&unknown, &target),
        Err(NetworkTargetError::Unverified { .. })
    ));

    let unreachable = NetworkTrustStatus::Unreachable { detail: "connection refused".to_string() };
    assert!(matches!(
        check_target_network(&unreachable, &target),
        Err(NetworkTargetError::Unverified { .. })
    ));

    let mismatch = NetworkTrustStatus::Mismatch {
        entry: match verified_dev("avalon-dev-1") {
            NetworkTrustStatus::Verified { entry } => entry,
            _ => unreachable!(),
        },
        claimed_network_id: "avalon-dev-1".to_string(),
    };
    assert!(matches!(
        check_target_network(&mismatch, &target),
        Err(NetworkTargetError::Unverified { .. })
    ));
}

#[test]
fn refusals_explain_themselves() {
    let target = TargetNetwork::Env(TargetNetworkTier::Mainnet);
    let err = check_target_network(&verified_dev("avalon-dev-1"), &target).unwrap_err();
    assert_eq!(
        err.message(),
        "declared target network mainnet (declared by tier) does not match the server's verified network avalon-dev-1"
    );
    let unknown = NetworkTrustStatus::UnknownNetwork { claimed_network_id: "x".to_string() };
    assert_eq!(
        check_target_network(&unknown, &target).unwrap_err().message(),
        "server's network could not be independently verified: x is not a pinned/known network"
    );
    let forged = NetworkTrustStatus::Mismatch { entry: entry("y", NetworkEnvironment::Prod), claimed_network_id: "y".to_string() };
    assert_eq!(
        check_target_network(&forged, &target).unwrap_err().message(),
        "server's network could not be independently verified: the server's STH does not verify against the pinned key for y"
    );
}

fn anchor(network_id: &str, verify_key_hex: String) -> TrustAnchorEntry {
    TrustAnchorEntry { verify_key: verify_key_hex, ..entry(network_id, NetworkEnvironment::LocalDev) }
}

fn key(seed: u8) -> SigningKey {
    SigningKey::from_bytes(&[seed; 32])
}

const TREE_HEAD: &[u8] = b"tree head 42 of avalon-test";

fn signed_by(k: &SigningKey, bytes: &[u8]) -> [u8; 64] {
    k.sign(bytes).to_bytes()
}

#[test]
fn valid_sth_against_its_pinned_key_verifies() {
    let signing_key = key(1);
    let anchors = vec![anchor("avalon-test", hex::encode(signing_key.verifying_key().to_bytes()))];
    let signature = signed_by(&signing_key, TREE_HEAD);
    let status = evaluate_network_trust(&anchors, "avalon-test".to_string(), TREE_HEAD, &Some(signature));
    assert_eq!(status, NetworkTrustStatus::Verified { entry: anchors[0].clone() });
}

#[test]
fn sth_signed_by_a_different_key_is_flagged_as_mismatch_not_silently_trusted() {
    let real_key = key(1);
    let impostor_key = key(2);
    let anchors = vec![anchor("avalon-test", hex::encode(real_key.verifying_key().to_bytes()))];
    let forged = signed_by(&impostor_key, TREE_HEAD);
    let status = evaluate_network_trust(&anchors, "avalon-test".to_string(), TREE_HEAD, &Some(forged));
    assert_eq!(
        status,
        NetworkTrustStatus::Mismatch { entry: anchors[0].clone(), claimed_network_id: "avalon-test".to_string() }
    );
}

#[test]
fn unpinned_network_id_reports_unknown_not_trusted_by_default() {
    let signature = signed_by(&key(1), TREE_HEAD);
    let status = evaluate_network_trust(&Vec::new(), "avalon-unpinned".to_string(), TREE_HEAD, &Some(signature));
    assert_eq!(status, NetworkTrustStatus::UnknownNetwork { claimed_network_id: "avalon-unpinned".to_string() });
}

#[test]
fn the_first_pinned_entry_decides() {
    let first = key(1);
    let second = key(2);
    let anchors = vec![
        anchor("other", hex::encode(second.verifying_key().to_bytes())),
        anchor("avalon-test", hex::encode(first.verifying_key().to_bytes())),
        anchor("avalon-test", hex::encode(second.verifying_key().to_bytes())),
    ];
    let signature = signed_by(&second, TREE_HEAD);
    let status = evaluate_network_trust(&anchors, "avalon-test".to_string(), TREE_HEAD, &Some(signature));
    assert_eq!(
        status,
        NetworkTrustStatus::Mismatch { entry: anchors[1].clone(), claimed_network_id: "avalon-test".to_string() }
    );
}

#[test]
fn an_undecodable_signature_verifies_under_no_key() {
    let k = key(1);
    let anchors = vec![anchor("avalon-test", hex::encode(k.verifying_key().to_bytes()))];
    let status = evaluate_network_trust(&anchors, "avalon-test".to_string(), TREE_HEAD, &None);
    assert_eq!(
        status,
        NetworkTrustStatus::Mismatch { entry: anchors[0].clone(), claimed_network_id: "avalon-test".to_string() }
    );
}

#[test]
fn pinned_keys_are_32_bytes_of_hex() {
    let k = key(3).verifying_key().to_bytes();
    assert_eq!(pinned_verify_key(&hex::encode(k)), Some(k));
    assert_eq!(pinned_verify_key(&hex::encode_upper(k)), Some(k));
    assert_eq!(pinned_verify_key(&"ab".repeat(31)), None);
    assert_eq!(pinned_verify_key(&"zz".repeat(32)), None);
    assert_eq!(pinned_verify_key(&"a".repeat(63)), None);
}

#[test]
fn tree_heads_verify_only_under_their_own_key() {
    let k = key(4);
    let hex_key = hex::encode(k.verifying_key().to_bytes());
    let signature = signed_by(&k, TREE_HEAD);
    assert!(tree_head_verifies(&hex_key, TREE_HEAD, &signature));
    assert!(!tree_head_verifies(&hex_key, b"another tree head", &signature));
    assert!(!tree_head_verifies(&hex::encode(key(5).verifying_key().to_bytes()), TREE_HEAD, &signature));
    assert!(!tree_head_verifies("not hex", TREE_HEAD, &signature));
}

#[test]
fn candidates_come_only_from_matching_entries_in_list_order() {
    let mut a = entry("avalon-test", NetworkEnvironment::Dev);
    a.server_url = Some("https://a.example".to_string());
    a.seed_nodes = vec!["https://seed1.example".to_string(), "https://seed2.example".to_string()];
    let mut b = entry("avalon-other", NetworkEnvironment::Dev);
    b.server_url = Some("https://b.example".to_string());
    let mut c = entry("avalon-test", NetworkEnvironment::Prod);
    c.seed_nodes = vec!["https://c.example".to_string()];
    let anchors = vec![a, b, c];
    let by_id = discovery_candidates(&anchors, &TargetNetwork::NetworkId("avalon-test".to_string()));
    assert_eq!(
        by_id,
        vec!["https://a.example", "https://seed1.example", "https://seed2.example", "https://c.example"]
    );
    let by_tier = discovery_candidates(&anchors, &TargetNetwork::Env(TargetNetworkTier::Mainnet));
    assert_eq!(by_tier, vec!["https://c.example"]);
    assert!(discovery_candidates(&anchors, &TargetNetwork::Env(TargetNetworkTier::Int)).is_empty());
}

#[test]
fn ranking_puts_measured_fastest_first_and_keeps_ties_in_order() {
    let order = rank_by_latency(&vec![Some(120), Some(1), None, Some(50), None, Some(1)]);
    assert_eq!(order, vec![1, 5, 3, 0, 2, 4]);
    assert_eq!(rank_by_latency(&vec![None, None]), vec![0, 1]);
}

fn verified_status(id: &str) -> NetworkTrustStatus {
    NetworkTrustStatus::Verified { entry: entry(id, NetworkEnvironment::Dev) }
}

#[test]
fn discover_reports_no_candidates_for_an_unpinned_target() {
    let target = TargetNetwork::NetworkId("avalon-nowhere".to_string());
    let progress = DiscoveryProgress::new();
    let err = progress.finish(&target, &Vec::new()).unwrap_err();
    assert!(matches!(err, DiscoveryError::NoCandidates { .. }));
}

#[test]
fn discover_reports_none_verified_when_every_candidate_fails() {
    let target = TargetNetwork::NetworkId("avalon-test".to_string());
    let mut progress = DiscoveryProgress::new();
    progress.begin_attempt();
    let forged = NetworkTrustStatus::Mismatch { entry: entry("avalon-test", NetworkEnvironment::Dev), claimed_network_id: "avalon-test".to_string() };
    progress.record("http://x".to_string(), &forged, &target);
    match progress.finish(&target, &Vec::new()).unwrap_err() {
        DiscoveryError::NoneVerified { target, attempts } => {
            assert_eq!(target, "avalon-test");
            assert_eq!(attempts.len(), 1);
            assert_eq!(attempts[0].0, "http://x");
        }
        other => panic!("unexpected {other:?}"),
    }
}

#[test]
fn a_single_verified_candidate_is_selected_unmeasured() {
    let target = TargetNetwork::NetworkId("avalon-test".to_string());
    let mut progress = DiscoveryProgress::new();
    progress.begin_attempt();
    progress.record("http://dead".to_string(), &NetworkTrustStatus::Unreachable { detail: "down".to_string() }, &target);
    progress.begin_attempt();
    progress.record("http://live".to_string(), &verified_status("avalon-test"), &target);
    let found = progress.finish(&target, &Vec::new()).unwrap();
    assert_eq!(found.server_url, "http://live");
    assert_eq!(found.entry.network_id, "avalon-test");
    assert_eq!(found.verified.len(), 1);
    assert_eq!(found.verified[0].latency_ns, None);
}

#[test]
fn ranking_chooses_the_fastest_verified_candidate() {
    let target = TargetNetwork::NetworkId("avalon-test".to_string());
    let mut progress = DiscoveryProgress::new();
    for url in ["http://slow", "http://fast", "http://mid"] {
        assert!(progress.wants_more(&RankConfig::default()));
        progress.begin_attempt();
        progress.record(url.to_string(), &verified_status("avalon-test"), &target);
    }
    let found = progress.finish(&target, &vec![Some(120), Some(1), Some(50)]).unwrap();
    assert_eq!(found.server_url, "http://fast");
    let order: Vec<_> = found.verified.iter().map(|v| v.server_url.clone()).collect();
    assert_eq!(order, vec!["http://fast", "http://mid", "http://slow"]);
}

#[test]
fn collection_stops_at_the_timed_bound() {
    let target = TargetNetwork::NetworkId("avalon-test".to_string());
    let rank = RankConfig { max_timed: 2, probe_timeout_ms: 50, collect_window_ms: 300 };
    let mut progress = DiscoveryProgress::new();
    progress.record("http://a".to_string(), &verified_status("avalon-test"), &target);
    assert!(progress.wants_more(&rank));
    progress.record("http://b".to_string(), &verified_status("avalon-test"), &target);
    assert!(!progress.wants_more(&rank));
}

#[test]
fn tiers_name_only_their_environment() {
    assert!(TargetNetworkTier::Dev.matches(NetworkEnvironment::Dev));
    assert!(TargetNetworkTier::Int.matches(NetworkEnvironment::Int));
    assert!(TargetNetworkTier::Mainnet.matches(NetworkEnvironment::Prod));
    assert!(!TargetNetworkTier::Mainnet.matches(NetworkEnvironment::LocalDev));
    assert!(!TargetNetworkTier::Dev.matches(NetworkEnvironment::Prod));
    assert_eq!(TargetNetwork::Env(TargetNetworkTier::Int).to_text(), "int (declared by tier)");
}
