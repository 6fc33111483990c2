use avalon_sdk::account::{
    canonical_message, comma_joined, device_grant_approval_signing_bytes, find_own_signing_key_id, guardian_set_field, path,
    seed_from_base64, sign_action, sign_raw, AccountSigner,
};
use avalon_sdk::achievements::{
    answer_challenge, attestation_signing_bytes, bulk_attestation_signing_bytes, claim_target, issuer_credentials,
    revocation_signing_bytes, sign_bulk_issuance, sign_issuance, sign_revocation,
};
use avalon_sdk::cross_node_login::{issue_grant, signing_bytes};
use avalon_sdk::error::SdkError;
use avalon_sdk::issuer_registration::proof_of_possession_message;
use avalon_sdk::types::ids::{GlobalId, IdentityId};
use avalon_sdk::types::integrators::IntegratorCategory;
use base64::Engine;
use ed25519_dalek::{Signature, SigningKey, Verifier};

const SUBJECT: u128 = 0x550e8400_e29b_41d4_a716_446655440000;

fn strings(items: &[&str]) -> Vec<String> {
    items.iter().map(|s| s.to_string()).collect()
}

#[test]
fn canonical_message_matches_server_shape() {
    let message = canonical_message("guild.transfer_ownership", &strings(&["g1", "from1", "to1"]));
    assert_eq!(
        String::from_utf8(message).unwrap(),
        "avalon:guild.transfer_ownership:v1:g1:from1:to1"
    );
}

#[test]
fn canonical_message_with_no_fields_is_just_the_tag() {
    let message = canonical_message("integration.connect", &Vec::new());
    assert_eq!(
        String::from_utf8(message).unwrap(),
        "avalon:integration.connect:v1"
    );
}

#[test]
fn sign_with_no_local_key_yields_empty_signature_fields() {
    let signed = sign_action(&None, "guild.transfer_ownership", &strings(&["g1", "from1", "to1"]));
    assert!(signed.signing_key_id.is_none());
    assert!(signed.signature.is_none());
}

#[test]
fn sign_with_a_local_key_produces_a_verifiable_signature() {
    let seed = [7u8; 32];
    let signer = AccountSigner { seed, signing_key_id: 42 };
    let signed = sign_action(&Some(signer), "passkey.revoke_last", &strings(&["p1", "i1"]));
    assert_eq!(signed.signing_key_id, Some(42));
    let bytes: [u8; 64] = base64::engine::general_purpose::STANDARD
        .decode(signed.signature.unwrap())
        .unwrap()
        .try_into()
        .unwrap();
    let signature = Signature::from_bytes(&bytes);
    let key = SigningKey::from_bytes(&seed);
    assert!(key
        .verifying_key()
        .verify(&canonical_message("passkey.revoke_last", &strings(&["p1", "i1"])), &signature)
        .is_ok());
}

#[test]
fn sign_raw_signs_exactly_the_given_bytes() {
    let seed = [3u8; 32];
    let signer = AccountSigner { seed, signing_key_id: 1 };
    let sig = sign_raw(&signer, b"hello");
    let bytes: [u8; 64] = base64::engine::general_purpose::STANDARD.decode(sig).unwrap().try_into().unwrap();
    let key = SigningKey::from_bytes(&seed);
    assert!(key.verifying_key().verify(b"hello", &Signature::from_bytes(&bytes)).is_ok());
    assert!(key.verifying_key().verify(b"hellp", &Signature::from_bytes(&bytes)).is_err());
}

#[test]
fn path_fills_every_placeholder() {
    let filled = path(
        "/guilds/{id}/members/{member}",
        &vec![("id".to_string(), "g1".to_string()), ("member".to_string(), "m2".to_string())],
    );
    assert_eq!(filled, "/guilds/g1/members/m2");
    let repeated = path("/{a}/{a}/x{b}", &vec![("a".to_string(), "1".to_string())]);
    assert_eq!(repeated, "/1/1/x{b}");
    assert_eq!(path("/plain", &Vec::new()), "/plain");
}

#[test]
fn comma_joined_puts_commas_between_parts_only() {
    assert_eq!(comma_joined(&strings(&["a", "b", "c"])), "a,b,c");
    assert_eq!(comma_joined(&strings(&["solo"])), "solo");
    assert_eq!(comma_joined(&Vec::new()), "");
}

#[test]
fn device_grant_approval_bytes_use_the_canonical_shape() {
    let bytes = device_grant_approval_signing_bytes(SUBJECT, 1, "cHVi");
    assert_eq!(
        String::from_utf8(bytes).unwrap(),
        "avalon:device_grant.approved:v1:550e8400-e29b-41d4-a716-446655440000:00000000-0000-0000-0000-000000000001:cHVi"
    );
}

#[test]
fn attestation_bytes_fold_in_the_claim_kind() {
    let bytes = attestation_signing_bytes("achievement", "game:ashen-realms", SUBJECT, "game:ashen-realms:achievement:first_blood");
    assert_eq!(
        String::from_utf8(bytes).unwrap(),
        "avalon:achievement.issued:v1:game:ashen-realms:550e8400-e29b-41d4-a716-446655440000:game:ashen-realms:achievement:first_blood"
    );
    let milestone = attestation_signing_bytes("milestone", "game:ashen-realms", SUBJECT, "game:ashen-realms:achievement:first_blood");
    assert_ne!(
        attestation_signing_bytes("achievement", "game:ashen-realms", SUBJECT, "game:ashen-realms:achievement:first_blood"),
        milestone
    );
}

#[test]
fn revocation_bytes_name_the_attestation_and_reason() {
    let bytes = revocation_signing_bytes("achievement", "game:g", 1, "cheating");
    assert_eq!(
        String::from_utf8(bytes).unwrap(),
        "avalon:achievement.revoked:v1:game:g:00000000-0000-0000-0000-000000000001:cheating"
    );
}

#[test]
fn bulk_bytes_length_prefix_every_claim() {
    let bytes = bulk_attestation_signing_bytes("achievement", "game:g", 1, &strings(&["ab", "c"]));
    let mut expected = b"avalon:achievement.issued.bulk:v1:game:g:00000000-0000-0000-0000-000000000001:".to_vec();
    expected.extend_from_slice(&[0, 0, 0, 2, 0, 0, 0, 2, b'a', b'b', 0, 0, 0, 1, b'c']);
    assert_eq!(bytes, expected);
    let split = bulk_attestation_signing_bytes("achievement", "game:g", 1, &strings(&["a", "bc"]));
    assert_ne!(bytes, split);
}

#[test]
fn missing_issuer_credentials_are_reported() {
    let key = Some([1u8; 32]);
    let id = "550e8400-e29b-41d4-a716-446655440000";
    assert!(matches!(issuer_credentials(&None, &key, id), Err(SdkError::MissingIssuerCredentials)));
    assert!(matches!(issuer_credentials(&Some("g".to_string()), &None, id), Err(SdkError::MissingIssuerCredentials)));
    assert!(matches!(issuer_credentials(&Some("g".to_string()), &key, "not-a-uuid"), Err(SdkError::MissingIssuerCredentials)));
    let creds = issuer_credentials(&Some("g".to_string()), &key, id).unwrap();
    assert_eq!(creds.key_id, SUBJECT);
    assert_eq!(creds.slug, "g");
}

#[test]
fn a_nonce_that_is_not_base64_is_a_missing_credential() {
    assert!(matches!(answer_challenge(&[1u8; 32], "***"), Err(SdkError::MissingIssuerCredentials)));
}

#[test]
fn challenge_answers_sign_the_decoded_nonce() {
    let seed = [9u8; 32];
    let nonce = b"nonce-bytes";
    let encoded = base64::engine::general_purpose::STANDARD.encode(nonce);
    let answer = answer_challenge(&seed, &encoded).unwrap();
    let bytes: [u8; 64] = base64::engine::general_purpose::STANDARD.decode(answer).unwrap().try_into().unwrap();
    let key = SigningKey::from_bytes(&seed);
    assert!(key.verifying_key().verify(nonce, &Signature::from_bytes(&bytes)).is_ok());
}

#[test]
fn claim_targets_spell_each_vocabulary() {
    let keys = strings(&["first_blood"]);
    let game = claim_target(IntegratorCategory::Game, "ashen-realms", &keys, false);
    assert_eq!(game.claim_kind, "achievement");
    assert_eq!(game.issuer_ref, "game:ashen-realms");
    assert_eq!(game.achievements, vec!["game:ashen-realms:achievement:first_blood".to_string()]);
    let app = claim_target(IntegratorCategory::App, "moonlit", &strings(&["a", "b"]), true);
    assert_eq!(app.claim_kind, "milestone");
    assert_eq!(app.issuer_ref, "app:moonlit");
    assert_eq!(app.achievements, vec!["app:moonlit:milestone:a".to_string(), "app:moonlit:milestone:b".to_string()]);
}

#[test]
fn issuance_signatures_verify_over_the_attestation_bytes() {
    let seed = [5u8; 32];
    let creds = issuer_credentials(&Some("g".to_string()), &Some(seed), "550e8400-e29b-41d4-a716-446655440000").unwrap();
    let nonce = base64::engine::general_purpose::STANDARD.encode(b"n");
    let target = claim_target(IntegratorCategory::Game, "g", &strings(&["k"]), false);
    let signed = sign_issuance(&creds, &nonce, 1, &target).unwrap();
    let key = SigningKey::from_bytes(&seed);
    let sig: [u8; 64] = base64::engine::general_purpose::STANDARD.decode(signed.signature).unwrap().try_into().unwrap();
    let bytes = attestation_signing_bytes("achievement", "game:g", 1, "game:g:achievement:k");
    assert!(key.verifying_key().verify(&bytes, &Signature::from_bytes(&sig)).is_ok());

    let bulk = sign_bulk_issuance(&creds, &nonce, 1, &target).unwrap();
    let sig: [u8; 64] = base64::engine::general_purpose::STANDARD.decode(bulk.signature).unwrap().try_into().unwrap();
    let bytes = bulk_attestation_signing_bytes("achievement", "game:g", 1, &strings(&["game:g:achievement:k"]));
    assert!(key.verifying_key().verify(&bytes, &Signature::from_bytes(&sig)).is_ok());

    let revoked = sign_revocation(&creds, &nonce, 7, "mistake").unwrap();
    let sig: [u8; 64] = base64::engine::general_purpose::STANDARD.decode(revoked.signature).unwrap().try_into().unwrap();
    let bytes = revocation_signing_bytes("achievement", "game:g", 7, "mistake");
    assert!(key.verifying_key().verify(&bytes, &Signature::from_bytes(&sig)).is_ok());
}

#[test]
fn cross_node_grant_bytes_use_unix_seconds() {
    let bytes = signing_bytes(1, 2, "https://b.example", "https://b.example", 3, 1_700_000_000_500_000_000, 1_700_000_060_500_000_000);
    assert_eq!(
        String::from_utf8(bytes).unwrap(),
        "avalon:cross-node-login:v1:00000000-0000-0000-0000-000000000001:00000000-0000-0000-0000-000000000002:https://b.example:https://b.example:00000000-0000-0000-0000-000000000003:1700000000:1700000060"
    );
    let before_epoch = signing_bytes(1, 2, "d", "c", 3, -1, 0);
    assert!(String::from_utf8(before_epoch).unwrap().ends_with(":-1:0"));
}

#[test]
fn issued_grants_expire_after_the_ttl_and_verify() {
    let seed = [11u8; 32];
    let grant = issue_grant(1, 2, &seed, "https://node.example", 3, 1_000_000_000_000);
    assert_eq!(grant.expires_at_ns - grant.issued_at_ns, 60_000_000_000);
    assert_eq!(grant.destination_base_url, "https://node.example");
    assert_eq!(grant.requesting_context, "https://node.example");
    let sig: [u8; 64] = hex::decode(&grant.signature).unwrap().try_into().unwrap();
    let key = SigningKey::from_bytes(&seed);
    assert!(key.verifying_key().verify(&grant.signing_bytes(), &Signature::from_bytes(&sig)).is_ok());
}

#[test]
fn proof_of_possession_binds_network_and_nonce() {
    let bytes = proof_of_possession_message("game:ashen-realms", "avalon-dev-1", b"abc");
    assert_eq!(
        String::from_utf8(bytes).unwrap(),
        "avalon:issuer.registered:v1:game:ashen-realms:avalon-dev-1:YWJj"
    );
}

#[test]
fn global_ids_join_their_four_parts() {
    let id = GlobalId::new("game", "ashen-realms", "achievement", "dragon_slayer");
    assert_eq!(id.as_str(), "game:ashen-realms:achievement:dragon_slayer");
}

#[test]
fn identity_ids_print_as_hyphenated_uuids() {
    assert_eq!(IdentityId(SUBJECT).to_text(), "550e8400-e29b-41d4-a716-446655440000");
}

#[test]
fn own_signing_key_is_found_by_public_key() {
    let devices = vec![(1u128, "a2V5MQ==".to_string()), (2u128, "a2V5Mg==".to_string()), (3u128, "a2V5Mg==".to_string())];
    assert_eq!(find_own_signing_key_id(&devices, "a2V5Mg=="), Some(2));
    assert_eq!(find_own_signing_key_id(&devices, "bm9uZQ=="), None);
}

#[test]
fn saved_seeds_must_be_32_base64_bytes() {
    let seed = [4u8; 32];
    let encoded = base64::engine::general_purpose::STANDARD.encode(seed);
    assert_eq!(seed_from_base64(&encoded).unwrap(), seed);
    let short = base64::engine::general_purpose::STANDARD.encode([4u8; 31]);
    assert!(matches!(seed_from_base64(&short), Err(SdkError::Protocol(_))));
    assert!(matches!(seed_from_base64("%%%"), Err(SdkError::Protocol(_))));
}

#[test]
fn guardian_sets_sign_sorted_ids() {
    let field = guardian_set_field(&vec![0xb, 0xa, 0x1_0000_0000_0000_0000_0000_0000_0000]);
    assert_eq!(
        field,
        "00000000-0000-0000-0000-00000000000a,00000000-0000-0000-0000-00000000000b,00010000-0000-0000-0000-000000000000"
    );
    assert_eq!(guardian_set_field(&Vec::new()), "");
}

#[test]
fn grants_issued_before_the_epoch_sign_negative_seconds() {
    let seed = [5u8; 32];
    let grant = issue_grant(1, 2, &seed, "https://node.example", 3, -1_500_000_000);
    assert_eq!(grant.expires_at_ns, 58_500_000_000);
    let text = String::from_utf8(grant.signing_bytes()).unwrap();
    assert!(text.ends_with(":-2:58"));
}
