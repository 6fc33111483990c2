use avalon_sdk::account::{canonical_message, guardian_set_field, AccountSigner};
use avalon_sdk::error::SdkError;
use avalon_sdk::signed_actions::{
    approve_device_grant_signature, create_role_signature, set_guardians_signature, set_permission_override_signature,
    transfer_ownership_signature, update_role_signature,
};
use base64::Engine;
use ed25519_dalek::{Signature, SigningKey, Verifier};

const SEED: [u8; 32] = [21u8; 32];

fn verifies(signature_b64: &str, text: &str) -> bool {
    let bytes: [u8; 64] = base64::engine::general_purpose::STANDARD
        .decode(signature_b64)
        .unwrap()
        .try_into()
        .unwrap();
    SigningKey::from_bytes(&SEED)
        .verifying_key()
        .verify(text.as_bytes(), &Signature::from_bytes(&bytes))
        .is_ok()
}

fn signer() -> Option<AccountSigner> {
    Some(AccountSigner { seed: SEED, signing_key_id: 99 })
}

#[test]
fn role_creation_signs_name_and_joined_permissions() {
    let r = create_role_signature(&signer(), 1, "Officer", &vec!["kick".to_string(), "ban".to_string()]);
    assert_eq!(r.signing_key_id, Some(99));
    assert!(verifies(
        &r.signature.unwrap(),
        "avalon:guild.role.create:v1:00000000-0000-0000-0000-000000000001:Officer:kick,ban"
    ));
    let unsigned = create_role_signature(&None, 1, "Officer", &Vec::new());
    assert!(unsigned.signing_key_id.is_none() && unsigned.signature.is_none());
}

#[test]
fn role_updates_sign_the_index() {
    let r = update_role_signature(&signer(), 2, -3);
    assert!(verifies(&r.signature.unwrap(), "avalon:guild.role.update:v1:00000000-0000-0000-0000-000000000002:-3"));
}

#[test]
fn permission_overrides_sign_every_field() {
    let r = set_permission_override_signature(&signer(), 1, 4, "channel", 2, "post", false);
    assert!(verifies(
        &r.signature.unwrap(),
        "avalon:guild.permission_override.set:v1:00000000-0000-0000-0000-000000000001:4:channel:00000000-0000-0000-0000-000000000002:post:false"
    ));
}

#[test]
fn ownership_transfers_sign_both_owners() {
    let r = transfer_ownership_signature(&signer(), 1, 2, 3);
    let text = String::from_utf8(canonical_message(
        "guild.transfer_ownership",
        &vec![
            "00000000-0000-0000-0000-000000000001".to_string(),
            "00000000-0000-0000-0000-000000000002".to_string(),
            "00000000-0000-0000-0000-000000000003".to_string(),
        ],
    ))
    .unwrap();
    assert!(verifies(&r.signature.unwrap(), &text));
}

#[test]
fn guardian_sets_sign_sorted_guardians_and_threshold() {
    let r = set_guardians_signature(&signer(), 7, &vec![9, 8], 2);
    assert!(verifies(
        &r.signature.unwrap(),
        "avalon:recovery.guardians.set:v1:00000000-0000-0000-0000-000000000007:00000000-0000-0000-0000-000000000008,00000000-0000-0000-0000-000000000009:2"
    ));
}

#[test]
fn device_grant_approval_needs_a_local_key() {
    let (key_id, sig) = approve_device_grant_signature(&signer(), 1, 2, "cHVi").unwrap();
    assert_eq!(key_id, 99);
    assert!(verifies(
        &sig,
        "avalon:device_grant.approved:v1:00000000-0000-0000-0000-000000000001:00000000-0000-0000-0000-000000000002:cHVi"
    ));
    assert!(matches!(approve_device_grant_signature(&None, 1, 2, "cHVi"), Err(SdkError::Rejected { .. })));
}

#[test]
fn guardian_order_does_not_change_the_signature() {
    let a = set_guardians_signature(&signer(), 7, &vec![9, 8, 8, 0xa], 2);
    let b = set_guardians_signature(&signer(), 7, &vec![8, 0xa, 9, 8], 2);
    assert_eq!(a.signing_key_id, b.signing_key_id);
    assert_eq!(a.signature, b.signature);
    assert_eq!(guardian_set_field(&vec![9, 8, 8]), guardian_set_field(&vec![8, 9, 8]));
}
