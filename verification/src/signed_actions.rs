//! The signature every signature-required account action carries: which
//! action tag it signs, over which fields, in which order.

use vstd::prelude::*;
use crate::account::{
    action_signature, canonical_bytes, comma_joined, device_grant_approval_signing_bytes, guardian_field_of,
    guardian_set_field, joined, lemma_guardian_field_ignores_order, sign_action, sign_raw, AccountSigner,
    SignatureFields,
};
use crate::crypto::{base64_text, ed25519_signature};
use crate::error::SdkError;
use crate::text::{opt_text, owned, signed_decimal, signed_decimal_string, texts, uuid_string, uuid_text};

verus! {

/// `r` is what the session's signer (if any) makes of `tag` over `fields`.
pub open spec fn signed_as(signer: Option<AccountSigner>, tag: Seq<char>, fields: Seq<Seq<char>>, r: SignatureFields) -> bool {
    match signer {
        Some(s) => r.signing_key_id == Some(s.signing_key_id)
            && (r.signature matches Some(sig) && sig@ == action_signature(s.seed@, tag, fields)),
        None => r.signing_key_id is None && r.signature is None,
    }
}

/// `true` or `false`.
pub open spec fn bool_text(b: bool) -> Seq<char> {
    if b { "true"@ } else { "false"@ }
}

/// Signs `tag` over the given field texts.
fn sign_fields(signer: &Option<AccountSigner>, tag: &str, fields: Vec<String>) -> (r: SignatureFields)
    ensures
        signed_as(*signer, tag@, texts(fields@), r),
{
    sign_action(signer, tag, &fields)
}

/// Creating a role signs `guild.role.create` over the guild, the role's
/// name and its permissions comma-joined.
pub fn create_role_signature(signer: &Option<AccountSigner>, guild_id: u128, name: &str, permissions: &Vec<String>) -> (r: SignatureFields)
    ensures
        signed_as(*signer, "guild.role.create"@, seq![uuid_text(guild_id), name@, joined(texts(permissions@), ',')], r),
{
    let fields = vec![uuid_string(guild_id), owned(name), comma_joined(permissions)];
    proof {
        assert(texts(fields@) =~= seq![uuid_text(guild_id), name@, joined(texts(permissions@), ',')]);
    }
    sign_fields(signer, "guild.role.create", fields)
}

/// Updating a role signs `guild.role.update` over the guild and the
/// role's index.
pub fn update_role_signature(signer: &Option<AccountSigner>, guild_id: u128, name_index: i32) -> (r: SignatureFields)
    ensures
        signed_as(*signer, "guild.role.update"@, seq![uuid_text(guild_id), signed_decimal(name_index as int)], r),
{
    let fields = vec![uuid_string(guild_id), signed_decimal_string(name_index as i64)];
    proof {
        assert(texts(fields@) =~= seq![uuid_text(guild_id), signed_decimal(name_index as int)]);
    }
    sign_fields(signer, "guild.role.update", fields)
}

/// Deleting a role signs `guild.role.delete` over the guild and the
/// role's index.
pub fn delete_role_signature(signer: &Option<AccountSigner>, guild_id: u128, name_index: i32) -> (r: SignatureFields)
    ensures
        signed_as(*signer, "guild.role.delete"@, seq![uuid_text(guild_id), signed_decimal(name_index as int)], r),
{
    let fields = vec![uuid_string(guild_id), signed_decimal_string(name_index as i64)];
    proof {
        assert(texts(fields@) =~= seq![uuid_text(guild_id), signed_decimal(name_index as int)]);
    }
    sign_fields(signer, "guild.role.delete", fields)
}

/// Setting a permission override signs `guild.permission_override.set`
/// over the guild, the role index, the resource kind and id, the
/// permission and whether it is allowed.
pub fn set_permission_override_signature(
    signer: &Option<AccountSigner>,
    guild_id: u128,
    role_index: i32,
    resource_kind: &str,
    resource_id: u128,
    permission: &str,
    allow: bool,
) -> (r: SignatureFields)
    ensures
        signed_as(*signer, "guild.permission_override.set"@, seq![uuid_text(guild_id), signed_decimal(role_index as int),
            resource_kind@, uuid_text(resource_id), permission@, bool_text(allow)], r),
{
    let fields = vec![
        uuid_string(guild_id),
        signed_decimal_string(role_index as i64),
        owned(resource_kind),
        uuid_string(resource_id),
        owned(permission),
        owned(if allow { "true" } else { "false" }),
    ];
    proof {
        assert(texts(fields@) =~= seq![uuid_text(guild_id), signed_decimal(role_index as int), resource_kind@,
            uuid_text(resource_id), permission@, bool_text(allow)]);
    }
    sign_fields(signer, "guild.permission_override.set", fields)
}

/// Deleting a permission override signs
/// `guild.permission_override.delete` over the guild and the override.
pub fn delete_permission_override_signature(signer: &Option<AccountSigner>, guild_id: u128, override_id: u128) -> (r: SignatureFields)
    ensures
        signed_as(*signer, "guild.permission_override.delete"@, seq![uuid_text(guild_id), uuid_text(override_id)], r),
{
    let fields = vec![uuid_string(guild_id), uuid_string(override_id)];
    proof {
        assert(texts(fields@) =~= seq![uuid_text(guild_id), uuid_text(override_id)]);
    }
    sign_fields(signer, "guild.permission_override.delete", fields)
}

/// Transferring a guild signs `guild.transfer_ownership` over the guild,
/// the current owner (this identity) and the new one.
pub fn transfer_ownership_signature(signer: &Option<AccountSigner>, guild_id: u128, from: u128, to: u128) -> (r: SignatureFields)
    ensures
        signed_as(*signer, "guild.transfer_ownership"@, seq![uuid_text(guild_id), uuid_text(from), uuid_text(to)], r),
{
    let fields = vec![uuid_string(guild_id), uuid_string(from), uuid_string(to)];
    proof {
        assert(texts(fields@) =~= seq![uuid_text(guild_id), uuid_text(from), uuid_text(to)]);
    }
    sign_fields(signer, "guild.transfer_ownership", fields)
}

/// Changing a member's role signs `guild.member_role.update` over the
/// guild, the member and the role index.
pub fn update_member_role_signature(signer: &Option<AccountSigner>, guild_id: u128, identity_id: u128, role_index: i32) -> (r: SignatureFields)
    ensures
        signed_as(*signer, "guild.member_role.update"@, seq![uuid_text(guild_id), uuid_text(identity_id),
            signed_decimal(role_index as int)], r),
{
    let fields = vec![uuid_string(guild_id), uuid_string(identity_id), signed_decimal_string(role_index as i64)];
    proof {
        assert(texts(fields@) =~= seq![uuid_text(guild_id), uuid_text(identity_id), signed_decimal(role_index as int)]);
    }
    sign_fields(signer, "guild.member_role.update", fields)
}

/// What setting guardians signs: `recovery.guardians.set` over this
/// identity, the guardian ids' texts sorted and comma-joined, and the
/// threshold.
pub open spec fn guardians_signed(
    signer: Option<AccountSigner>,
    identity_id: u128,
    guardian_ids: Seq<u128>,
    threshold: i32,
    r: SignatureFields,
) -> bool {
    exists|field: Seq<char>| #[trigger] guardian_field_of(guardian_ids, field)
        && signed_as(signer, "recovery.guardians.set"@, seq![uuid_text(identity_id), field,
            signed_decimal(threshold as int)], r)
}

/// Setting guardians signs `recovery.guardians.set` over this identity,
/// the guardian ids sorted and comma-joined, and the threshold.
pub fn set_guardians_signature(signer: &Option<AccountSigner>, identity_id: u128, guardian_ids: &Vec<u128>, threshold: i32) -> (r: SignatureFields)
    ensures
        guardians_signed(*signer, identity_id, guardian_ids@, threshold, r),
{
    let set = guardian_set_field(guardian_ids);
    let ghost field = set@;
    let fields = vec![uuid_string(identity_id), set, signed_decimal_string(threshold as i64)];
    proof {
        assert(texts(fields@) =~= seq![uuid_text(identity_id), field, signed_decimal(threshold as int)]);
    }
    let r = sign_fields(signer, "recovery.guardians.set", fields);
    proof {
        assert(guardian_field_of(guardian_ids@, field));
    }
    r
}

/// Listing the same guardians in another order signs the same thing: the
/// same key id and the same signature text.
pub proof fn lemma_guardian_signature_ignores_order(
    signer: Option<AccountSigner>,
    identity_id: u128,
    ids1: Seq<u128>,
    ids2: Seq<u128>,
    threshold: i32,
    r1: SignatureFields,
    r2: SignatureFields,
)
    requires
        ids1.to_multiset() == ids2.to_multiset(),
        guardians_signed(signer, identity_id, ids1, threshold, r1),
        guardians_signed(signer, identity_id, ids2, threshold, r2),
    ensures
        r1.signing_key_id == r2.signing_key_id,
        opt_text(r1.signature) == opt_text(r2.signature),
{
    let f1 = choose|field: Seq<char>| #[trigger] guardian_field_of(ids1, field)
        && signed_as(signer, "recovery.guardians.set"@, seq![uuid_text(identity_id), field,
            signed_decimal(threshold as int)], r1);
    let f2 = choose|field: Seq<char>| #[trigger] guardian_field_of(ids2, field)
        && signed_as(signer, "recovery.guardians.set"@, seq![uuid_text(identity_id), field,
            signed_decimal(threshold as int)], r2);
    lemma_guardian_field_ignores_order(ids1, ids2, f1, f2);
}

/// Reversing a rollback event signs `rollback.reverse` over the event,
/// this identity and the window start (RFC 3339 text).
pub fn reverse_rollback_signature(signer: &Option<AccountSigner>, event_id: u128, identity_id: u128, since: &str) -> (r: SignatureFields)
    ensures
        signed_as(*signer, "rollback.reverse"@, seq![uuid_text(event_id), uuid_text(identity_id), since@], r),
{
    let fields = vec![uuid_string(event_id), uuid_string(identity_id), owned(since)];
    proof {
        assert(texts(fields@) =~= seq![uuid_text(event_id), uuid_text(identity_id), since@]);
    }
    sign_fields(signer, "rollback.reverse", fields)
}

/// Connecting an integrator signs `integration.connect` over its slug and
/// the capabilities comma-joined in request order.
pub fn connect_integrator_signature(signer: &Option<AccountSigner>, slug: &str, capabilities: &Vec<String>) -> (r: SignatureFields)
    ensures
        signed_as(*signer, "integration.connect"@, seq![slug@, joined(texts(capabilities@), ',')], r),
{
    let fields = vec![owned(slug), comma_joined(capabilities)];
    proof {
        assert(texts(fields@) =~= seq![slug@, joined(texts(capabilities@), ',')]);
    }
    sign_fields(signer, "integration.connect", fields)
}

/// Approving a device pairing signs `device_pairing.approve` over this
/// identity and the pairing's user code.
pub fn approve_device_pairing_signature(signer: &Option<AccountSigner>, identity_id: u128, user_code: &str) -> (r: SignatureFields)
    ensures
        signed_as(*signer, "device_pairing.approve"@, seq![uuid_text(identity_id), user_code@], r),
{
    let fields = vec![uuid_string(identity_id), owned(user_code)];
    proof {
        assert(texts(fields@) =~= seq![uuid_text(identity_id), user_code@]);
    }
    sign_fields(signer, "device_pairing.approve", fields)
}

/// Approving a device grant needs the session's own key: it signs the
/// grant, this identity and the requested key, and names the approving
/// key. An approval without a local key is one the server refuses, so it
/// is reported as `Rejected` without sending it.
pub fn approve_device_grant_signature(
    signer: &Option<AccountSigner>,
    grant_id: u128,
    identity_id: u128,
    requested_signing_public_key_b64: &str,
) -> (r: Result<(u128, String), SdkError>)
    ensures
        match signer {
            Some(s) => r matches Ok((id, sig)) && id == s.signing_key_id && sig@ == base64_text(ed25519_signature(
                s.seed@,
                canonical_bytes("device_grant.approved"@, seq![uuid_text(grant_id), uuid_text(identity_id),
                    requested_signing_public_key_b64@]),
            )),
            None => r matches Err(SdkError::Rejected { reason })
                && reason@ == "approve_device_grant requires a local signing key — this AccountSession has none"@,
        },
{
    match signer {
        Some(s) => {
            let message = device_grant_approval_signing_bytes(grant_id, identity_id, requested_signing_public_key_b64);
            Ok((s.signing_key_id, sign_raw(s, message.as_slice())))
        },
        None => Err(SdkError::Rejected {
            reason: owned("approve_device_grant requires a local signing key — this AccountSession has none"),
        }),
    }
}

} // verus!
