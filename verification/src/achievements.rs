//! Signed claims an integrator issues: the exact bytes an attestation,
//! a bulk issuance or a revocation signs, and the credential and challenge
//! checks that come before a signature is made.

use vstd::prelude::*;
use crate::crypto::{base64_bytes, base64_decode, base64_encode, base64_text, ed25519_signature, parse_uuid, sign, uuid_value};
use crate::error::SdkError;
use crate::text::{owned, push_str, texts, utf8_bytes, uuid_string, uuid_text};
use crate::types::integrators::IntegratorCategory;

verus! {

/// Whether an attestation's signature checks out against the issuer's key
/// that was valid when it was issued.
#[derive(Debug, Clone, PartialEq, Eq)]
pub enum Authenticity {
    /// The signature verifies under this key.
    Authentic {
        /// The key that verified it.
        key_id: String,
    },
    /// It does not verify.
    NotAuthentic {
        /// Why.
        reason: String,
    },
}

/// Whether an attestation still stands.
#[derive(Debug, Clone, PartialEq, Eq)]
pub enum Validity {
    /// It stands.
    Valid,
    /// It was revoked or is otherwise invalid.
    Invalid {
        /// Why.
        reason: String,
    },
}

/// A new claim definition (achievement or milestone).
#[derive(Debug, Clone, PartialEq, Eq, Default)]
pub struct NewClaimDefinition {
    /// The definition's key, unique within its integrator.
    pub key: String,
    /// Display name.
    pub name: String,
    /// Description.
    pub description: String,
    /// Optional schema of the claim's data.
    pub schema: Option<String>,
    /// Optional icon name.
    pub icon: Option<String>,
    /// Optional icon URL.
    pub icon_url: Option<String>,
}

/// A partial update of a claim definition; `None` leaves a field as it is.
#[derive(Debug, Clone, PartialEq, Eq, Default)]
pub struct ClaimDefinitionUpdate {
    /// New display name.
    pub name: Option<String>,
    /// New description.
    pub description: Option<String>,
    /// New schema.
    pub schema: Option<String>,
    /// New icon name.
    pub icon: Option<String>,
    /// New icon URL.
    pub icon_url: Option<String>,
    /// `Some(true)` retires the definition; nothing un-retires one.
    pub retired: Option<bool>,
}

/// `avalon:<claim_kind>.issued:v1:<issuer_ref>:<subject>:<achievement>`.
pub open spec fn attestation_text(claim_kind: Seq<char>, issuer_ref: Seq<char>, subject: u128, achievement: Seq<char>) -> Seq<char> {
    "avalon:"@ + claim_kind + ".issued:v1:"@ + issuer_ref + ":"@ + uuid_text(subject) + ":"@ + achievement
}

/// The bytes an issued attestation signs. The claim kind is folded in, so
/// a signature under one vocabulary never passes as the other.
pub fn attestation_signing_bytes(claim_kind: &str, issuer_ref: &str, subject: u128, achievement: &str) -> (r: Vec<u8>)
    ensures
        r@ == vstd::utf8::encode_utf8(attestation_text(claim_kind@, issuer_ref@, subject, achievement@)),
{
    let mut s = owned("avalon:");
    push_str(&mut s, claim_kind);
    push_str(&mut s, ".issued:v1:");
    push_str(&mut s, issuer_ref);
    push_str(&mut s, ":");
    let subject_text = uuid_string(subject);
    push_str(&mut s, subject_text.as_str());
    push_str(&mut s, ":");
    push_str(&mut s, achievement);
    utf8_bytes(s.as_str())
}

/// `avalon:<claim_kind>.revoked:v1:<issuer_ref>:<attestation_id>:<reason_code>`.
pub open spec fn revocation_text(claim_kind: Seq<char>, issuer_ref: Seq<char>, attestation_id: u128, reason_code: Seq<char>) -> Seq<char> {
    "avalon:"@ + claim_kind + ".revoked:v1:"@ + issuer_ref + ":"@ + uuid_text(attestation_id) + ":"@ + reason_code
}

/// The bytes a revocation signs.
pub fn revocation_signing_bytes(claim_kind: &str, issuer_ref: &str, attestation_id: u128, reason_code: &str) -> (r: Vec<u8>)
    ensures
        r@ == vstd::utf8::encode_utf8(revocation_text(claim_kind@, issuer_ref@, attestation_id, reason_code@)),
{
    let mut s = owned("avalon:");
    push_str(&mut s, claim_kind);
    push_str(&mut s, ".revoked:v1:");
    push_str(&mut s, issuer_ref);
    push_str(&mut s, ":");
    let id_text = uuid_string(attestation_id);
    push_str(&mut s, id_text.as_str());
    push_str(&mut s, ":");
    push_str(&mut s, reason_code);
    utf8_bytes(s.as_str())
}

/// The four big-endian bytes of `v`.
pub open spec fn be32(v: u32) -> Seq<u8> {
    seq![(v / 16777216) as u8, ((v / 65536) % 256) as u8, ((v / 256) % 256) as u8, (v % 256) as u8]
}

/// Each achievement as its byte length (four bytes, big-endian) followed
/// by its UTF-8 bytes.
pub open spec fn length_prefixed(achievements: Seq<Seq<char>>) -> Seq<u8>
    decreases achievements.len(),
{
    if achievements.len() == 0 {
        Seq::empty()
    } else {
        let bytes = vstd::utf8::encode_utf8(achievements.last());
        length_prefixed(achievements.drop_last()) + be32(bytes.len() as u32) + bytes
    }
}

/// The bytes a bulk issuance signs:
/// `avalon:<claim_kind>.issued.bulk:v1:<issuer_ref>:<subject>:` followed by
/// the count (four bytes, big-endian) and each achievement length-prefixed,
/// so no two different lists share a signature.
pub open spec fn bulk_bytes(claim_kind: Seq<char>, issuer_ref: Seq<char>, subject: u128, achievements: Seq<Seq<char>>) -> Seq<u8> {
    vstd::utf8::encode_utf8("avalon:"@ + claim_kind + ".issued.bulk:v1:"@ + issuer_ref + ":"@ + uuid_text(subject) + ":"@)
        + be32(achievements.len() as u32) + length_prefixed(achievements)
}

/// Appends the four big-endian bytes of `v`.
fn push_be32(out: &mut Vec<u8>, v: u32)
    ensures
        final(out)@ == old(out)@ + be32(v),
{
    out.push((v / 16777216) as u8);
    out.push(((v / 65536) % 256) as u8);
    out.push(((v / 256) % 256) as u8);
    out.push((v % 256) as u8);
    proof {
        assert(final(out)@ =~= old(out)@ + be32(v));
    }
}

/// The bytes a bulk issuance signs.
pub fn bulk_attestation_signing_bytes(claim_kind: &str, issuer_ref: &str, subject: u128, achievements: &Vec<String>) -> (r: Vec<u8>)
    ensures
        r@ == bulk_bytes(claim_kind@, issuer_ref@, subject, texts(achievements@)),
{
    let mut s = owned("avalon:");
    push_str(&mut s, claim_kind);
    push_str(&mut s, ".issued.bulk:v1:");
    push_str(&mut s, issuer_ref);
    push_str(&mut s, ":");
    let subject_text = uuid_string(subject);
    push_str(&mut s, subject_text.as_str());
    push_str(&mut s, ":");
    let mut message = utf8_bytes(s.as_str());
    #[verifier::truncate]
    let count = achievements.len() as u32;
    push_be32(&mut message, count);
    let ghost head = message@;
    let mut i: usize = 0;
    proof {
        assert(texts(achievements@).subrange(0, 0) =~= Seq::<Seq<char>>::empty());
        assert(message@ =~= head + length_prefixed(texts(achievements@).subrange(0, 0)));
    }
    while i < achievements.len()
        invariant
            i <= achievements@.len(),
            message@ == head + length_prefixed(texts(achievements@).subrange(0, i as int)),
        decreases achievements@.len() - i,
    {
        let bytes = utf8_bytes(achievements[i].as_str());
        #[verifier::truncate]
        let len = bytes.len() as u32;
        push_be32(&mut message, len);
        let mut k: usize = 0;
        let ghost mid = message@;
        while k < bytes.len()
            invariant
                k <= bytes@.len(),
                message@ == mid + bytes@.subrange(0, k as int),
            decreases bytes@.len() - k,
        {
            message.push(bytes[k]);
            k = k + 1;
            proof {
                assert(message@ =~= mid + bytes@.subrange(0, k as int));
            }
        }
        proof {
            assert(bytes@.subrange(0, bytes@.len() as int) =~= bytes@);
            let sub = texts(achievements@).subrange(0, i + 1);
            assert(sub.drop_last() =~= texts(achievements@).subrange(0, i as int));
            assert(sub.last() == achievements@[i as int]@);
            assert(message@ =~= head + length_prefixed(sub));
        }
        i = i + 1;
    }
    proof {
        assert(texts(achievements@).subrange(0, achievements@.len() as int) =~= texts(achievements@));
    }
    message
}

/// What issuing needs of this integrator's configuration: its slug, its
/// signing-key seed, and its credential key id as a UUID.
pub struct IssuerCredentials {
    /// The integrator's registered slug.
    pub slug: String,
    /// The integrator's 32-byte Ed25519 signing-key seed.
    pub seed: [u8; 32],
    /// The integrator's credential key id.
    pub key_id: u128,
}

/// Issuing is possible only with a slug, a signing key and a credential
/// key id that parses as a UUID; anything missing is
/// `MissingIssuerCredentials`.
pub fn issuer_credentials(
    slug: &Option<String>,
    signing_key: &Option<[u8; 32]>,
    integrator_key_id: &str,
) -> (r: Result<IssuerCredentials, SdkError>)
    ensures
        match r {
            Ok(c) => slug matches Some(s) && c.slug@ == s@ && signing_key == &Some(c.seed)
                && uuid_value(integrator_key_id@) == Some(c.key_id),
            Err(e) => e == SdkError::MissingIssuerCredentials && (slug is None || signing_key is None
                || uuid_value(integrator_key_id@) is None),
        },
{
    let slug = match slug {
        Some(s) => owned(s.as_str()),
        None => return Err(SdkError::MissingIssuerCredentials),
    };
    let seed = match signing_key {
        Some(k) => *k,
        None => return Err(SdkError::MissingIssuerCredentials),
    };
    let key_id = match parse_uuid(integrator_key_id) {
        Some(k) => k,
        None => return Err(SdkError::MissingIssuerCredentials),
    };
    Ok(IssuerCredentials { slug, seed, key_id })
}

/// The base64 signature over the decoded challenge nonce.
pub open spec fn challenge_answer(seed: Seq<u8>, nonce: Seq<u8>) -> Seq<char> {
    base64_text(ed25519_signature(seed, nonce))
}

/// Answers an issuer challenge: the nonce (base64) is decoded and signed
/// with the integrator's key; a nonce that is not base64 is
/// `MissingIssuerCredentials`.
pub fn answer_challenge(seed: &[u8; 32], nonce_b64: &str) -> (r: Result<String, SdkError>)
    ensures
        match base64_bytes(nonce_b64@) {
            Some(nonce) => r matches Ok(sig) && sig@ == challenge_answer(seed@, nonce),
            None => r == Err::<String, SdkError>(SdkError::MissingIssuerCredentials),
        },
{
    match base64_decode(nonce_b64) {
        Some(nonce) => {
            let signature = sign(seed, nonce.as_slice());
            Ok(base64_encode(&signature))
        },
        None => Err(SdkError::MissingIssuerCredentials),
    }
}

/// What a claim is issued as: the claim-vocabulary word, the issuer
/// reference, and each claimed identifier.
pub struct ClaimTarget {
    /// `achievement` or `milestone`.
    pub claim_kind: String,
    /// `<category>:<slug>`.
    pub issuer_ref: String,
    /// `<category>:<slug>:<word>:<key>` per key.
    pub achievements: Vec<String>,
}

/// The identifier of `key` issued by `slug` under `category`, spelled with
/// `word`.
pub open spec fn claim_id(category: Seq<char>, slug: Seq<char>, word: Seq<char>, key: Seq<char>) -> Seq<char> {
    category + ":"@ + slug + ":"@ + word + ":"@ + key
}

/// The issuer reference of `slug` under `category`.
pub open spec fn issuer_reference(category: Seq<char>, slug: Seq<char>) -> Seq<char> {
    category + ":"@ + slug
}

/// The word an identifier spells its claim with: `milestone` for milestone
/// issuance, `achievement` otherwise.
pub open spec fn id_word(milestone: bool) -> Seq<char> {
    if milestone { "milestone"@ } else { "achievement"@ }
}

/// What issuing `keys` as `category`'s claims of `slug` signs:
/// `<category>:<slug>:<word>:<key>` per key, under the category's claim
/// word (achievements are issued as `game`, spelled `achievement`;
/// milestones are spelled `milestone`).
pub open spec fn claim_target_of(category: IntegratorCategory, slug: Seq<char>, keys: Seq<Seq<char>>, milestone: bool, t: ClaimTarget) -> bool {
    let word = id_word(milestone);
    &&& t.claim_kind@ == category.claim_word()
    &&& t.issuer_ref@ == issuer_reference(category.wire(), slug)
    &&& texts(t.achievements@).len() == keys.len()
    &&& forall|i: int| 0 <= i < keys.len() ==> #[trigger] texts(t.achievements@)[i] == claim_id(category.wire(), slug, word, keys[i])
}

/// The claim issuing `keys` as `category`'s claims of `slug` signs.
pub fn claim_target(category: IntegratorCategory, slug: &str, keys: &Vec<String>, milestone: bool) -> (t: ClaimTarget)
    ensures
        claim_target_of(category, slug@, texts(keys@), milestone, t),
{
    let word = if milestone { "milestone" } else { "achievement" };
    let mut issuer_ref = owned(category.as_str());
    push_str(&mut issuer_ref, ":");
    push_str(&mut issuer_ref, slug);
    let mut achievements: Vec<String> = Vec::new();
    let mut i: usize = 0;
    while i < keys.len()
        invariant
            i <= keys@.len(),
            issuer_ref@ == issuer_reference(category.wire(), slug@),
            word@ == id_word(milestone),
            achievements@.len() == i,
            forall|j: int| 0 <= j < i ==> #[trigger] achievements@[j]@ == claim_id(category.wire(), slug@, word@, keys@[j]@),
        decreases keys@.len() - i,
    {
        let mut a = owned(issuer_ref.as_str());
        push_str(&mut a, ":");
        push_str(&mut a, word);
        push_str(&mut a, ":");
        push_str(&mut a, keys[i].as_str());
        proof {
            assert(a@ =~= claim_id(category.wire(), slug@, word@, keys@[i as int]@));
        }
        achievements.push(a);
        i = i + 1;
    }
    ClaimTarget { claim_kind: owned(category.claim_kind()), issuer_ref, achievements }
}

/// The signatures a single issuance request carries.
pub struct SignedIssuance {
    /// The base64 answer to the issuer challenge.
    pub challenge_signature: String,
    /// The base64 signature over the attestation (or bulk, or revocation)
    /// bytes.
    pub signature: String,
}

/// Signs a single claim: the challenge answer and the attestation
/// signature over the claim's first identifier.
pub fn sign_issuance(creds: &IssuerCredentials, nonce_b64: &str, subject: u128, target: &ClaimTarget) -> (r: Result<SignedIssuance, SdkError>)
    requires
        target.achievements@.len() >= 1,
    ensures
        match base64_bytes(nonce_b64@) {
            Some(nonce) => r matches Ok(s) && s.challenge_signature@ == challenge_answer(creds.seed@, nonce)
                && s.signature@ == base64_text(ed25519_signature(creds.seed@, vstd::utf8::encode_utf8(
                    attestation_text(target.claim_kind@, target.issuer_ref@, subject, target.achievements@[0]@)))),
            None => r == Err::<SignedIssuance, SdkError>(SdkError::MissingIssuerCredentials),
        },
{
    let challenge_signature = match answer_challenge(&creds.seed, nonce_b64) {
        Ok(s) => s,
        Err(e) => return Err(e),
    };
    let bytes = attestation_signing_bytes(target.claim_kind.as_str(), target.issuer_ref.as_str(), subject, target.achievements[0].as_str());
    let signature = sign(&creds.seed, bytes.as_slice());
    Ok(SignedIssuance { challenge_signature, signature: base64_encode(&signature) })
}

/// Signs a bulk issuance: the challenge answer and one signature over the
/// whole list.
pub fn sign_bulk_issuance(creds: &IssuerCredentials, nonce_b64: &str, subject: u128, target: &ClaimTarget) -> (r: Result<SignedIssuance, SdkError>)
    ensures
        match base64_bytes(nonce_b64@) {
            Some(nonce) => r matches Ok(s) && s.challenge_signature@ == challenge_answer(creds.seed@, nonce)
                && s.signature@ == base64_text(ed25519_signature(creds.seed@,
                    bulk_bytes(target.claim_kind@, target.issuer_ref@, subject, texts(target.achievements@)))),
            None => r == Err::<SignedIssuance, SdkError>(SdkError::MissingIssuerCredentials),
        },
{
    let challenge_signature = match answer_challenge(&creds.seed, nonce_b64) {
        Ok(s) => s,
        Err(e) => return Err(e),
    };
    let bytes = bulk_attestation_signing_bytes(target.claim_kind.as_str(), target.issuer_ref.as_str(), subject, &target.achievements);
    let signature = sign(&creds.seed, bytes.as_slice());
    Ok(SignedIssuance { challenge_signature, signature: base64_encode(&signature) })
}

/// Signs the revocation of an attestation this game issued.
pub fn sign_revocation(creds: &IssuerCredentials, nonce_b64: &str, attestation_id: u128, reason_code: &str) -> (r: Result<SignedIssuance, SdkError>)
    ensures
        match base64_bytes(nonce_b64@) {
            Some(nonce) => r matches Ok(s) && s.challenge_signature@ == challenge_answer(creds.seed@, nonce)
                && s.signature@ == base64_text(ed25519_signature(creds.seed@, vstd::utf8::encode_utf8(
                    revocation_text("achievement"@, issuer_reference("game"@, creds.slug@), attestation_id, reason_code@)))),
            None => r == Err::<SignedIssuance, SdkError>(SdkError::MissingIssuerCredentials),
        },
{
    let challenge_signature = match answer_challenge(&creds.seed, nonce_b64) {
        Ok(s) => s,
        Err(e) => return Err(e),
    };
    let mut issuer_ref = owned("game:");
    push_str(&mut issuer_ref, creds.slug.as_str());
    proof {
        reveal_strlit("game:");
        reveal_strlit("game");
        reveal_strlit(":");
        assert(issuer_ref@ =~= issuer_reference("game"@, creds.slug@));
    }
    let bytes = revocation_signing_bytes(IntegratorCategory::Game.claim_kind(), issuer_ref.as_str(), attestation_id, reason_code);
    let signature = sign(&creds.seed, bytes.as_slice());
    Ok(SignedIssuance { challenge_signature, signature: base64_encode(&signature) })
}

/// The four big-endian bytes of a 32-bit value determine it.
proof fn lemma_be32_injective(v: u32, w: u32)
    requires
        be32(v) == be32(w),
    ensures
        v == w,
{
    assert(be32(v)[0] == be32(w)[0]);
    assert(be32(v)[1] == be32(w)[1]);
    assert(be32(v)[2] == be32(w)[2]);
    assert(be32(v)[3] == be32(w)[3]);
    assert(((v / 16777216) as u8 == (w / 16777216) as u8 && ((v / 65536) % 256) as u8 == ((w / 65536) % 256) as u8
        && ((v / 256) % 256) as u8 == ((w / 256) % 256) as u8 && (v % 256) as u8 == (w % 256) as u8) ==> v == w)
        by (bit_vector);
}

/// Every achievement's UTF-8 encoding, and the list itself, are shorter
/// than 2^32 — what four length bytes can count.
pub open spec fn countable(achievements: Seq<Seq<char>>) -> bool {
    &&& achievements.len() < 0x1_0000_0000
    &&& forall|i: int| 0 <= i < achievements.len() ==> vstd::utf8::encode_utf8(#[trigger] achievements[i]).len() < 0x1_0000_0000
}

/// The length-prefixed encoding read from the front: the first
/// achievement's length and bytes, then the rest.
proof fn lemma_length_prefixed_front(x: Seq<char>, rest: Seq<Seq<char>>)
    ensures
        length_prefixed(seq![x] + rest) == be32(vstd::utf8::encode_utf8(x).len() as u32) + vstd::utf8::encode_utf8(x)
            + length_prefixed(rest),
    decreases rest.len(),
{
    let s = seq![x] + rest;
    let bx = vstd::utf8::encode_utf8(x);
    if rest.len() == 0 {
        assert(s.drop_last() =~= Seq::<Seq<char>>::empty());
        assert(s.last() == x);
        assert(length_prefixed(Seq::<Seq<char>>::empty()) == Seq::<u8>::empty());
        assert(length_prefixed(s) =~= be32(bx.len() as u32) + bx);
        assert(rest =~= Seq::<Seq<char>>::empty());
        assert(be32(bx.len() as u32) + bx + length_prefixed(rest) =~= be32(bx.len() as u32) + bx);
    } else {
        lemma_length_prefixed_front(x, rest.drop_last());
        assert(s.drop_last() =~= seq![x] + rest.drop_last());
        assert(s.last() == rest.last());
        let bl = vstd::utf8::encode_utf8(rest.last());
        assert(length_prefixed(s) =~= be32(bx.len() as u32) + bx + length_prefixed(rest.drop_last())
            + be32(bl.len() as u32) + bl);
        assert(length_prefixed(rest) == length_prefixed(rest.drop_last()) + be32(bl.len() as u32) + bl);
        assert(length_prefixed(s) =~= be32(bx.len() as u32) + bx + length_prefixed(rest));
    }
}

/// The length-prefixed encoding of a countable list determines the list.
proof fn lemma_length_prefixed_injective(a: Seq<Seq<char>>, b: Seq<Seq<char>>)
    requires
        countable(a),
        countable(b),
        a.len() == b.len(),
        length_prefixed(a) == length_prefixed(b),
    ensures
        a == b,
    decreases a.len(),
{
    if a.len() == 0 {
        assert(a =~= b);
    } else {
        let ra = a.drop_first();
        let rb = b.drop_first();
        assert(a =~= seq![a[0]] + ra);
        assert(b =~= seq![b[0]] + rb);
        lemma_length_prefixed_front(a[0], ra);
        lemma_length_prefixed_front(b[0], rb);
        let ea = vstd::utf8::encode_utf8(a[0]);
        let eb = vstd::utf8::encode_utf8(b[0]);
        let la = ea.len() as u32;
        let lb = eb.len() as u32;
        let sa = be32(la) + ea + length_prefixed(ra);
        let sb = be32(lb) + eb + length_prefixed(rb);
        assert(sa == sb);
        assert(sa.subrange(0, 4) =~= be32(la));
        assert(sb.subrange(0, 4) =~= be32(lb));
        lemma_be32_injective(la, lb);
        assert(ea.len() == eb.len());
        assert(sa.subrange(4, 4 + ea.len() as int) =~= ea);
        assert(sb.subrange(4, 4 + eb.len() as int) =~= eb);
        vstd::utf8::encode_utf8_decode_utf8(a[0]);
        vstd::utf8::encode_utf8_decode_utf8(b[0]);
        assert(a[0] == b[0]);
        assert(sa.subrange(4 + ea.len() as int, sa.len() as int) =~= length_prefixed(ra));
        assert(sb.subrange(4 + eb.len() as int, sb.len() as int) =~= length_prefixed(rb));
        assert forall|i: int| 0 <= i < ra.len() implies vstd::utf8::encode_utf8(#[trigger] ra[i]).len() < 0x1_0000_0000 by {
            assert(ra[i] == a[i + 1]);
        }
        assert forall|i: int| 0 <= i < rb.len() implies vstd::utf8::encode_utf8(#[trigger] rb[i]).len() < 0x1_0000_0000 by {
            assert(rb[i] == b[i + 1]);
        }
        lemma_length_prefixed_injective(ra, rb);
    }
}

/// Bulk signing bytes are unambiguous: for one issuer and subject, two
/// different (countable) lists of achievements, or two orderings of the
/// same ones, never sign identical bytes.
pub proof fn lemma_bulk_bytes_are_unambiguous(
    claim_kind: Seq<char>,
    issuer_ref: Seq<char>,
    subject: u128,
    a: Seq<Seq<char>>,
    b: Seq<Seq<char>>,
)
    requires
        countable(a),
        countable(b),
        bulk_bytes(claim_kind, issuer_ref, subject, a) == bulk_bytes(claim_kind, issuer_ref, subject, b),
    ensures
        a == b,
{
    let head = vstd::utf8::encode_utf8("avalon:"@ + claim_kind + ".issued.bulk:v1:"@ + issuer_ref + ":"@
        + uuid_text(subject) + ":"@);
    let sa = head + be32(a.len() as u32) + length_prefixed(a);
    let sb = head + be32(b.len() as u32) + length_prefixed(b);
    assert(sa.subrange(head.len() as int, head.len() as int + 4) =~= be32(a.len() as u32));
    assert(sb.subrange(head.len() as int, head.len() as int + 4) =~= be32(b.len() as u32));
    lemma_be32_injective(a.len() as u32, b.len() as u32);
    assert(sa.subrange(head.len() as int + 4, sa.len() as int) =~= length_prefixed(a));
    assert(sb.subrange(head.len() as int + 4, sb.len() as int) =~= length_prefixed(b));
    lemma_length_prefixed_injective(a, b);
}

} // verus!
