//! Registering this integrator's key as an issuer on a network: refused,
//! client-side, unless the server verifiably is the network the caller
//! declared.

use vstd::prelude::*;
use crate::crypto::{base64_bytes, base64_decode, base64_encode, base64_text, ed25519_public_key, ed25519_signature, public_key, sign};
use crate::error::SdkError;
use crate::network::{check_target_network, target_check, NetworkTargetError, NetworkTrustStatus, TargetNetwork};
use crate::text::{owned, push_str, utf8_bytes};

verus! {

/// Why an issuer registration failed.
#[derive(Debug, Clone, PartialEq, Eq)]
pub enum IssuerRegistrationError {
    /// The server is not verifiably the declared network.
    NetworkTarget(NetworkTargetError),
    /// No signing key is configured.
    MissingSigningKey,
    /// The registration request itself failed.
    Sdk(SdkError),
}

impl IssuerRegistrationError {
    /// The human-readable text of this error.
    pub open spec fn text(&self) -> Seq<char> {
        match self {
            IssuerRegistrationError::NetworkTarget(e) => e.text(),
            IssuerRegistrationError::MissingSigningKey => "no signing key configured — set AvalonConfig::signing_key"@,
            IssuerRegistrationError::Sdk(e) => e.text(),
        }
    }

    /// The human-readable text of this error.
    pub fn message(&self) -> (r: String)
        ensures
            r@ == self.text(),
    {
        match self {
            IssuerRegistrationError::NetworkTarget(e) => e.message(),
            IssuerRegistrationError::MissingSigningKey => owned("no signing key configured — set AvalonConfig::signing_key"),
            IssuerRegistrationError::Sdk(e) => e.message(),
        }
    }
}

/// `avalon:issuer.registered:v1:<issuer_ref>:<declared_network_id>:<base64 nonce>`.
pub open spec fn possession_text(issuer_ref: Seq<char>, declared_network_id: Seq<char>, nonce: Seq<u8>) -> Seq<char> {
    "avalon:issuer.registered:v1:"@ + issuer_ref + ":"@ + declared_network_id + ":"@ + base64_text(nonce)
}

/// The bytes a proof of possession signs: it binds the registration to the
/// declared network and the server's challenge.
pub fn proof_of_possession_message(issuer_ref: &str, declared_network_id: &str, nonce: &[u8]) -> (r: Vec<u8>)
    ensures
        r@ == vstd::utf8::encode_utf8(possession_text(issuer_ref@, declared_network_id@, nonce@)),
{
    let mut s = owned("avalon:issuer.registered:v1:");
    push_str(&mut s, issuer_ref);
    push_str(&mut s, ":");
    push_str(&mut s, declared_network_id);
    push_str(&mut s, ":");
    let encoded = base64_encode(nonce);
    push_str(&mut s, encoded.as_str());
    utf8_bytes(s.as_str())
}

/// What a registration carries before the server's challenge is known: the
/// network id it declares and the issuer's public key.
pub struct RegistrationIntent {
    /// The signing-key seed.
    pub seed: [u8; 32],
    /// The network id the server verified as and the caller declared.
    pub declared_network_id: String,
    /// The base64 Ed25519 public key being registered.
    pub issuer_pubkey: String,
}

/// A registration proceeds only with a configured signing key, and only
/// against a server whose verified network is the declared target; it
/// then declares that network's id and the key's public half.
pub fn registration_intent(
    signing_key: &Option<[u8; 32]>,
    status: &NetworkTrustStatus,
    target: &TargetNetwork,
) -> (r: Result<RegistrationIntent, IssuerRegistrationError>)
    ensures
        match signing_key {
            None => r == Err::<RegistrationIntent, IssuerRegistrationError>(IssuerRegistrationError::MissingSigningKey),
            Some(seed) => match r {
                Ok(i) => i.seed == *seed && i.issuer_pubkey@ == base64_text(ed25519_public_key(seed@))
                    && exists|e: crate::network::TrustAnchorEntry| #[trigger] target_check(*status, *target, Ok(e))
                        && i.declared_network_id@ == e.network_id@,
                Err(IssuerRegistrationError::NetworkTarget(e)) => target_check(*status, *target, Err(e)),
                Err(_) => false,
            },
        },
{
    let seed = match signing_key {
        Some(s) => *s,
        None => return Err(IssuerRegistrationError::MissingSigningKey),
    };
    let entry = match check_target_network(status, target) {
        Ok(entry) => entry,
        Err(e) => return Err(IssuerRegistrationError::NetworkTarget(e)),
    };
    let declared_network_id = owned(entry.network_id.as_str());
    let key = public_key(&seed);
    let issuer_pubkey = base64_encode(&key);
    Ok(RegistrationIntent { seed, declared_network_id, issuer_pubkey })
}

/// The base64 proof-of-possession signature over the registration,
/// binding it to the server's challenge nonce (base64); a nonce that is not
/// base64 fails the registration as a protocol error.
pub fn possession_signature(intent: &RegistrationIntent, issuer_ref: &str, nonce_b64: &str) -> (r: Result<String, IssuerRegistrationError>)
    ensures
        match base64_bytes(nonce_b64@) {
            Some(nonce) => r matches Ok(sig) && sig@ == base64_text(ed25519_signature(intent.seed@,
                vstd::utf8::encode_utf8(possession_text(issuer_ref@, intent.declared_network_id@, nonce)))),
            None => r matches Err(IssuerRegistrationError::Sdk(SdkError::Protocol(m)))
                && m@ == "registration challenge nonce was not valid base64"@,
        },
{
    let nonce = match base64_decode(nonce_b64) {
        Some(n) => n,
        None => return Err(IssuerRegistrationError::Sdk(SdkError::Protocol(owned(
            "registration challenge nonce was not valid base64",
        )))),
    };
    let message = proof_of_possession_message(issuer_ref, intent.declared_network_id.as_str(), nonce.as_slice());
    let signature = sign(&intent.seed, message.as_slice());
    Ok(base64_encode(&signature))
}

} // verus!
