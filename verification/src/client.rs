//! What an integrator configures a client with, and the capability check
//! every gated session call makes before anything is sent.

use vstd::prelude::*;
use crate::error::SdkError;
use crate::http::RetryConfig;
use crate::types::permissions::Capability;

verus! {

/// Everything an integrator supplies to construct a client.
pub struct AvalonConfig {
    /// Base URL of the server this client talks to.
    pub server_url: String,
    /// This integrator's own registered credential key id.
    pub integrator_credential_key_id: String,
    /// This integrator's own registered slug; needed only to issue claims.
    pub integrator_slug: Option<String>,
    /// This integrator's 32-byte Ed25519 signing-key seed, held only in
    /// this process; needed only to issue claims.
    pub signing_key: Option<[u8; 32]>,
    /// Retry, backoff and timeout tuning.
    pub retry: RetryConfig,
}

/// Whether `granted` holds `capability`.
pub open spec fn holds_capability(granted: Seq<Capability>, capability: Capability) -> bool {
    exists|i: int| 0 <= i < granted.len() && (#[trigger] granted[i]).same_as(capability)
}

/// A gated call proceeds only with the capability granted; otherwise it is
/// refused locally, naming the capability's wire string.
pub fn require(granted: &Vec<Capability>, capability: &Capability) -> (r: Result<(), SdkError>)
    ensures
        holds_capability(granted@, *capability) ==> r is Ok,
        !holds_capability(granted@, *capability) ==> (r matches Err(SdkError::CapabilityNotGranted(c))
            && c@ == capability.wire()),
{
    let mut i: usize = 0;
    while i < granted.len()
        invariant
            i <= granted@.len(),
            forall|j: int| 0 <= j < i ==> !(#[trigger] granted@[j]).same_as(*capability),
        decreases granted@.len() - i,
    {
        if granted[i].same(capability) {
            return Ok(());
        }
        i = i + 1;
    }
    Err(SdkError::CapabilityNotGranted(crate::text::owned(capability.as_str())))
}

/// The capabilities a grant list names, each wire string parsed as a
/// capability (an unknown one is kept as `Other`).
pub fn capabilities_from_wire(names: &Vec<String>) -> (r: Vec<Capability>)
    ensures
        r@.len() == names@.len(),
        forall|i: int| 0 <= i < names@.len() ==> (#[trigger] r@[i]).parsed_from(names@[i]@),
{
    let mut r: Vec<Capability> = Vec::new();
    let mut i: usize = 0;
    while i < names.len()
        invariant
            i <= names@.len(),
            r@.len() == i,
            forall|j: int| 0 <= j < i ==> (#[trigger] r@[j]).parsed_from(names@[j]@),
        decreases names@.len() - i,
    {
        r.push(Capability::parse(names[i].as_str()));
        i = i + 1;
    }
    r
}

} // verus!
