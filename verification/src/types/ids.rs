//! Globally unique identifiers, as they appear on the wire. A UUID is held
//! as its 128-bit value; its text is the hyphenated lowercase form.

use vstd::prelude::*;
use crate::text::{push_str, uuid_string, uuid_text};

verus! {

/// An opaque, stable identity handle. Never derived from a display name.
#[derive(Debug, Clone, Copy, PartialEq, Eq, Hash, Structural)]
pub struct IdentityId(pub u128);

/// A registered integrator (game, app, or service).
#[derive(Debug, Clone, Copy, PartialEq, Eq, Hash, Structural)]
pub struct IntegratorId(pub u128);

/// A guild, which exists independently of any one integrator.
#[derive(Debug, Clone, Copy, PartialEq, Eq, Hash, Structural)]
pub struct GuildId(pub u128);

impl IdentityId {
    /// The identity's UUID text, exactly as it appears on the wire.
    pub fn to_text(&self) -> (r: String)
        ensures
            r@ == uuid_text(self.0),
    {
        uuid_string(self.0)
    }
}

impl IntegratorId {
    /// The integrator's UUID text, exactly as it appears on the wire.
    pub fn to_text(&self) -> (r: String)
        ensures
            r@ == uuid_text(self.0),
    {
        uuid_string(self.0)
    }
}

impl GuildId {
    /// The guild's UUID text, exactly as it appears on the wire.
    pub fn to_text(&self) -> (r: String)
        ensures
            r@ == uuid_text(self.0),
    {
        uuid_string(self.0)
    }
}

/// `<namespace>:<owner>:<kind>:<key>` as one text.
pub open spec fn global_id_text(namespace: Seq<char>, owner: Seq<char>, kind: Seq<char>, key: Seq<char>) -> Seq<char> {
    namespace + seq![':'] + owner + seq![':'] + kind + seq![':'] + key
}

/// A namespaced, human-readable identifier:
/// `<namespace>:<owner>:<kind>:<key>`, e.g.
/// `game:ashen-realms:achievement:dragon_slayer`. Two integrators can both
/// define `dragon_slayer` without colliding, because the integrator's own
/// slug is part of the identifier.
#[derive(Debug, Clone, PartialEq, Eq, Hash)]
pub struct GlobalId(String);

impl GlobalId {
    /// The full identifier text.
    pub closed spec fn text(&self) -> Seq<char> {
        self.0@
    }

    /// Builds `<namespace>:<owner>:<kind>:<key>`.
    pub fn new(namespace: &str, owner: &str, kind: &str, key: &str) -> (g: GlobalId)
        ensures
            g.text() == global_id_text(namespace@, owner@, kind@, key@),
    {
        let mut s = String::new();
        push_str(&mut s, namespace);
        push_str(&mut s, ":");
        push_str(&mut s, owner);
        push_str(&mut s, ":");
        push_str(&mut s, kind);
        push_str(&mut s, ":");
        push_str(&mut s, key);
        proof {
            reveal_strlit(":");
            assert(s@ =~= global_id_text(namespace@, owner@, kind@, key@));
        }
        GlobalId(s)
    }

    /// The full identifier text.
    pub fn as_str(&self) -> (r: &str)
        ensures
            r@ == self.text(),
    {
        self.0.as_str()
    }
}

} // verus!
