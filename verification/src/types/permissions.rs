//! Explicit, capability-based permissions. A capability is one of a known
//! set of scoped permissions, or any other wire string carried through
//! unchanged; the wire string, not the variant name, is its permanent
//! identifier.

use vstd::prelude::*;
use crate::text::{owned, str_eq};

verus! {

/// A single scoped permission, e.g. `presence.read`. An unrecognized wire
/// string round-trips through [`Capability::Other`] rather than erroring.
#[derive(Debug, Clone, PartialEq, Eq, Hash)]
pub enum Capability {
    /// Read the connected identity's own id.
    IdentityRead,
    /// Read the connected identity's profile.
    ProfileRead,
    /// Read the connected identity's friend list.
    FriendsRead,
    /// Read presence for identities the user's graph exposes.
    PresenceRead,
    /// Publish presence on the connected identity's behalf.
    PresencePublish,
    /// Read the connected identity's guilds, rosters, and channels.
    GuildsRead,
    /// Read and post guild chat.
    GuildsChat,
    /// Issue guild-scoped claims.
    GuildsIssue,
    /// Read the connected identity's attestation history.
    AchievementsRead,
    /// Issue achievement attestations as this integrator.
    AchievementsIssue,
    /// The milestone equivalent of `AchievementsIssue`, for app/service
    /// issuers.
    MilestonesIssue,
    /// Read the connected identity's assets.
    AssetsRead,
    /// Issue assets as this integrator.
    AssetsIssue,
    /// Read the connected identity's wallet.
    WalletRead,
    /// Write to the connected identity's wallet.
    WalletWrite,
    /// Read direct conversations and their messages.
    MessagesRead,
    /// Send messages on the connected identity's behalf.
    MessagesSend,
    /// Anything not yet known to this build — never dropped, never
    /// rejected.
    Other(String),
}

/// The permanent wire string of each known capability, by position in the
/// known list (`0..17`).
pub open spec fn known_wire(i: int) -> Seq<char> {
    if i == 0 { "identity.read"@ }
    else if i == 1 { "profile.read"@ }
    else if i == 2 { "friends.read"@ }
    else if i == 3 { "presence.read"@ }
    else if i == 4 { "presence.publish"@ }
    else if i == 5 { "guilds.read"@ }
    else if i == 6 { "guilds.chat"@ }
    else if i == 7 { "guilds.issue"@ }
    else if i == 8 { "achievements.read"@ }
    else if i == 9 { "achievements.issue"@ }
    else if i == 10 { "milestones.issue"@ }
    else if i == 11 { "assets.read"@ }
    else if i == 12 { "assets.issue"@ }
    else if i == 13 { "wallet.read"@ }
    else if i == 14 { "wallet.write"@ }
    else if i == 15 { "messages.read"@ }
    else { "messages.send"@ }
}

/// How many capabilities this build knows by name.
pub open spec fn known_count() -> int {
    17
}

impl Capability {
    /// The position of a known capability in the known list; `-1` for
    /// [`Capability::Other`].
    pub open spec fn known_index(self) -> int {
        match self {
            Capability::IdentityRead => 0,
            Capability::ProfileRead => 1,
            Capability::FriendsRead => 2,
            Capability::PresenceRead => 3,
            Capability::PresencePublish => 4,
            Capability::GuildsRead => 5,
            Capability::GuildsChat => 6,
            Capability::GuildsIssue => 7,
            Capability::AchievementsRead => 8,
            Capability::AchievementsIssue => 9,
            Capability::MilestonesIssue => 10,
            Capability::AssetsRead => 11,
            Capability::AssetsIssue => 12,
            Capability::WalletRead => 13,
            Capability::WalletWrite => 14,
            Capability::MessagesRead => 15,
            Capability::MessagesSend => 16,
            Capability::Other(_) => -1,
        }
    }

    /// The permanent wire string this capability (de)serializes as.
    pub open spec fn wire(self) -> Seq<char> {
        match self {
            Capability::Other(s) => s@,
            _ => known_wire(self.known_index()),
        }
    }

    /// Two capabilities are the same permission: the same known variant,
    /// or both `Other` with the same text.
    pub open spec fn same_as(self, other: Capability) -> bool {
        &&& self.known_index() == other.known_index()
        &&& self.known_index() == -1 ==> self.wire() == other.wire()
    }

    /// What [`Capability::parse`] yields for the wire string `s`: the known
    /// capability whose wire string it is, otherwise `Other` carrying `s`.
    pub open spec fn parsed_from(self, s: Seq<char>) -> bool {
        if exists|i: int| 0 <= i < known_count() && known_wire(i) == s {
            self.known_index() >= 0 && known_wire(self.known_index()) == s
        } else {
            self.known_index() == -1 && self.wire() == s
        }
    }

    /// The known capability at position `i` of the known list.
    pub fn known_at(i: usize) -> (c: Capability)
        requires
            i < 17,
        ensures
            c.known_index() == i as int,
    {
        match i {
            0 => Capability::IdentityRead,
            1 => Capability::ProfileRead,
            2 => Capability::FriendsRead,
            3 => Capability::PresenceRead,
            4 => Capability::PresencePublish,
            5 => Capability::GuildsRead,
            6 => Capability::GuildsChat,
            7 => Capability::GuildsIssue,
            8 => Capability::AchievementsRead,
            9 => Capability::AchievementsIssue,
            10 => Capability::MilestonesIssue,
            11 => Capability::AssetsRead,
            12 => Capability::AssetsIssue,
            13 => Capability::WalletRead,
            14 => Capability::WalletWrite,
            15 => Capability::MessagesRead,
            _ => Capability::MessagesSend,
        }
    }

    /// Every known (non-`Other`) capability, in their permanent order — the
    /// one place that enumerates the full capability set.
    pub fn known() -> (v: Vec<Capability>)
        ensures
            v@.len() == known_count(),
            forall|i: int| 0 <= i < known_count() ==> #[trigger] v@[i].known_index() == i,
    {
        let mut v: Vec<Capability> = Vec::new();
        let mut i: usize = 0;
        while i < 17
            invariant
                i <= 17,
                v@.len() == i,
                forall|j: int| 0 <= j < i ==> #[trigger] v@[j].known_index() == j,
            decreases 17 - i,
        {
            v.push(Capability::known_at(i));
            i = i + 1;
        }
        v
    }

    /// The permanent wire string this capability (de)serializes as.
    pub fn as_str(&self) -> (r: &str)
        ensures
            r@ == self.wire(),
    {
        match self {
            Capability::IdentityRead => "identity.read",
            Capability::ProfileRead => "profile.read",
            Capability::FriendsRead => "friends.read",
            Capability::PresenceRead => "presence.read",
            Capability::PresencePublish => "presence.publish",
            Capability::GuildsRead => "guilds.read",
            Capability::GuildsChat => "guilds.chat",
            Capability::GuildsIssue => "guilds.issue",
            Capability::AchievementsRead => "achievements.read",
            Capability::AchievementsIssue => "achievements.issue",
            Capability::MilestonesIssue => "milestones.issue",
            Capability::AssetsRead => "assets.read",
            Capability::AssetsIssue => "assets.issue",
            Capability::WalletRead => "wallet.read",
            Capability::WalletWrite => "wallet.write",
            Capability::MessagesRead => "messages.read",
            Capability::MessagesSend => "messages.send",
            Capability::Other(s) => s.as_str(),
        }
    }

    /// Parses a wire string. Never fails: an unrecognized string becomes
    /// [`Capability::Other`] carrying it unchanged.
    pub fn parse(s: &str) -> (c: Capability)
        ensures
            c.parsed_from(s@),
    {
        let mut i: usize = 0;
        while i < 17
            invariant
                i <= 17,
                forall|j: int| 0 <= j < i ==> known_wire(j) != s@,
            decreases 17 - i,
        {
            let candidate = Capability::known_at(i);
            if str_eq(candidate.as_str(), s) {
                proof {
                    lemma_known_wires_distinct();
                }
                return candidate;
            }
            i = i + 1;
        }
        Capability::Other(owned(s))
    }

    /// Whether two capabilities are the same permission.
    pub fn same(&self, other: &Capability) -> (r: bool)
        ensures
            r == self.same_as(*other),
    {
        match (self, other) {
            (Capability::Other(a), Capability::Other(b)) => str_eq(a.as_str(), b.as_str()),
            (Capability::Other(_), _) => false,
            (_, Capability::Other(_)) => false,
            _ => {
                let a = self.as_str();
                let b = other.as_str();
                proof {
                    lemma_known_wires_distinct();
                }
                str_eq(a, b)
            },
        }
    }
}

/// Length of the `i`-th known wire string.
spec fn known_len(i: int) -> int {
    if i == 0 { 13 } else if i == 1 { 12 } else if i == 2 { 12 } else if i == 3 { 13 }
    else if i == 4 { 16 } else if i == 5 { 11 } else if i == 6 { 11 } else if i == 7 { 12 }
    else if i == 8 { 17 } else if i == 9 { 18 } else if i == 10 { 16 } else if i == 11 { 11 }
    else if i == 12 { 12 } else if i == 13 { 11 } else if i == 14 { 12 } else if i == 15 { 13 }
    else { 13 }
}

/// First character of the `i`-th known wire string.
spec fn known_first(i: int) -> char {
    if i == 0 { 'i' } else if i == 1 { 'p' } else if i == 2 { 'f' } else if i == 3 { 'p' }
    else if i == 4 { 'p' } else if i == 5 { 'g' } else if i == 6 { 'g' } else if i == 7 { 'g' }
    else if i == 8 { 'a' } else if i == 9 { 'a' } else if i == 10 { 'm' } else if i == 11 { 'a' }
    else if i == 12 { 'a' } else if i == 13 { 'w' } else if i == 14 { 'w' } else if i == 15 { 'm' }
    else { 'm' }
}

/// Fourth character from the end of the `i`-th known wire string.
spec fn known_mark(i: int) -> char {
    if i == 0 { 'r' } else if i == 1 { 'r' } else if i == 2 { 'r' } else if i == 3 { 'r' }
    else if i == 4 { 'l' } else if i == 5 { 'r' } else if i == 6 { 'c' } else if i == 7 { 's' }
    else if i == 8 { 'r' } else if i == 9 { 's' } else if i == 10 { 's' } else if i == 11 { 'r' }
    else if i == 12 { 's' } else if i == 13 { 'r' } else if i == 14 { 'r' } else if i == 15 { 'r' }
    else { 's' }
}

/// Length, first character and fourth-from-last character of each known
/// wire string.
proof fn lemma_known_wire_shape(i: int)
    requires
        0 <= i < known_count(),
    ensures
        known_wire(i).len() == known_len(i),
        known_wire(i)[0] == known_first(i),
        known_wire(i)[known_len(i) - 4] == known_mark(i),
{
    if i == 0 { reveal_strlit("identity.read"); }
    else if i == 1 { reveal_strlit("profile.read"); }
    else if i == 2 { reveal_strlit("friends.read"); }
    else if i == 3 { reveal_strlit("presence.read"); }
    else if i == 4 { reveal_strlit("presence.publish"); }
    else if i == 5 { reveal_strlit("guilds.read"); }
    else if i == 6 { reveal_strlit("guilds.chat"); }
    else if i == 7 { reveal_strlit("guilds.issue"); }
    else if i == 8 { reveal_strlit("achievements.read"); }
    else if i == 9 { reveal_strlit("achievements.issue"); }
    else if i == 10 { reveal_strlit("milestones.issue"); }
    else if i == 11 { reveal_strlit("assets.read"); }
    else if i == 12 { reveal_strlit("assets.issue"); }
    else if i == 13 { reveal_strlit("wallet.read"); }
    else if i == 14 { reveal_strlit("wallet.write"); }
    else if i == 15 { reveal_strlit("messages.read"); }
    else { reveal_strlit("messages.send"); }
}

/// The known wire strings are pairwise distinct.
pub proof fn lemma_known_wires_distinct()
    ensures
        forall|i: int, j: int|
            0 <= i < known_count() && 0 <= j < known_count() && i != j ==> known_wire(i)
                != known_wire(j),
{
    assert forall|i: int, j: int|
        0 <= i < known_count() && 0 <= j < known_count() && i != j implies known_wire(i)
            != known_wire(j) by {
        lemma_known_wire_shape(i);
        lemma_known_wire_shape(j);
        if known_wire(i) == known_wire(j) {
            assert(known_len(i) == known_len(j));
            assert(known_first(i) == known_first(j));
            assert(known_mark(i) == known_mark(j));
        }
    }
}

/// Every known capability round-trips through its wire string: parsing
/// `c.as_str()` gives back `c`.
pub proof fn lemma_known_capability_round_trips(c: Capability)
    requires
        c.known_index() >= 0,
    ensures
        forall|p: Capability| #[trigger] p.parsed_from(c.wire()) ==> p.same_as(c),
{
    lemma_known_wires_distinct();
    assert(known_wire(c.known_index()) == c.wire());
}

/// An unrecognized wire string round-trips through `Other` with no data
/// loss: parsing it gives `Other` carrying exactly that text, whose wire
/// string is that same text again.
pub proof fn lemma_unknown_string_round_trips(s: Seq<char>, p: Capability)
    requires
        forall|i: int| 0 <= i < known_count() ==> known_wire(i) != s,
        p.parsed_from(s),
    ensures
        p.known_index() == -1,
        p.wire() == s,
{
}

/// Parsing is a function of the text: two results of parsing the same
/// string are the same capability.
pub proof fn lemma_parse_is_deterministic(s: Seq<char>, p: Capability, q: Capability)
    requires
        p.parsed_from(s),
        q.parsed_from(s),
    ensures
        p.same_as(q),
{
    lemma_known_wires_distinct();
}

} // verus!
