//! An integrator's public registry: durable counts, each labeled with how
//! it is derived and whether it is exact.

use vstd::prelude::*;

verus! {

/// One count with its provenance.
#[derive(Debug, Clone, PartialEq, Eq)]
pub struct Metric {
    /// The count.
    pub value: i64,
    /// What is counted.
    pub definition: String,
    /// How the count is derived.
    pub class: String,
    /// Whether it is exact rather than estimated.
    pub exact: bool,
}

/// The registry of one integrator.
#[derive(Debug, Clone, PartialEq, Eq)]
pub struct Registry {
    /// Current players.
    pub players: Metric,
    /// Everyone who ever played.
    pub total_players_ever: Metric,
    /// Achievements issued.
    pub achievements_issued: Metric,
    /// Achievements revoked.
    pub achievements_revoked: Metric,
    /// Distinct identities holding at least one achievement.
    pub unique_achievement_holders: Metric,
}

} // verus!
