//! What kind of thing an integrator is, and the claim vocabulary that
//! follows from it.

use vstd::prelude::*;

verus! {

/// Integrators aren't only games: an app or a service registers the same
/// way and issues the same kind of signed claim, under its own vocabulary.
/// A fixed, closed set.
#[derive(Debug, Clone, Copy, PartialEq, Eq, Hash, Structural)]
pub enum IntegratorCategory {
    /// A game. Issues `achievement` claims.
    Game,
    /// A non-game application. Issues `milestone` claims.
    App,
    /// A service (a website, a bot, a tool). Issues `milestone` claims.
    Service,
}

impl Default for IntegratorCategory {
    fn default() -> (c: IntegratorCategory)
        ensures
            c == IntegratorCategory::Game,
    {
        IntegratorCategory::Game
    }
}

impl IntegratorCategory {
    /// This category's permanent wire string.
    pub open spec fn wire(self) -> Seq<char> {
        match self {
            IntegratorCategory::Game => "game"@,
            IntegratorCategory::App => "app"@,
            IntegratorCategory::Service => "service"@,
        }
    }

    /// The claim-vocabulary word of this category: games say
    /// `achievement`, apps and services share `milestone`.
    pub open spec fn claim_word(self) -> Seq<char> {
        match self {
            IntegratorCategory::Game => "achievement"@,
            _ => "milestone"@,
        }
    }

    /// The category whose wire string is `s`, if any.
    pub open spec fn from_wire(s: Seq<char>) -> Option<IntegratorCategory> {
        if s == "game"@ {
            Some(IntegratorCategory::Game)
        } else if s == "app"@ {
            Some(IntegratorCategory::App)
        } else if s == "service"@ {
            Some(IntegratorCategory::Service)
        } else {
            None
        }
    }

    /// This category's permanent wire string.
    pub fn as_str(&self) -> (r: &'static str)
        ensures
            r@ == self.wire(),
    {
        match self {
            IntegratorCategory::Game => "game",
            IntegratorCategory::App => "app",
            IntegratorCategory::Service => "service",
        }
    }

    /// Parses a wire string back into a category; `None` if unrecognized.
    pub fn parse(s: &str) -> (r: Option<IntegratorCategory>)
        ensures
            r == IntegratorCategory::from_wire(s@),
    {
        if crate::text::str_eq(s, "game") {
            Some(IntegratorCategory::Game)
        } else if crate::text::str_eq(s, "app") {
            Some(IntegratorCategory::App)
        } else if crate::text::str_eq(s, "service") {
            Some(IntegratorCategory::Service)
        } else {
            None
        }
    }

    /// The claim-vocabulary word this category's issuers use, folded into
    /// identifiers and into attestation signing bytes so that a signature
    /// made under one vocabulary never passes as the other.
    pub fn claim_kind(&self) -> (r: &'static str)
        ensures
            r@ == self.claim_word(),
    {
        match self {
            IntegratorCategory::Game => "achievement",
            _ => "milestone",
        }
    }
}

/// The three wire strings are pairwise distinct.
pub proof fn lemma_category_wires_distinct()
    ensures
        forall|a: IntegratorCategory, b: IntegratorCategory| a.wire() == b.wire() ==> a == b,
{
    reveal_strlit("game");
    reveal_strlit("app");
    reveal_strlit("service");
    assert forall|a: IntegratorCategory, b: IntegratorCategory| a.wire() == b.wire() implies a
        == b by {
        match (a, b) {
            (IntegratorCategory::Game, IntegratorCategory::App) => {
                assert(a.wire().len() != b.wire().len());
            },
            (IntegratorCategory::App, IntegratorCategory::Game) => {
                assert(a.wire().len() != b.wire().len());
            },
            (IntegratorCategory::Game, IntegratorCategory::Service) => {
                assert(a.wire().len() != b.wire().len());
            },
            (IntegratorCategory::Service, IntegratorCategory::Game) => {
                assert(a.wire().len() != b.wire().len());
            },
            (IntegratorCategory::App, IntegratorCategory::Service) => {
                assert(a.wire().len() != b.wire().len());
            },
            (IntegratorCategory::Service, IntegratorCategory::App) => {
                assert(a.wire().len() != b.wire().len());
            },
            _ => {},
        }
    }
}

/// Every category round-trips through its wire string, and a string
/// parses to a category only if it is that category's wire string.
pub proof fn lemma_category_round_trips(c: IntegratorCategory, s: Seq<char>)
    ensures
        IntegratorCategory::from_wire(c.wire()) == Some(c),
        IntegratorCategory::from_wire(s) matches Some(d) ==> d.wire() == s,
{
    lemma_category_wires_distinct();
    reveal_strlit("game");
    reveal_strlit("app");
    reveal_strlit("service");
    assert("app"@.len() != "game"@.len());
    assert("service"@.len() != "game"@.len());
    assert("service"@.len() != "app"@.len());
}

} // verus!
