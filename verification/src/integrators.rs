//! Registering and listing integrators: the request shapes and the query
//! vocabulary of the integrator directory.

use vstd::prelude::*;
use crate::text::{owned, signed_decimal, signed_decimal_string, uuid_string, uuid_text};

verus! {

/// The initial signing key an integrator registers with.
#[derive(Debug, Clone, PartialEq, Eq)]
pub struct InitialKey {
    /// Key algorithm, e.g. `ed25519`.
    pub algorithm: String,
    /// The public key, encoded as the algorithm expects.
    pub public_key: String,
}

/// A new integrator registration.
#[derive(Debug, Clone, PartialEq, Eq)]
pub struct NewIntegrator {
    /// The integrator's unique slug.
    pub slug: String,
    /// Display name.
    pub name: String,
    /// Who runs it.
    pub owner_name: String,
    /// Capabilities it will ask users for.
    pub requested_capabilities: Vec<String>,
    /// Its first signing key.
    pub initial_key: InitialKey,
    /// Its category's wire string, when not the default.
    pub category: Option<String>,
}

/// The order of an integrator listing.
#[derive(Debug, Clone, Copy, PartialEq, Eq, Structural)]
pub enum IntegratorsListSort {
    /// Most recently registered first.
    Newest,
    /// By name.
    Name,
}

impl Default for IntegratorsListSort {
    fn default() -> (s: IntegratorsListSort)
        ensures
            s == IntegratorsListSort::Newest,
    {
        IntegratorsListSort::Newest
    }
}

impl IntegratorsListSort {
    /// The server's query word for this order.
    pub open spec fn query_word(self) -> Seq<char> {
        match self {
            IntegratorsListSort::Newest => "newest"@,
            IntegratorsListSort::Name => "name"@,
        }
    }

    /// The server's query word for this order.
    pub fn as_query_str(self) -> (r: &'static str)
        ensures
            r@ == self.query_word(),
    {
        match self {
            IntegratorsListSort::Newest => "newest",
            IntegratorsListSort::Name => "name",
        }
    }
}

/// Filters and paging of an integrator listing.
#[derive(Debug, Clone, PartialEq, Eq, Default)]
pub struct ListIntegratorsQuery {
    /// Free-text search.
    pub q: Option<String>,
    /// Order.
    pub sort: IntegratorsListSort,
    /// Page size.
    pub limit: Option<i64>,
    /// Continue after this integrator.
    pub cursor: Option<u128>,
}

/// The query parameters of a listing: the order always, then the search,
/// the page size and the cursor when given.
pub open spec fn query_params(query: ListIntegratorsQuery) -> Seq<(Seq<char>, Seq<char>)> {
    seq![("sort"@, query.sort.query_word())]
        + match query.q { Some(q) => seq![("q"@, q@)], None => Seq::empty() }
        + match query.limit { Some(l) => seq![("limit"@, signed_decimal(l as int))], None => Seq::empty() }
        + match query.cursor { Some(c) => seq![("cursor"@, uuid_text(c))], None => Seq::empty() }
}

/// A listing sends every filter it is given and no other: the order first
/// (`newest` or `name`), then the search text exactly when one is given,
/// the page size exactly when one is given and the cursor exactly when one
/// is given, each under its own key.
pub proof fn lemma_listing_sends_every_filter(query: ListIntegratorsQuery)
    ensures
        query_params(query).len() >= 1,
        query_params(query)[0].0 == "sort"@,
        query.sort == IntegratorsListSort::Newest ==> query_params(query)[0].1 == "newest"@,
        query.sort == IntegratorsListSort::Name ==> query_params(query)[0].1 == "name"@,
        query.q matches Some(t) ==> query_params(query).contains(("q"@, t@)),
        query.q is None ==> forall|i: int| 0 <= i < query_params(query).len() ==> (#[trigger] query_params(query)[i]).0 != "q"@,
        query.limit matches Some(l) ==> query_params(query).contains(("limit"@, signed_decimal(l as int))),
        query.limit is None ==> forall|i: int| 0 <= i < query_params(query).len() ==> (#[trigger] query_params(query)[i]).0 != "limit"@,
        query.cursor matches Some(c) ==> query_params(query).contains(("cursor"@, uuid_text(c))),
        query.cursor is None ==> forall|i: int| 0 <= i < query_params(query).len() ==> (#[trigger] query_params(query)[i]).0 != "cursor"@,
        query_params(query).len() == 1 + (if query.q is Some { 1int } else { 0 })
            + (if query.limit is Some { 1int } else { 0 }) + (if query.cursor is Some { 1int } else { 0 }),
{
    reveal_strlit("sort");
    reveal_strlit("q");
    reveal_strlit("limit");
    reveal_strlit("cursor");
    reveal_strlit("newest");
    reveal_strlit("name");
    assert("sort"@.len() == 4 && "q"@.len() == 1 && "limit"@.len() == 5 && "cursor"@.len() == 6);
    let p = query_params(query);
    let a = seq![("sort"@, query.sort.query_word())];
    let b = match query.q { Some(q) => seq![("q"@, q@)], None => Seq::<(Seq<char>, Seq<char>)>::empty() };
    let c = match query.limit { Some(l) => seq![("limit"@, signed_decimal(l as int))], None => Seq::<(Seq<char>, Seq<char>)>::empty() };
    let d = match query.cursor { Some(u) => seq![("cursor"@, uuid_text(u))], None => Seq::<(Seq<char>, Seq<char>)>::empty() };
    assert(p == a + b + c + d);
    assert(p[0] == a[0]);
    if let Some(t) = query.q {
        assert(p[1] == ("q"@, t@));
    }
    if let Some(l) = query.limit {
        assert(p[(1 + b.len()) as int] == ("limit"@, signed_decimal(l as int)));
    }
    if let Some(u) = query.cursor {
        assert(p[(1 + b.len() + c.len()) as int] == ("cursor"@, uuid_text(u)));
    }
    assert forall|i: int| 0 <= i < p.len() implies {
        &&& (query.q is None ==> (#[trigger] p[i]).0 != "q"@)
        &&& (query.limit is None ==> p[i].0 != "limit"@)
        &&& (query.cursor is None ==> p[i].0 != "cursor"@)
    } by {
        if i == 0 {
        } else if i < 1 + b.len() {
            assert(p[i] == b[i - 1]);
        } else if i < 1 + b.len() + c.len() {
            assert(p[i] == c[i - 1 - b.len()]);
        } else {
            assert(p[i] == d[i - 1 - b.len() - c.len()]);
        }
    }
}

/// The query parameters of a listing.
pub fn list_params(query: &ListIntegratorsQuery) -> (r: Vec<(String, String)>)
    ensures
        r@.map_values(|p: (String, String)| (p.0@, p.1@)) == query_params(*query),
{
    let mut params: Vec<(String, String)> = Vec::new();
    params.push((owned("sort"), owned(query.sort.as_query_str())));
    match &query.q {
        Some(q) => params.push((owned("q"), owned(q.as_str()))),
        None => {},
    }
    match query.limit {
        Some(l) => params.push((owned("limit"), signed_decimal_string(l))),
        None => {},
    }
    match query.cursor {
        Some(c) => params.push((owned("cursor"), uuid_string(c))),
        None => {},
    }
    proof {
        assert(params@.map_values(|p: (String, String)| (p.0@, p.1@)) =~= query_params(*query));
    }
    params
}

} // verus!
