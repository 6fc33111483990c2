//! Deferred submission: classifying what the server answered for a queued
//! journal entry, the order pending entries are drained in, and the
//! per-entry retry bookkeeping between drains.
//!
//! A stale session token never discards queued work: a 401 leaves the
//! entry pending with no backoff consumed. A 404 on the idempotent message
//! endpoint means the message was already applied and pruned.

use vstd::prelude::*;
use crate::error::SdkError;
use crate::text::{lemma_text_lt_order, owned, push_str, text_less, text_lt};
use std::collections::HashMap;

verus! {

broadcast use vstd::std_specs::hash::group_hash_axioms;

/// The one journal kind wired end to end: a queued conversation message.
pub const CONVERSATION_MESSAGE_KIND: &'static str = "chat.message";

/// A definitive result for a submission attempt: the server was reached
/// and gave a final answer.
#[derive(Debug, Clone, PartialEq, Eq)]
pub enum SubmitOutcome {
    /// The server accepted it.
    Applied,
    /// Permanently invalid; never retried.
    Rejected {
        /// Why, for surfacing to the integrator or user.
        reason: String,
    },
}

/// Why a submission could not produce a [`SubmitOutcome`] this attempt.
#[derive(Debug, Clone, PartialEq, Eq)]
pub enum SubmitError {
    /// A network error or 5xx: retry with backoff.
    Retryable(String),
    /// No submission logic for the entry's kind; left pending untouched.
    UnsupportedKind,
    /// The session token itself was rejected (401); left pending with no
    /// backoff, the caller should re-authenticate.
    AuthenticationRequired,
}

/// How the outcome of sending a queued conversation message is classified.
pub open spec fn classified(result: Result<(), SdkError>, r: Result<SubmitOutcome, SubmitError>) -> bool {
    match result {
        Ok(_) => r == Ok::<SubmitOutcome, SubmitError>(SubmitOutcome::Applied),
        Err(SdkError::CapabilityNotGranted(c)) => r matches Ok(SubmitOutcome::Rejected { reason })
            && reason@ == "capability not granted: "@ + c@,
        Err(SdkError::NotConversationParticipant) => r matches Ok(SubmitOutcome::Rejected { reason })
            && reason@ == "not a participant in this conversation"@,
        Err(SdkError::Unauthorized) => r == Err::<SubmitOutcome, SubmitError>(SubmitError::AuthenticationRequired),
        Err(SdkError::Unavailable { detail, .. }) => r matches Err(SubmitError::Retryable(m))
            && m@ == "avalon-server unavailable: "@ + detail@,
        Err(SdkError::NotFound(_)) => r == Ok::<SubmitOutcome, SubmitError>(SubmitOutcome::Applied),
        Err(other) => r matches Ok(SubmitOutcome::Rejected { reason }) && reason@ == other.text(),
    }
}

/// Only an outage is ever retried: a send that failed because the server
/// was unavailable is retryable, a rejected session token asks for
/// re-authentication, and every other failure is a terminal outcome (an
/// unexpected response among them, which is rejected with its text), so
/// the entry is never kept pending for it. Success and a 404 mean the
/// message is applied.
pub proof fn lemma_only_outages_are_retried(e: SdkError, r: Result<SubmitOutcome, SubmitError>)
    requires
        classified(Err(e), r),
    ensures
        (r matches Err(SubmitError::Retryable(_))) <==> e is Unavailable,
        (r matches Err(SubmitError::AuthenticationRequired)) <==> e is Unauthorized,
        !(r matches Err(SubmitError::UnsupportedKind)),
        !(e is Unavailable) && !(e is Unauthorized) ==> r is Ok,
        r == Ok::<SubmitOutcome, SubmitError>(SubmitOutcome::Applied) <==> e is NotFound,
        e matches SdkError::Protocol(p) ==> (r matches Ok(SubmitOutcome::Rejected { reason })
            && reason@ == "unexpected response from avalon-server: "@ + p@),
        e matches SdkError::Conflict(_) ==> r matches Ok(SubmitOutcome::Rejected { .. }),
        e matches SdkError::Rejected { .. } ==> r matches Ok(SubmitOutcome::Rejected { .. }),
{
}

/// The same result with its success value dropped.
pub open spec fn outcome_only<M>(result: Result<M, SdkError>) -> Result<(), SdkError> {
    match result {
        Ok(_) => Ok(()),
        Err(e) => Err(e),
    }
}

/// Classifies the outcome of sending a queued conversation message: a
/// missing capability or "not a participant" is terminal, a 401 asks for
/// re-authentication, unavailability is retryable, a 404 means already
/// applied, and anything else is terminal.
pub fn classify_send_result<M>(result: Result<M, SdkError>) -> (r: Result<SubmitOutcome, SubmitError>)
    ensures
        classified(outcome_only(result), r),
{
    match result {
        Ok(_message) => Ok(SubmitOutcome::Applied),
        Err(SdkError::CapabilityNotGranted(capability)) => {
            let mut reason = owned("capability not granted: ");
            push_str(&mut reason, capability.as_str());
            Ok(SubmitOutcome::Rejected { reason })
        },
        Err(SdkError::NotConversationParticipant) => Ok(
            SubmitOutcome::Rejected { reason: owned("not a participant in this conversation") },
        ),
        Err(SdkError::Unauthorized) => Err(SubmitError::AuthenticationRequired),
        Err(SdkError::Unavailable { detail, .. }) => {
            let mut m = owned("avalon-server unavailable: ");
            push_str(&mut m, detail.as_str());
            Err(SubmitError::Retryable(m))
        },
        Err(SdkError::NotFound(_)) => Ok(SubmitOutcome::Applied),
        Err(other) => Ok(SubmitOutcome::Rejected { reason: other.message() }),
    }
}

/// The per-entry outcome of one drain.
#[derive(Debug, Clone, PartialEq, Eq)]
pub enum DrainOutcome {
    /// Accepted; marked submitted in the journal.
    Applied,
    /// Terminal; never retried again.
    Rejected {
        /// Why.
        reason: String,
    },
    /// Still pending: backing off, just failed retryably, or the kind is
    /// not supported.
    Deferred,
    /// Still pending because the session token was rejected; re-authenticate
    /// before draining again.
    AuthenticationRequired,
}

/// One journal entry's outcome from a single drain.
#[derive(Debug, Clone, PartialEq, Eq)]
pub struct DrainReport {
    /// The entry's own id.
    pub id: u128,
    /// The entry's kind.
    pub kind: String,
    /// What happened to it this drain.
    pub outcome: DrainOutcome,
}

/// A terminal status transition, reported once per entry.
#[derive(Debug, Clone, PartialEq, Eq)]
pub enum StatusTransition {
    /// The entry was accepted by the server.
    Submitted {
        /// The entry's own id.
        id: u128,
        /// The entry's kind.
        kind: String,
    },
    /// The entry was terminally rejected.
    Rejected {
        /// The entry's own id.
        id: u128,
        /// The entry's kind.
        kind: String,
        /// Why.
        reason: String,
    },
}

/// What the journal must record for an entry after an attempt.
#[derive(Debug, Clone, PartialEq, Eq)]
pub enum JournalUpdate {
    /// Nothing changes.
    Unchanged,
    /// The entry was submitted.
    MarkSubmitted,
    /// The entry was terminally rejected, for this reason.
    MarkRejected(String),
    /// The attempt failed, for this reason; the entry stays pending.
    MarkFailed(String),
}

/// Consecutive retryable failures of one entry, and when it may next be
/// attempted (nanoseconds since the Unix epoch).
#[derive(Debug, Clone, Copy, PartialEq, Eq, Structural)]
pub struct RetryState {
    /// How many consecutive retryable failures were recorded.
    pub attempt: u32,
    /// The earliest time of the next attempt.
    pub next_attempt_at: i128,
}

/// In-memory backoff bookkeeping per journal entry id. Not persisted: a
/// restart is as good a reason as any to try again at once.
#[derive(Clone)]
pub struct RetryBook {
    entries: HashMap<u128, RetryState>,
}

impl RetryBook {
    /// The book's invariant: finitely many entries are backing off.
    pub closed spec fn wf(&self) -> bool {
        self.entries@.dom().finite()
    }

    /// The retry state recorded for each entry id.
    pub closed spec fn states(&self) -> Map<u128, RetryState> {
        self.entries@
    }

    /// No entry is backing off.
    pub fn new() -> (b: RetryBook)
        ensures
            b.wf(),
            b.states() == Map::<u128, RetryState>::empty(),
    {
        RetryBook { entries: HashMap::new() }
    }

    /// The retry state recorded for `id`.
    pub fn get(&self, id: u128) -> (r: Option<RetryState>)
        requires
            self.wf(),
        ensures
            r == (if self.states().contains_key(id) { Some(self.states()[id]) } else { None }),
    {
        match self.entries.get(&id) {
            Some(state) => Some(*state),
            None => None,
        }
    }

    /// Records `state` for `id`, replacing any earlier one.
    pub fn set(&mut self, id: u128, state: RetryState)
        requires
            old(self).wf(),
        ensures
            final(self).wf(),
            final(self).states() == old(self).states().insert(id, state),
    {
        self.entries.insert(id, state);
    }

    /// Forgets `id`.
    pub fn remove(&mut self, id: u128)
        requires
            old(self).wf(),
        ensures
            final(self).wf(),
            final(self).states() == old(self).states().remove(id),
    {
        self.entries.remove(&id);
    }
}

/// What settling one attempted entry produced.
#[derive(Debug, Clone, PartialEq, Eq)]
pub struct Settled {
    /// The entry's outcome for this drain.
    pub outcome: DrainOutcome,
    /// What the journal must record.
    pub journal: JournalUpdate,
    /// The terminal transition to announce, if one happened.
    pub transition: Option<StatusTransition>,
}

/// Whether `id` may be attempted at `now`: it is not waiting out a backoff.
pub open spec fn is_due(states: Map<u128, RetryState>, id: u128, now: i128) -> bool {
    !(states.contains_key(id) && states[id].next_attempt_at > now)
}

/// The number a retryable failure of `id` counts as: one more than the
/// failures already recorded.
pub open spec fn attempt_number(states: Map<u128, RetryState>, id: u128) -> u32 {
    if states.contains_key(id) {
        if states[id].attempt == u32::MAX { u32::MAX } else { (states[id].attempt + 1) as u32 }
    } else {
        1
    }
}

/// Whether `id` may be attempted at `now`.
pub fn is_attempt_due(book: &RetryBook, id: u128, now: i128) -> (r: bool)
    requires
        book.wf(),
    ensures
        r == is_due(book.states(), id, now),
{
    match book.get(id) {
        Some(state) => !(state.next_attempt_at > now),
        None => true,
    }
}

/// The number a retryable failure of `id` would count as.
pub fn next_attempt_number(book: &RetryBook, id: u128) -> (r: u32)
    requires
        book.wf(),
    ensures
        r == attempt_number(book.states(), id),
{
    match book.get(id) {
        Some(state) => state.attempt.saturating_add(1),
        None => 1,
    }
}

/// How an attempted entry is settled: accepted and rejected entries leave
/// the retry book and announce a transition; a retryable failure is
/// recorded with its backoff (`delay_ns` after `now`); an unsupported kind
/// changes nothing; a rejected token is recorded as a failure with no
/// backoff.
pub open spec fn settled(
    before: Map<u128, RetryState>,
    after: Map<u128, RetryState>,
    id: u128,
    kind: Seq<char>,
    result: Result<SubmitOutcome, SubmitError>,
    now: i128,
    delay_ns: i128,
    r: Settled,
) -> bool {
    match result {
        Ok(SubmitOutcome::Applied) => {
            &&& after == before.remove(id)
            &&& r.outcome == DrainOutcome::Applied
            &&& r.journal == JournalUpdate::MarkSubmitted
            &&& r.transition matches Some(StatusTransition::Submitted { id: tid, kind: k }) && tid == id && k@ == kind
        },
        Ok(SubmitOutcome::Rejected { reason }) => {
            &&& after == before.remove(id)
            &&& r.outcome matches DrainOutcome::Rejected { reason: o } && o@ == reason@
            &&& r.journal matches JournalUpdate::MarkRejected(m) && m@ == reason@
            &&& r.transition matches Some(StatusTransition::Rejected { id: tid, kind: k, reason: t })
                && tid == id && k@ == kind && t@ == reason@
        },
        Err(SubmitError::Retryable(reason)) => {
            &&& after == before.insert(id, RetryState {
                attempt: attempt_number(before, id),
                next_attempt_at: (now + delay_ns) as i128,
            })
            &&& r.outcome == DrainOutcome::Deferred
            &&& r.journal matches JournalUpdate::MarkFailed(m) && m@ == reason@
            &&& r.transition is None
        },
        Err(SubmitError::UnsupportedKind) => {
            &&& after == before
            &&& r.outcome == DrainOutcome::Deferred
            &&& r.journal == JournalUpdate::Unchanged
            &&& r.transition is None
        },
        Err(SubmitError::AuthenticationRequired) => {
            &&& after == before
            &&& r.outcome == DrainOutcome::AuthenticationRequired
            &&& r.journal matches JournalUpdate::MarkFailed(m) && m@ == "session token rejected (401)"@
            &&& r.transition is None
        },
    }
}

/// Settles an attempted entry given what the transport answered.
pub fn settle(
    book: &mut RetryBook,
    id: u128,
    kind: &str,
    result: Result<SubmitOutcome, SubmitError>,
    now: i128,
    delay_ns: i128,
) -> (r: Settled)
    requires
        old(book).wf(),
        0 <= delay_ns,
        now + delay_ns <= i128::MAX,
    ensures
        final(book).wf(),
        settled(old(book).states(), final(book).states(), id, kind@, result, now, delay_ns, r),
{
    match result {
        Ok(SubmitOutcome::Applied) => {
            book.remove(id);
            Settled {
                outcome: DrainOutcome::Applied,
                journal: JournalUpdate::MarkSubmitted,
                transition: Some(StatusTransition::Submitted { id, kind: owned(kind) }),
            }
        },
        Ok(SubmitOutcome::Rejected { reason }) => {
            book.remove(id);
            Settled {
                outcome: DrainOutcome::Rejected { reason: owned(reason.as_str()) },
                journal: JournalUpdate::MarkRejected(owned(reason.as_str())),
                transition: Some(StatusTransition::Rejected { id, kind: owned(kind), reason }),
            }
        },
        Err(SubmitError::Retryable(reason)) => {
            let attempt = next_attempt_number(book, id);
            book.set(id, RetryState { attempt, next_attempt_at: now + delay_ns });
            Settled { outcome: DrainOutcome::Deferred, journal: JournalUpdate::MarkFailed(reason), transition: None }
        },
        Err(SubmitError::UnsupportedKind) => {
            Settled { outcome: DrainOutcome::Deferred, journal: JournalUpdate::Unchanged, transition: None }
        },
        Err(SubmitError::AuthenticationRequired) => Settled {
            outcome: DrainOutcome::AuthenticationRequired,
            journal: JournalUpdate::MarkFailed(owned("session token rejected (401)")),
            transition: None,
        },
    }
}

/// Pending entry `i` is drained before entry `j`: its kind sorts first,
/// or the kinds are equal and it was recorded earlier, or both are equal
/// and it came first in the pending list.
pub open spec fn drained_before(kinds: Seq<Seq<char>>, recorded_at: Seq<i128>, i: int, j: int) -> bool {
    ||| text_lt(kinds[i], kinds[j])
    ||| kinds[i] == kinds[j] && recorded_at[i] < recorded_at[j]
    ||| kinds[i] == kinds[j] && recorded_at[i] == recorded_at[j] && i < j
}

/// Whether `i`'s (kind, recorded-at) key sorts strictly before `j`'s.
pub open spec fn key_lt(kinds: Seq<Seq<char>>, recorded_at: Seq<i128>, i: int, j: int) -> bool {
    text_lt(kinds[i], kinds[j]) || (kinds[i] == kinds[j] && recorded_at[i] < recorded_at[j])
}

/// `order` lists every pending entry once, in drain order: grouped by kind
/// in ascending order, each group by recorded time, ties in pending order.
pub open spec fn is_drain_order(kinds: Seq<Seq<char>>, recorded_at: Seq<i128>, order: Seq<usize>) -> bool {
    &&& order.len() == kinds.len()
    &&& forall|a: int| 0 <= a < order.len() ==> order[a] < kinds.len()
    &&& forall|a: int, b: int| 0 <= a < b < order.len() ==> drained_before(kinds, recorded_at, order[a] as int, order[b] as int)
}

/// The (kind, recorded-at) key order is a strict weak order.
proof fn lemma_key_order(kinds: Seq<Seq<char>>, recorded_at: Seq<i128>, i: int, j: int, k: int)
    ensures
        key_lt(kinds, recorded_at, i, j) && key_lt(kinds, recorded_at, j, k) ==> key_lt(kinds, recorded_at, i, k),
        key_lt(kinds, recorded_at, i, j) && !key_lt(kinds, recorded_at, k, j) ==> key_lt(kinds, recorded_at, i, k),
        !key_lt(kinds, recorded_at, i, j) && !key_lt(kinds, recorded_at, j, i) ==> kinds[i] == kinds[j] && recorded_at[i] == recorded_at[j],
        key_lt(kinds, recorded_at, i, j) ==> drained_before(kinds, recorded_at, i, j),
{
    lemma_text_lt_order(kinds[i], kinds[j], kinds[k]);
    lemma_text_lt_order(kinds[j], kinds[k], kinds[i]);
    lemma_text_lt_order(kinds[k], kinds[i], kinds[j]);
    lemma_text_lt_order(kinds[j], kinds[i], kinds[k]);
    lemma_text_lt_order(kinds[i], kinds[k], kinds[j]);
    lemma_text_lt_order(kinds[k], kinds[j], kinds[i]);
}

/// Whether entry `i`'s key sorts strictly before entry `j`'s.
fn entry_key_lt(kinds: &Vec<String>, recorded_at: &Vec<i128>, i: usize, j: usize) -> (r: bool)
    requires
        i < kinds@.len(),
        j < kinds@.len(),
        recorded_at@.len() == kinds@.len(),
    ensures
        r == key_lt(crate::text::texts(kinds@), recorded_at@, i as int, j as int),
{
    let ki = kinds[i].as_str();
    let kj = kinds[j].as_str();
    if text_less(ki, kj) {
        true
    } else if crate::text::str_eq(ki, kj) {
        recorded_at[i] < recorded_at[j]
    } else {
        false
    }
}

/// The order pending entries are drained in: grouped by kind in ascending
/// order, each group by recorded time, ties in pending order.
pub fn drain_order(kinds: &Vec<String>, recorded_at: &Vec<i128>) -> (order: Vec<usize>)
    requires
        recorded_at@.len() == kinds@.len(),
    ensures
        is_drain_order(crate::text::texts(kinds@), recorded_at@, order@),
{
    let ghost ks = crate::text::texts(kinds@);
    let ghost ts = recorded_at@;
    let mut order: Vec<usize> = Vec::new();
    let mut i: usize = 0;
    while i < kinds.len()
        invariant
            ks == crate::text::texts(kinds@),
            ts == recorded_at@,
            recorded_at@.len() == kinds@.len(),
            i <= kinds@.len(),
            order@.len() == i,
            forall|a: int| 0 <= a < order@.len() ==> order@[a] < i,
            forall|a: int, b: int| 0 <= a < b < order@.len() ==> drained_before(ks, ts, order@[a] as int, order@[b] as int),
        decreases kinds@.len() - i,
    {
        let mut pos: usize = 0;
        while pos < order.len() && !entry_key_lt(kinds, recorded_at, i, order[pos])
            invariant
                ks == crate::text::texts(kinds@),
                ts == recorded_at@,
                recorded_at@.len() == kinds@.len(),
                i < kinds@.len(),
                pos <= order@.len(),
                order@.len() == i,
                forall|a: int| 0 <= a < order@.len() ==> order@[a] < i,
                forall|a: int| 0 <= a < pos ==> !key_lt(ks, ts, i as int, order@[a] as int),
            decreases order@.len() - pos,
        {
            pos = pos + 1;
        }
        let ghost old_order = order@;
        proof {
            if pos < old_order.len() {
                assert forall|b: int| pos <= b < old_order.len() implies key_lt(ks, ts, i as int, old_order[b] as int) by {
                    if b > pos {
                        let p = old_order[pos as int] as int;
                        let q = old_order[b] as int;
                        assert(drained_before(ks, ts, p, q));
                        lemma_key_order(ks, ts, i as int, p, q);
                        lemma_key_order(ks, ts, q, p, i as int);
                        lemma_text_lt_order(ks[p], ks[q], ks[p]);
                    }
                }
            }
            assert forall|a: int| 0 <= a < pos implies drained_before(ks, ts, old_order[a] as int, i as int) by {
                let p = old_order[a] as int;
                lemma_key_order(ks, ts, p, i as int, p);
                lemma_key_order(ks, ts, i as int, p, i as int);
            }
        }
        order.insert(pos, i);
        proof {
            assert forall|a: int, b: int| 0 <= a < b < order@.len() implies drained_before(ks, ts, order@[a] as int, order@[b] as int) by {
                if a < pos && b < pos {
                    assert(order@[a] == old_order[a] && order@[b] == old_order[b]);
                } else if a < pos && b == pos {
                    assert(order@[a] == old_order[a] && order@[b] == i);
                } else if a < pos && b > pos {
                    assert(order@[a] == old_order[a] && order@[b] == old_order[b - 1]);
                } else if a == pos {
                    assert(order@[a] == i && order@[b] == old_order[b - 1]);
                    lemma_key_order(ks, ts, i as int, old_order[b - 1] as int, i as int);
                } else {
                    assert(order@[a] == old_order[a - 1] && order@[b] == old_order[b - 1]);
                }
            }
        }
        i = i + 1;
    }
    order
}

/// A stale session token never discards queued work: a 401 is asked to
/// re-authenticate, and settling it leaves the retry book as it was and
/// the entry pending.
pub proof fn lemma_stale_token_keeps_queued_work(
    r: Result<SubmitOutcome, SubmitError>,
    before: Map<u128, RetryState>,
    after: Map<u128, RetryState>,
    id: u128,
    kind: Seq<char>,
    now: i128,
    delay_ns: i128,
    s: Settled,
)
    requires
        classified(Err(SdkError::Unauthorized), r),
        settled(before, after, id, kind, r, now, delay_ns, s),
    ensures
        after == before,
        s.outcome == DrainOutcome::AuthenticationRequired,
        s.transition is None,
        !(s.journal is MarkRejected),
{
}

/// Terminal outcomes are announced once and end the backoff: an applied or
/// rejected entry leaves the retry book, and only they produce a
/// transition.
pub proof fn lemma_only_terminal_outcomes_announce(
    before: Map<u128, RetryState>,
    after: Map<u128, RetryState>,
    id: u128,
    kind: Seq<char>,
    r: Result<SubmitOutcome, SubmitError>,
    now: i128,
    delay_ns: i128,
    s: Settled,
)
    requires
        settled(before, after, id, kind, r, now, delay_ns, s),
    ensures
        s.transition is Some <==> r is Ok,
        r is Ok ==> !after.contains_key(id),
        s.outcome is Deferred || s.outcome is AuthenticationRequired ==> s.transition is None,
{
}

/// The pending entries a journal keeps after `update` is applied to the
/// entry `id`: a submitted or rejected entry leaves the pending set (the
/// journal's contract), a failed or untouched one stays.
pub open spec fn pending_after(pending: Set<u128>, id: u128, update: JournalUpdate) -> Set<u128> {
    match update {
        JournalUpdate::MarkSubmitted => pending.remove(id),
        JournalUpdate::MarkRejected(_) => pending.remove(id),
        _ => pending,
    }
}

/// A terminal outcome is announced once and never drained again: settling
/// an applied or rejected entry produces its one transition and forgets
/// its backoff, and a later drain, whose order runs over the journal's
/// pending entries once the terminal mark was written, never reaches it.
pub proof fn lemma_settled_entries_are_not_drained_again(
    before: Map<u128, RetryState>,
    after: Map<u128, RetryState>,
    id: u128,
    kind: Seq<char>,
    r: Result<SubmitOutcome, SubmitError>,
    now: i128,
    delay_ns: i128,
    s: Settled,
    pending: Set<u128>,
    next_ids: Seq<u128>,
    next_kinds: Seq<Seq<char>>,
    next_recorded_at: Seq<i128>,
    next_order: Seq<usize>,
)
    requires
        settled(before, after, id, kind, r, now, delay_ns, s),
        r is Ok,
        next_ids.len() == next_kinds.len(),
        forall|k: int| 0 <= k < next_ids.len() ==> pending_after(pending, id, s.journal).contains(#[trigger] next_ids[k]),
        is_drain_order(next_kinds, next_recorded_at, next_order),
    ensures
        s.transition is Some,
        !after.contains_key(id),
        forall|a: int| 0 <= a < next_order.len() ==> next_ids[#[trigger] next_order[a] as int] != id,
{
    assert forall|a: int| 0 <= a < next_order.len() implies next_ids[#[trigger] next_order[a] as int] != id by {
        assert(pending_after(pending, id, s.journal).contains(next_ids[next_order[a] as int]));
    }
}

/// A retryable failure always waits: the entry is not due again until its
/// backoff has passed, and each consecutive failure counts one more
/// attempt.
pub proof fn lemma_retryable_failures_back_off(
    before: Map<u128, RetryState>,
    after: Map<u128, RetryState>,
    id: u128,
    kind: Seq<char>,
    reason: String,
    now: i128,
    delay_ns: i128,
    s: Settled,
)
    requires
        settled(before, after, id, kind, Err(SubmitError::Retryable(reason)), now, delay_ns, s),
        delay_ns > 0,
        now + delay_ns <= i128::MAX,
    ensures
        !is_due(after, id, now),
        after[id].attempt == attempt_number(before, id),
        before.contains_key(id) && before[id].attempt < u32::MAX ==> after[id].attempt == before[id].attempt + 1,
{
}

/// Draining never drops or repeats an entry, and an entry of a kind that
/// sorts first, or of the same kind recorded earlier, is drained first.
pub proof fn lemma_drain_order_is_total(kinds: Seq<Seq<char>>, recorded_at: Seq<i128>, order: Seq<usize>, a: int, b: int)
    requires
        is_drain_order(kinds, recorded_at, order),
        0 <= a < b < order.len(),
    ensures
        order[a] != order[b],
        !text_lt(kinds[order[b] as int], kinds[order[a] as int]),
        kinds[order[a] as int] == kinds[order[b] as int] ==> recorded_at[order[a] as int] <= recorded_at[order[b] as int],
{
    lemma_text_lt_order(kinds[order[a] as int], kinds[order[b] as int], kinds[order[a] as int]);
    lemma_text_lt_order(kinds[order[b] as int], kinds[order[a] as int], kinds[order[b] as int]);
    assert(drained_before(kinds, recorded_at, order[a] as int, order[b] as int));
}

/// The wall clock a real submission engine reads.
#[derive(Debug, Clone, Copy, PartialEq, Eq, Structural)]
pub struct SystemClock;

} // verus!
