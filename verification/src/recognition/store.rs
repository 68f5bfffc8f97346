//! The face registry itself: every registration record, keyed by its id,
//! plus the rules that turn nearest-neighbour answers from the global and
//! per-event search indexes into a match for a [`RecognitionContext`].
//!
//! The search indexes (one k-d tree for the global registry, one per event)
//! hold the embeddings' points; each answers "which of my registrations is
//! nearest to this probe, and how similar is it" with a [`Hit`]. Which
//! indexes are consulted for a context, how their answers are combined, the
//! similarity threshold, and the bookkeeping of record ids all live here.

use std::collections::HashMap;
use vstd::prelude::*;
use vstd::std_specs::iter::IteratorSpec;

use super::scope::{EventId, PersonId, RecognitionContext, RegistrationScope};
use crate::error::FaceError;
use crate::score::{score_greater_than, score_less_than, score_lt, ScoreBits};
use crate::types::Embedding;

verus! {

broadcast use vstd::std_specs::hash::group_hash_axioms;

pub type RecordId = u32;

/// One registration: a single embedding sample of a person, in one scope.
#[derive(Debug)]
pub struct Record {
    pub id: RecordId,
    pub person_id: PersonId,
    pub scope: RegistrationScope,
    pub embedding: Embedding,
    /// Free-form note (e.g. a display name or photo reference) — not used
    /// for matching, just carried through to [`MatchResult`].
    pub label: Option<String>,
    pub registered_at_unix_ms: u64,
}

/// Which registry a match came from.
#[derive(Debug)]
pub enum MatchOrigin {
    Global,
    Event(EventId),
}

/// A recognized registration.
#[derive(Debug)]
pub struct MatchResult {
    pub record_id: RecordId,
    pub person_id: PersonId,
    pub origin: MatchOrigin,
    /// Cosine similarity in `[-1, 1]`, as its binary32 encoding.
    pub similarity: ScoreBits,
    pub label: Option<String>,
}

/// A search index's answer: one of its registrations and that
/// registration's similarity to the probe (binary32 encoding).
#[derive(Debug, Clone, Copy)]
pub struct Hit {
    pub record_id: RecordId,
    pub similarity: ScoreBits,
}

/// The abstract state of a [`VectorStore`]: its records by id, and the id
/// the next registration will receive.
#[verifier::ext_equal]
pub struct RegistryState {
    pub records: Map<RecordId, Record>,
    pub next_id: RecordId,
}

/// The registry: every registration record, keyed by id.
pub struct VectorStore {
    records: HashMap<RecordId, Record>,
    next_id: RecordId,
}

impl View for VectorStore {
    type V = RegistryState;

    closed spec fn view(&self) -> RegistryState {
        RegistryState { records: self.records@, next_id: self.next_id }
    }
}

/// The text `"global"`.
pub open spec fn origin_global_text() -> Seq<char> {
    seq!['g', 'l', 'o', 'b', 'a', 'l']
}

/// The text `"event:"`.
pub open spec fn origin_event_prefix_text() -> Seq<char> {
    seq!['e', 'v', 'e', 'n', 't', ':']
}

impl MatchOrigin {
    /// The origin as displayed: `global`, or `event:` followed by the event id.
    pub open spec fn display_text(&self) -> Seq<char> {
        match self {
            MatchOrigin::Global => origin_global_text(),
            MatchOrigin::Event(id) => origin_event_prefix_text() + id.text(),
        }
    }

    /// The origin as displayed: `global`, or `event:` followed by the event id.
    pub fn display_string(&self) -> (r: String)
        ensures
            r@ == self.display_text(),
    {
        match self {
            MatchOrigin::Global => {
                let r = String::from_str("global");
                proof {
                    reveal_strlit("global");
                }
                r
            },
            MatchOrigin::Event(id) => {
                let mut r = String::from_str("event:");
                proof {
                    reveal_strlit("event:");
                }
                r.append(id.0.as_str());
                r
            },
        }
    }

    /// A copy of this origin.
    pub fn duplicate(&self) -> (r: MatchOrigin)
        ensures
            r == *self,
    {
        match self {
            MatchOrigin::Global => MatchOrigin::Global,
            MatchOrigin::Event(id) => MatchOrigin::Event(id.duplicate()),
        }
    }
}

/// A copy of an optional label.
pub fn duplicate_label(label: &Option<String>) -> (r: Option<String>)
    ensures
        r == *label,
{
    match label {
        Some(s) => Some(s.clone()),
        None => None,
    }
}

impl Record {
    /// A copy of this record.
    pub fn duplicate(&self) -> (r: Record)
        ensures
            r == *self,
    {
        Record {
            id: self.id,
            person_id: self.person_id.duplicate(),
            scope: self.scope.duplicate(),
            embedding: self.embedding,
            label: duplicate_label(&self.label),
            registered_at_unix_ms: self.registered_at_unix_ms,
        }
    }
}

impl RegistryState {
    /// Finitely many records, every record is stored under its own id, and
    /// every id in use lies below the next id to hand out (unless that id is already the last
    /// one, after which no registration can succeed).
    pub open spec fn wf(&self) -> bool {
        &&& self.records.dom().finite()
        &&& forall|id: RecordId| #[trigger]
            self.records.contains_key(id) ==> self.records[id].id == id
        &&& forall|id: RecordId| #[trigger]
            self.records.contains_key(id) ==> (id < self.next_id || self.next_id == u32::MAX)
    }

    /// Whether `id` names a registration of `person`.
    pub open spec fn is_of_person(&self, id: RecordId, person: PersonId) -> bool {
        self.records.contains_key(id) && self.records[id].person_id.text() == person.text()
    }

    /// The ids of `person`'s registrations.
    pub open spec fn ids_of_person(&self, person: PersonId) -> Set<RecordId> {
        self.records.dom().filter(|id: RecordId| self.is_of_person(id, person))
    }
}

/// The record a successful registration stores.
pub open spec fn registered_record(
    id: RecordId,
    person_id: PersonId,
    embedding: Embedding,
    scope: RegistrationScope,
    label: Option<String>,
    at: u64,
) -> Record {
    Record { id, person_id, scope, embedding, label, registered_at_unix_ms: at }
}

/// `x + 1`, or `x` itself when that would overflow.
pub open spec fn saturating_succ(x: u32) -> u32 {
    if x == u32::MAX { x } else { (x + 1) as u32 }
}

/// The next id after loading `record` into a registry whose next id is
/// `next_id`: past the record's id, and never moving backwards.
pub open spec fn next_id_after_load(next_id: u32, record_id: u32) -> u32 {
    if saturating_succ(record_id) > next_id { saturating_succ(record_id) } else { next_id }
}

/// What registering answers in state `s`: the next id, unless the id
/// space is exhausted.
pub open spec fn register_outcome(s: RegistryState) -> Result<RecordId, FaceError> {
    if s.next_id < u32::MAX {
        Ok(s.next_id)
    } else {
        Err(FaceError::StoreExhausted)
    }
}

/// The state after registering (at time `at`): a new record under the next
/// id, which moves on by one; unchanged once the id space is exhausted.
pub open spec fn after_register(
    s: RegistryState,
    person_id: PersonId,
    embedding: Embedding,
    scope: RegistrationScope,
    label: Option<String>,
    at: u64,
) -> RegistryState {
    if s.next_id < u32::MAX {
        RegistryState {
            records: s.records.insert(
                s.next_id,
                registered_record(s.next_id, person_id, embedding, scope, label, at),
            ),
            next_id: (s.next_id + 1) as u32,
        }
    } else {
        s
    }
}

/// What unregistering `id` answers: the removed record, or `RecordNotFound`.
pub open spec fn unregister_outcome(s: RegistryState, id: RecordId) -> Result<Record, FaceError> {
    if s.records.contains_key(id) {
        Ok(s.records[id])
    } else {
        Err(FaceError::RecordNotFound(id))
    }
}

/// The state after unregistering `id`: that record gone, nothing else changed.
pub open spec fn after_unregister(s: RegistryState, id: RecordId) -> RegistryState {
    RegistryState { records: s.records.remove(id), next_id: s.next_id }
}

/// The state after unregistering everything of `person`.
pub open spec fn after_unregister_person(s: RegistryState, person: PersonId) -> RegistryState {
    RegistryState { records: s.records.remove_keys(s.ids_of_person(person)), next_id: s.next_id }
}

/// The state after loading a stored record.
pub open spec fn after_load(s: RegistryState, record: Record) -> RegistryState {
    RegistryState {
        records: s.records.insert(record.id, record),
        next_id: next_id_after_load(s.next_id, record.id),
    }
}

/// The candidate an identification settles on before the threshold: the
/// global index's answer, unless the context names an event and that
/// event's answer is strictly more similar (or the global index had none).
pub open spec fn chosen_candidate(
    global_hit: Option<Hit>,
    event_hit: Option<Hit>,
    context: RecognitionContext,
) -> Option<(Hit, MatchOrigin)> {
    match context {
        RecognitionContext::GlobalOnly => match global_hit {
            Some(g) => Some((g, MatchOrigin::Global)),
            None => None,
        },
        RecognitionContext::Event(e) => match (global_hit, event_hit) {
            (Some(g), Some(h)) => if score_lt(g.similarity, h.similarity) {
                Some((h, MatchOrigin::Event(e)))
            } else {
                Some((g, MatchOrigin::Global))
            },
            (Some(g), None) => Some((g, MatchOrigin::Global)),
            (None, Some(h)) => Some((h, MatchOrigin::Event(e))),
            (None, None) => None,
        },
    }
}

/// The match reported for a hit on a stored record.
pub open spec fn match_for(records: Map<RecordId, Record>, hit: Hit, origin: MatchOrigin) -> MatchResult {
    MatchResult {
        record_id: hit.record_id,
        person_id: records[hit.record_id].person_id,
        origin,
        similarity: hit.similarity,
        label: records[hit.record_id].label,
    }
}

/// What identification answers: the chosen candidate's match, unless its
/// similarity is below the threshold or its record is gone.
pub open spec fn identify_result(
    state: RegistryState,
    global_hit: Option<Hit>,
    event_hit: Option<Hit>,
    context: RecognitionContext,
    threshold: ScoreBits,
) -> Option<MatchResult> {
    match chosen_candidate(global_hit, event_hit, context) {
        None => None,
        Some((hit, origin)) => if score_lt(hit.similarity, threshold) {
            None
        } else if state.records.contains_key(hit.record_id) {
            Some(match_for(state.records, hit, origin))
        } else {
            None
        },
    }
}

/// A search answer is consistent with the registry for `scope` when the
/// record it names, if stored, is registered in that scope.
pub open spec fn hit_agrees_with_scope(
    state: RegistryState,
    hit: Option<Hit>,
    scope: RegistrationScope,
) -> bool {
    match hit {
        Some(h) => state.records.contains_key(h.record_id) ==> state.records[h.record_id].scope.same_scope(&scope),
        None => true,
    }
}

/// A ranked candidate: a search answer and the registry it came from.
pub type Candidate = (Hit, MatchOrigin);

/// The candidates of a top-k search: the global index's answers, followed
/// by the context's event index's answers when the context names an event.
pub open spec fn candidates(
    global_hits: Seq<Hit>,
    event_hits: Seq<Hit>,
    context: RecognitionContext,
) -> Seq<Candidate> {
    let g = global_hits.map_values(|h: Hit| (h, MatchOrigin::Global));
    match context {
        RecognitionContext::Event(e) => g + event_hits.map_values(|h: Hit| (h, MatchOrigin::Event(e))),
        RecognitionContext::GlobalOnly => g,
    }
}

/// Inserts `c` into a ranking: after every candidate at least as similar
/// (so equally similar candidates keep their order), before the strictly
/// less similar ones that end the ranking.
pub open spec fn insert_ranked(s: Seq<Candidate>, c: Candidate) -> Seq<Candidate>
    decreases s.len(),
{
    if s.len() == 0 {
        seq![c]
    } else if score_lt(s.last().0.similarity, c.0.similarity) {
        insert_ranked(s.drop_last(), c).push(s.last())
    } else {
        s.push(c)
    }
}

/// The candidates ranked best-first by similarity, equally similar ones
/// keeping their order (a stable sort).
pub open spec fn rank(s: Seq<Candidate>) -> Seq<Candidate>
    decreases s.len(),
{
    if s.len() == 0 {
        s
    } else {
        insert_ranked(rank(s.drop_last()), s.last())
    }
}

/// The matches reported for ranked candidates: one per candidate whose
/// record is stored, in the same order.
pub open spec fn matches_of(records: Map<RecordId, Record>, cands: Seq<Candidate>) -> Seq<MatchResult>
    decreases cands.len(),
{
    if cands.len() == 0 {
        Seq::empty()
    } else {
        let rest = matches_of(records, cands.drop_last());
        let c = cands.last();
        if records.contains_key(c.0.record_id) {
            rest.push(match_for(records, c.0, c.1))
        } else {
            rest
        }
    }
}

/// What a top-k search answers: the `k` best-ranked candidates (fewer if
/// there are fewer), reported for those whose record is stored.
pub open spec fn top_k_result(
    state: RegistryState,
    global_hits: Seq<Hit>,
    event_hits: Seq<Hit>,
    context: RecognitionContext,
    k: nat,
) -> Seq<MatchResult> {
    let ranked = rank(candidates(global_hits, event_hits, context));
    matches_of(state.records, if k < ranked.len() { ranked.take(k as int) } else { ranked })
}

/// Inserting into a ranking puts the new candidate at the position found by
/// scanning back past the strictly less similar candidates at its end.
proof fn lemma_insert_ranked_at(s: Seq<Candidate>, c: Candidate, j: int)
    requires
        0 <= j <= s.len(),
        forall|t: int| j <= t < s.len() ==> score_lt((#[trigger] s[t]).0.similarity, c.0.similarity),
        j > 0 ==> !score_lt(s[j - 1].0.similarity, c.0.similarity),
    ensures
        insert_ranked(s, c) == s.insert(j, c),
    decreases s.len(),
{
    if s.len() == 0 {
        assert(s.insert(j, c) =~= seq![c]);
    } else if score_lt(s.last().0.similarity, c.0.similarity) {
        assert(j < s.len());
        lemma_insert_ranked_at(s.drop_last(), c, j);
        assert(s.drop_last().insert(j, c).push(s.last()) =~= s.insert(j, c));
    } else {
        assert(j == s.len());
        assert(s.push(c) =~= s.insert(j, c));
    }
}

/// The records a rebuild keeps: those whose points the search index
/// accepted, a later record replacing an earlier one with the same id.
pub open spec fn rebuilt_records(entries: Seq<(Record, bool)>) -> Map<RecordId, Record>
    decreases entries.len(),
{
    if entries.len() == 0 {
        Map::empty()
    } else {
        let m = rebuilt_records(entries.drop_last());
        let e = entries.last();
        if e.1 { m.insert(e.0.id, e.0) } else { m }
    }
}

/// The largest id among the entries (accepted or not), or `0` if none.
pub open spec fn max_entry_id(entries: Seq<(Record, bool)>) -> RecordId
    decreases entries.len(),
{
    if entries.len() == 0 {
        0
    } else {
        let m = max_entry_id(entries.drop_last());
        if entries.last().0.id > m { entries.last().0.id } else { m }
    }
}

proof fn lemma_rebuilt_ids_bounded(entries: Seq<(Record, bool)>)
    ensures
        forall|id: RecordId| #[trigger] rebuilt_records(entries).contains_key(id) ==> (
            rebuilt_records(entries)[id].id == id && id <= max_entry_id(entries)),
    decreases entries.len(),
{
    if entries.len() > 0 {
        lemma_rebuilt_ids_bounded(entries.drop_last());
    }
}

/// Whether `x` occurs among the first `n` elements of `s`.
pub open spec fn in_prefix(s: Seq<RecordId>, n: int, x: RecordId) -> bool {
    exists|j: int| 0 <= j < n && #[trigger] s[j] == x
}

/// Reads the wall clock as milliseconds since the Unix epoch, or `0` when
/// the clock reads before the epoch.
fn now_unix_ms() -> u64 {
    let now = system_time_now();
    match since_unix_epoch(&now) {
        Ok(d) => millis_of(&d) as u64,
        Err(_) => 0,
    }
}

/// `std::time::SystemTime` (an instant on the wall clock).
#[verifier::external_type_specification]
#[verifier::external_body]
pub struct ExSystemTime(std::time::SystemTime);

/// `std::time::SystemTimeError` (the clock read before the epoch).
#[verifier::external_type_specification]
#[verifier::external_body]
pub struct ExSystemTimeError(std::time::SystemTimeError);

/// Calls `std::time::SystemTime::now`. The wall clock: nothing is claimed
/// of the result.
#[verifier::external_body]
fn system_time_now() -> std::time::SystemTime {
    std::time::SystemTime::now()
}

/// Calls `std::time::SystemTime::duration_since` with `UNIX_EPOCH`: the
/// time elapsed since the epoch, or an error when `t` is before it. Nothing
/// is claimed of the result.
#[verifier::external_body]
fn since_unix_epoch(t: &std::time::SystemTime) -> Result<std::time::Duration, std::time::SystemTimeError> {
    t.duration_since(std::time::UNIX_EPOCH)
}

/// Calls `std::time::Duration::as_millis`: the whole milliseconds in `d`.
/// `Duration` is opaque here, so nothing is claimed of the result.
#[verifier::external_body]
fn millis_of(d: &std::time::Duration) -> u128 {
    d.as_millis()
}

impl VectorStore {
    /// An empty registry; the first registration receives id 0.
    pub fn new() -> (s: VectorStore)
        ensures
            s@.records == Map::<RecordId, Record>::empty(),
            s@.next_id == 0,
            s@.wf(),
    {
        VectorStore { records: HashMap::new(), next_id: 0 }
    }

    /// The number of registrations.
    pub fn len(&self) -> (n: usize)
        ensures
            n == self@.records.len(),
    {
        self.records.len()
    }

    /// Whether there are no registrations.
    pub fn is_empty(&self) -> (b: bool)
        ensures
            b == (self@.records.len() == 0),
    {
        proof {
            assert(self.records@.dom().finite());
            if self.records@.dom().len() == 0 {
                assert(self.records@.dom() =~= Set::<RecordId>::empty());
            }
        }
        self.records.is_empty()
    }

    /// Registers `embedding` under `person_id` in `scope`, returning the new
    /// registration's id. A person can hold multiple registrations — e.g.
    /// several enrollment photos, or both a global and an event-scoped
    /// sample — each gets its own id and can be removed independently via
    /// [`Self::unregister`]. Fails with `StoreExhausted`, changing nothing,
    /// once the id space is used up.
    pub fn register(
        &mut self,
        person_id: PersonId,
        embedding: Embedding,
        scope: RegistrationScope,
        label: Option<String>,
    ) -> (r: Result<RecordId, FaceError>)
        requires
            old(self)@.wf(),
        ensures
            final(self)@.wf(),
            r == register_outcome(old(self)@),
            final(self)@ == after_register(
                old(self)@,
                person_id,
                embedding,
                scope,
                label,
                final(self)@.records[old(self)@.next_id].registered_at_unix_ms,
            ),
    {
        let id = self.next_id;
        if id == u32::MAX {
            proof {
                assert(self@ =~= old(self)@);
            }
            return Err(FaceError::StoreExhausted);
        }
        self.next_id = id + 1;
        let record = Record {
            id,
            person_id,
            scope,
            embedding,
            label,
            registered_at_unix_ms: now_unix_ms(),
        };
        self.records.insert(id, record);
        proof {
            assert(self@ =~= after_register(
                old(self)@,
                person_id,
                embedding,
                scope,
                label,
                self@.records[id].registered_at_unix_ms,
            ));
        }
        Ok(id)
    }

    /// Removes a single registration, handing back its record. Other
    /// registrations for the same person (other scopes, or other samples in
    /// the same scope) are untouched.
    pub fn unregister(&mut self, record_id: RecordId) -> (r: Result<Record, FaceError>)
        requires
            old(self)@.wf(),
        ensures
            final(self)@.wf(),
            r == unregister_outcome(old(self)@, record_id),
            final(self)@ == after_unregister(old(self)@, record_id),
    {
        match self.records.remove(&record_id) {
            Some(record) => {
                assert(self@ =~= after_unregister(old(self)@, record_id));
                Ok(record)
            },
            None => {
                assert(self@ =~= after_unregister(old(self)@, record_id));
                Err(FaceError::RecordNotFound(record_id))
            },
        }
    }

    /// The registration with id `id`, if any.
    pub fn record(&self, id: RecordId) -> (r: Option<&Record>)
        ensures
            self@.records.contains_key(id) ==> r == Some(&self@.records[id]),
            !self@.records.contains_key(id) ==> r is None,
    {
        self.records.get(&id)
    }

    /// Loads a stored record back into the registry (used when reading a
    /// registry file): the record replaces any with the same id, and the
    /// next id moves past it.
    pub fn insert_record(&mut self, record: Record)
        requires
            old(self)@.wf(),
        ensures
            final(self)@.wf(),
            final(self)@ == after_load(old(self)@, record),
    {
        let id = record.id;
        let succ: u32 = if id == u32::MAX { id } else { id + 1 };
        if succ > self.next_id {
            self.next_id = succ;
        }
        self.records.insert(id, record);
        proof {
            assert(self@ =~= after_load(old(self)@, record));
        }
    }

    /// Finds the single best match for a probe, given the nearest
    /// registration of the global index (`global_hit`) and of the context's
    /// event index (`event_hit`; `None` when that index is empty or absent).
    /// The global registry is always searched, and (if `context` names one)
    /// the event registry alongside it on equal footing — whichever
    /// candidate is more similar wins, ties going to the global registry.
    /// Returns `None` if the best candidate doesn't clear
    /// `similarity_threshold`, or if there is no candidate.
    pub fn identify(
        &self,
        global_hit: Option<Hit>,
        event_hit: Option<Hit>,
        context: &RecognitionContext,
        similarity_threshold: ScoreBits,
    ) -> (r: Option<MatchResult>)
        ensures
            r == identify_result(self@, global_hit, event_hit, *context, similarity_threshold),
    {
        let mut best: Option<(Hit, MatchOrigin)> = match global_hit {
            Some(g) => Some((g, MatchOrigin::Global)),
            None => None,
        };
        if let Some(event_id) = context.event() {
            if let Some(h) = event_hit {
                let better = match &best {
                    Some((b, _)) => score_greater_than(h.similarity, b.similarity),
                    None => true,
                };
                if better {
                    best = Some((h, MatchOrigin::Event(event_id.duplicate())));
                }
            }
        }
        let (hit, origin) = match best {
            Some(c) => c,
            None => return None,
        };
        if score_less_than(hit.similarity, similarity_threshold) {
            return None;
        }
        let record = match self.records.get(&hit.record_id) {
            Some(rec) => rec,
            None => return None,
        };
        Some(MatchResult {
            record_id: hit.record_id,
            person_id: record.person_id.duplicate(),
            origin,
            similarity: hit.similarity,
            label: duplicate_label(&record.label),
        })
    }

    /// The ids of `person`'s registrations, each once.
    fn ids_of(&self, person: &PersonId) -> (ids: Vec<RecordId>)
        requires
            self@.wf(),
        ensures
            ids@.no_duplicates(),
            forall|i: int| 0 <= i < ids@.len() ==> self@.is_of_person(#[trigger] ids@[i], *person),
            forall|id: RecordId| #[trigger] self@.is_of_person(id, *person) ==> ids@.contains(id),
    {
        let mut ids: Vec<RecordId> = Vec::new();
        let ghost mut pos: Seq<int> = Seq::empty();
        let ghost s = vstd::std_specs::hash::spec_hash_map_iter(&self.records).remaining();
        for (k, v) in it: self.records.iter()
            invariant
                it.seq() == s,
                s.no_duplicates(),
                s.len() == self.records@.dom().len(),
                forall|j: int| 0 <= j < s.len() ==> self.records@.contains_key(*(#[trigger] s[j]).0)
                    && self.records@[*s[j].0] == *s[j].1,
                ids@.no_duplicates(),
                forall|i: int| 0 <= i < ids@.len() ==> self@.is_of_person(#[trigger] ids@[i], *person),
                forall|j: int| 0 <= j < it.index() && self@.is_of_person(*(#[trigger] s[j]).0, *person)
                    ==> ids@.contains(*s[j].0),
                pos.len() == ids@.len(),
                forall|i: int| 0 <= i < ids@.len() ==> 0 <= #[trigger] pos[i] < it.index()
                    && *s[pos[i]].0 == ids@[i],
        {
            let ghost idx = it.index();
            let ghost old_ids = ids@;
            proof {
                assert(s[idx] == (k, v));
            }
            if v.person_id.same_as(person) {
                proof {
                    assert forall|i: int| 0 <= i < ids@.len() implies ids@[i] != *k by {
                        let j = pos[i];
                        if ids@[i] == *k {
                            assert(self.records@[*s[j].0] == *s[j].1);
                            assert(s[j] == s[idx]);
                        }
                    }
                }
                ids.push(*k);
                proof {
                    pos = pos.push(idx);
                    assert(ids@[old_ids.len() as int] == *k);
                    assert forall|j: int| 0 <= j < idx + 1 && self@.is_of_person(*(#[trigger] s[j]).0, *person)
                        implies ids@.contains(*s[j].0) by {
                        if j < idx {
                            assert(old_ids.contains(*s[j].0));
                            let t = choose|t: int| 0 <= t < old_ids.len() && old_ids[t] == *s[j].0;
                            assert(ids@[t] == old_ids[t]);
                        } else {
                            assert(ids@[old_ids.len() as int] == *s[j].0);
                        }
                    }
                }
            } else {
                proof {
                    assert forall|j: int| 0 <= j < idx + 1 && self@.is_of_person(*(#[trigger] s[j]).0, *person)
                        implies ids@.contains(*s[j].0) by {
                        if j == idx {
                            assert(self.records@[*s[idx].0] == *s[idx].1);
                        }
                    }
                }
            }
        }
        proof {
            assert forall|id: RecordId| #[trigger] self@.is_of_person(id, *person) implies ids@.contains(id) by {
                assert(s.contains((&id, &self.records@[id])));
                let j = choose|j: int| 0 <= j < s.len() && s[j] == (&id, &self.records@[id]);
                assert(*s[j].0 == id);
            }
        }
        ids
    }

    /// The registrations of `person`, each once.
    pub fn records_for_person(&self, person_id: &PersonId) -> (r: Vec<&Record>)
        requires
            self@.wf(),
        ensures
            forall|i: int| 0 <= i < r@.len() ==> self@.is_of_person((#[trigger] r@[i]).id, *person_id)
                && *r@[i] == self@.records[r@[i].id],
            forall|id: RecordId| self@.is_of_person(id, *person_id) ==> exists|i: int|
                0 <= i < r@.len() && (#[trigger] r@[i]).id == id,
            forall|i: int, j: int| 0 <= i < j < r@.len() ==> (#[trigger] r@[i]).id != (#[trigger] r@[j]).id,
    {
        let ids = self.ids_of(person_id);
        let mut out: Vec<&Record> = Vec::new();
        let mut i: usize = 0;
        while i < ids.len()
            invariant
                self@.wf(),
                i <= ids@.len(),
                out@.len() == i,
                ids@.no_duplicates(),
                forall|j: int| 0 <= j < ids@.len() ==> self@.is_of_person(#[trigger] ids@[j], *person_id),
                forall|j: int| 0 <= j < i ==> (#[trigger] out@[j]).id == ids@[j]
                    && *out@[j] == self@.records[ids@[j]],
            decreases ids@.len() - i,
        {
            let id = ids[i];
            let rec = self.records.get(&id).unwrap();
            out.push(rec);
            i = i + 1;
        }
        proof {
            assert forall|id: RecordId| self@.is_of_person(id, *person_id) implies exists|k: int|
                0 <= k < out@.len() && (#[trigger] out@[k]).id == id by {
                let k = choose|k: int| 0 <= k < ids@.len() && ids@[k] == id;
                assert(out@[k].id == id);
            }
            assert forall|a: int, b: int| 0 <= a < b < out@.len() implies (#[trigger] out@[a]).id
                != (#[trigger] out@[b]).id by {
                assert(ids@[a] != ids@[b]);
            }
        }
        out
    }

    /// Every registration, each once (in no particular order).
    pub fn all_records(&self) -> (r: Vec<&Record>)
        requires
            self@.wf(),
        ensures
            r@.len() == self@.records.len(),
            forall|i: int| 0 <= i < r@.len() ==> self@.records.contains_key((#[trigger] r@[i]).id)
                && *r@[i] == self@.records[r@[i].id],
            forall|id: RecordId| self@.records.contains_key(id) ==> exists|i: int|
                0 <= i < r@.len() && (#[trigger] r@[i]).id == id,
    {
        let mut out: Vec<&Record> = Vec::new();
        let ghost s = vstd::std_specs::hash::spec_hash_map_iter(&self.records).remaining();
        for (k, v) in it: self.records.iter()
            invariant
                it.seq() == s,
                self@.wf(),
                s.len() == self.records@.dom().len(),
                forall|j: int| 0 <= j < s.len() ==> self.records@.contains_key(*(#[trigger] s[j]).0)
                    && self.records@[*s[j].0] == *s[j].1,
                out@.len() == it.index(),
                forall|j: int| 0 <= j < it.index() ==> *(#[trigger] out@[j]) == *s[j].1,
        {
            let ghost idx = it.index();
            out.push(v);
            proof {
                assert(*out@[idx] == *s[idx].1);
            }
        }
        proof {
            assert forall|i: int| 0 <= i < out@.len() implies self@.records.contains_key(
                (#[trigger] out@[i]).id) && *out@[i] == self@.records[out@[i].id] by {
                assert(*out@[i] == *s[i].1);
                assert(self.records@[*s[i].0] == *s[i].1);
            }
            assert forall|id: RecordId| self@.records.contains_key(id) implies exists|i: int|
                0 <= i < out@.len() && (#[trigger] out@[i]).id == id by {
                assert(s.contains((&id, &self.records@[id])));
                let j = choose|j: int| 0 <= j < s.len() && s[j] == (&id, &self.records@[id]);
                assert(out@[j].id == id);
            }
        }
        out
    }

    /// Removes every registration for `person_id`, across every scope,
    /// handing back the removed records (each once); their number is how
    /// many registrations were removed. Everyone else's registrations are
    /// untouched.
    pub fn unregister_person(&mut self, person_id: &PersonId) -> (removed: Vec<Record>)
        requires
            old(self)@.wf(),
        ensures
            final(self)@.wf(),
            final(self)@ == after_unregister_person(old(self)@, *person_id),
            forall|i: int| 0 <= i < removed@.len() ==> old(self)@.is_of_person((#[trigger] removed@[i]).id, *person_id)
                && removed@[i] == old(self)@.records[removed@[i].id],
            forall|id: RecordId| #[trigger] old(self)@.is_of_person(id, *person_id) ==> exists|i: int|
                0 <= i < removed@.len() && (#[trigger] removed@[i]).id == id,
            forall|i: int, j: int| 0 <= i < j < removed@.len() ==> (#[trigger] removed@[i]).id != (#[trigger] removed@[j]).id,
            removed@.len() == old(self)@.ids_of_person(*person_id).len(),
    {
        let ids = self.ids_of(person_id);
        let ghost old_state = self@;
        let mut removed: Vec<Record> = Vec::new();
        let mut i: usize = 0;
        while i < ids.len()
            invariant
                old_state.wf(),
                self@.wf(),
                self@.next_id == old_state.next_id,
                i <= ids@.len(),
                removed@.len() == i,
                ids@.no_duplicates(),
                forall|j: int| 0 <= j < ids@.len() ==> old_state.is_of_person(#[trigger] ids@[j], *person_id),
                forall|id: RecordId| #[trigger] old_state.is_of_person(id, *person_id) ==> ids@.contains(id),
                forall|j: int| 0 <= j < i ==> (#[trigger] removed@[j]).id == ids@[j]
                    && removed@[j] == old_state.records[ids@[j]],
                forall|id: RecordId| #[trigger] self@.records.contains_key(id) <==> (
                    old_state.records.contains_key(id) && !in_prefix(ids@, i as int, id)),
                forall|id: RecordId| #[trigger] self@.records.contains_key(id)
                    ==> self@.records[id] == old_state.records[id],
            decreases ids@.len() - i,
        {
            let id = ids[i];
            proof {
                assert(!in_prefix(ids@, i as int, id)) by {
                    if in_prefix(ids@, i as int, id) {
                        let t = choose|t: int| 0 <= t < i && #[trigger] ids@[t] == id;
                        assert(ids@[t] == ids@[i as int]);
                    }
                }
                assert(self@.records.contains_key(id));
            }
            let rec = self.records.remove(&id).unwrap();
            removed.push(rec);
            proof {
                assert forall|x: RecordId| #[trigger] self@.records.contains_key(x) <==> (
                    old_state.records.contains_key(x) && !in_prefix(ids@, i + 1, x)) by {
                    if in_prefix(ids@, i + 1, x) && !in_prefix(ids@, i as int, x) {
                        let t = choose|t: int| 0 <= t < i + 1 && #[trigger] ids@[t] == x;
                        if t < i {
                            assert(in_prefix(ids@, i as int, x));
                        }
                    }
                    if in_prefix(ids@, i as int, x) {
                        let t = choose|t: int| 0 <= t < i && #[trigger] ids@[t] == x;
                        assert(in_prefix(ids@, i + 1, x));
                    }
                    if x == id {
                        assert(in_prefix(ids@, i + 1, x));
                    }
                }
            }
            i = i + 1;
        }
        proof {
            assert forall|x: RecordId| #[trigger] self@.records.contains_key(x) implies !old_state.is_of_person(x, *person_id) by {
                if old_state.is_of_person(x, *person_id) {
                    let k = choose|k: int| 0 <= k < ids@.len() && ids@[k] == x;
                    assert(in_prefix(ids@, ids@.len() as int, x));
                }
            }
            assert forall|x: RecordId| old_state.records.contains_key(x) && !old_state.is_of_person(x, *person_id)
                implies #[trigger] self@.records.contains_key(x) by {
                if in_prefix(ids@, ids@.len() as int, x) {
                    let t = choose|t: int| 0 <= t < ids@.len() && #[trigger] ids@[t] == x;
                }
            }
            assert forall|id: RecordId| #[trigger] old_state.is_of_person(id, *person_id) implies exists|k: int|
                0 <= k < removed@.len() && (#[trigger] removed@[k]).id == id by {
                let k = choose|k: int| 0 <= k < ids@.len() && ids@[k] == id;
                assert(removed@[k].id == id);
            }
            assert forall|a: int, b: int| 0 <= a < b < removed@.len() implies (#[trigger] removed@[a]).id
                != (#[trigger] removed@[b]).id by {
                assert(ids@[a] != ids@[b]);
            }
            assert(ids@.to_set() =~= old_state.ids_of_person(*person_id)) by {
                assert forall|id: RecordId| ids@.to_set().contains(id) implies old_state.ids_of_person(*person_id).contains(id) by {
                    let k = choose|k: int| 0 <= k < ids@.len() && ids@[k] == id;
                }
            }
            ids@.unique_seq_to_set();
            assert(self@.records =~= old_state.records.remove_keys(old_state.ids_of_person(*person_id)));
            assert(self@ =~= after_unregister_person(old_state, *person_id));
        }
        removed
    }

    /// Inserts `c` into `ranked` at its place in the ranking.
    fn insert_into_ranking(ranked: &mut Vec<Candidate>, c: Candidate)
        ensures
            final(ranked)@ == insert_ranked(old(ranked)@, c),
    {
        let mut j: usize = ranked.len();
        while j > 0 && score_less_than(ranked[j - 1].0.similarity, c.0.similarity)
            invariant
                j <= ranked@.len(),
                ranked@ == old(ranked)@,
                forall|t: int| j <= t < ranked@.len() ==> score_lt((#[trigger] ranked@[t]).0.similarity, c.0.similarity),
            decreases j,
        {
            j = j - 1;
        }
        proof {
            lemma_insert_ranked_at(ranked@, c, j as int);
        }
        ranked.insert(j, c);
    }

    /// Like [`Self::identify`], but returns up to `k` candidates — merged
    /// from the global index's answers (`global_hits`) and, when the context
    /// names an event, that event index's answers (`event_hits`), ranked
    /// best-first and *not* threshold-filtered — useful for a manual-review
    /// queue on borderline matches instead of a hard accept/reject.
    pub fn identify_top_k(
        &self,
        global_hits: &Vec<Hit>,
        event_hits: &Vec<Hit>,
        context: &RecognitionContext,
        k: usize,
    ) -> (r: Vec<MatchResult>)
        ensures
            r@ == top_k_result(self@, global_hits@, event_hits@, *context, k as nat),
    {
        let ghost cands = candidates(global_hits@, event_hits@, *context);
        let ghost ng = global_hits@.len();
        let mut ranked: Vec<Candidate> = Vec::new();
        let mut i: usize = 0;
        while i < global_hits.len()
            invariant
                i <= global_hits@.len(),
                cands == candidates(global_hits@, event_hits@, *context),
                ng == global_hits@.len(),
                ranked@ == rank(cands.take(i as int)),
            decreases global_hits@.len() - i,
        {
            proof {
                assert(cands[i as int] == (global_hits@[i as int], MatchOrigin::Global));
                assert(cands.take(i + 1).drop_last() =~= cands.take(i as int));
            }
            Self::insert_into_ranking(&mut ranked, (global_hits[i], MatchOrigin::Global));
            i = i + 1;
        }
        if let Some(event_id) = context.event() {
            let mut i: usize = 0;
            while i < event_hits.len()
                invariant
                    i <= event_hits@.len(),
                    cands == candidates(global_hits@, event_hits@, *context),
                    ng == global_hits@.len(),
                    context.named_event() == Some(*event_id),
                    ranked@ == rank(cands.take((ng + i) as int)),
                decreases event_hits@.len() - i,
            {
                proof {
                    assert(cands[(ng + i) as int] == (event_hits@[i as int], MatchOrigin::Event(*event_id)));
                    assert(cands.take((ng + i + 1) as int).drop_last() =~= cands.take((ng + i) as int));
                }
                Self::insert_into_ranking(&mut ranked, (event_hits[i], MatchOrigin::Event(event_id.duplicate())));
                i = i + 1;
            }
            proof {
                assert(cands.take((ng + event_hits@.len()) as int) =~= cands);
            }
        } else {
            proof {
                assert(cands.take(ng as int) =~= cands);
            }
        }
        let ghost full = ranked@;
        ranked.truncate(k);
        proof {
            assert(full == rank(cands));
            if k < full.len() {
                assert(ranked@ =~= full.take(k as int));
            } else {
                assert(ranked@ =~= full);
            }
        }
        let ghost chosen = ranked@;
        let mut out: Vec<MatchResult> = Vec::new();
        let mut j: usize = 0;
        let n = ranked.len();
        while j < n
            invariant
                n == chosen.len(),
                ranked@ == chosen,
                j <= n,
                out@ == matches_of(self@.records, chosen.take(j as int)),
            decreases n - j,
        {
            proof {
                assert(chosen.take(j + 1).drop_last() =~= chosen.take(j as int));
            }
            let hit = ranked[j].0;
            match self.records.get(&hit.record_id) {
                Some(rec) => {
                    out.push(MatchResult {
                        record_id: hit.record_id,
                        person_id: rec.person_id.duplicate(),
                        origin: ranked[j].1.duplicate(),
                        similarity: hit.similarity,
                        label: duplicate_label(&rec.label),
                    });
                },
                None => {},
            }
            j = j + 1;
        }
        proof {
            assert(chosen.take(n as int) =~= chosen);
        }
        out
    }

    /// Rebuilds a registry from a flat list of records, each paired with
    /// whether the search index accepted its point. A record whose point was
    /// refused is skipped rather than failing the whole rebuild, since a
    /// single corrupt point shouldn't prevent the rest of the registry from
    /// loading; the next id still moves past every listed id.
    pub fn rebuild_from_records(entries: Vec<(Record, bool)>) -> (s: VectorStore)
        ensures
            s@.wf(),
            s@.records == rebuilt_records(entries@),
            s@.next_id == saturating_succ(max_entry_id(entries@)),
    {
        let mut store = VectorStore::new();
        let mut max_id: u32 = 0;
        let ghost all = entries@;
        for e in it: entries
            invariant
                it.seq() == all,
                store@.records == rebuilt_records(all.take(it.index() as int)),
                max_id == max_entry_id(all.take(it.index() as int)),
        {
            let ghost idx = it.index();
            let (record, accepted) = e;
            proof {
                assert((record, accepted) == all[idx as int]);
                assert(all.take(idx + 1).drop_last() =~= all.take(idx as int));
            }
            if record.id > max_id {
                max_id = record.id;
            }
            if accepted {
                let id = record.id;
                store.records.insert(id, record);
            }
        }
        proof {
            assert(all.take(all.len() as int) =~= all);
            lemma_rebuilt_ids_bounded(all);
        }
        store.next_id = if max_id == u32::MAX { max_id } else { max_id + 1 };
        store
    }
}

} // verus!
