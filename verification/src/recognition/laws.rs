//! Properties of the registry that hold across its operations.

use vstd::prelude::*;

use super::scope::{PersonId, RecognitionContext, RegistrationScope};
use super::store::{
    after_load, after_register, after_unregister, after_unregister_person, candidates, chosen_candidate,
    identify_result, insert_ranked, matches_of, rank, register_outcome, top_k_result,
    unregister_outcome, Candidate, Hit, MatchOrigin, MatchResult, RecordId, RegistryState,
};
use crate::error::FaceError;
use crate::score::{is_nan, order_key, score_lt, ScoreBits};
use crate::types::Embedding;

verus! {

/// A search answer is consistent with the registry for `scope` when the
/// record it names, if stored, is registered in that scope.
pub open spec fn hit_in_scope(state: RegistryState, hit: Option<Hit>, scope: RegistrationScope) -> bool {
    match hit {
        Some(h) => state.records.contains_key(h.record_id) ==> state.records[h.record_id].scope.same_scope(
            &scope,
        ),
        None => true,
    }
}

/// Every answer in `hits` is consistent with the registry for `scope`.
pub open spec fn hits_in_scope(state: RegistryState, hits: Seq<Hit>, scope: RegistrationScope) -> bool {
    forall|i: int| 0 <= i < hits.len() ==> hit_in_scope(state, Some(#[trigger] hits[i]), scope)
}

/// The scope a context's event index holds (only meaningful when the context
/// names an event).
pub open spec fn event_scope_of(context: RecognitionContext) -> RegistrationScope {
    match context {
        RecognitionContext::Event(e) => RegistrationScope::Event(e),
        RecognitionContext::GlobalOnly => RegistrationScope::Global,
    }
}

/// Matches listed best-first: no match is less similar than one after it.
pub open spec fn best_first(ms: Seq<MatchResult>) -> bool {
    forall|i: int, j: int| 0 <= i < j < ms.len() ==> !score_lt(
        (#[trigger] ms[i]).similarity,
        (#[trigger] ms[j]).similarity,
    )
}

/// Candidates listed best-first.
pub open spec fn candidates_best_first(cs: Seq<Candidate>) -> bool {
    forall|i: int, j: int| 0 <= i < j < cs.len() ==> !score_lt(
        (#[trigger] cs[i]).0.similarity,
        (#[trigger] cs[j]).0.similarity,
    )
}

/// A registration is stored under the id it was given, with exactly the
/// person, scope, embedding and label it was registered with, and every
/// earlier registration stays as it was.
pub proof fn law_registration_is_stored(
    s: RegistryState,
    person_id: PersonId,
    embedding: Embedding,
    scope: RegistrationScope,
    label: Option<String>,
    at: u64,
)
    requires
        s.wf(),
        s.next_id < u32::MAX,
    ensures
        ({
            let t = after_register(s, person_id, embedding, scope, label, at);
            let id = s.next_id;
            &&& register_outcome(s) == Ok::<RecordId, FaceError>(id)
            &&& !s.records.contains_key(id)
            &&& t.records.contains_key(id)
            &&& t.records[id].id == id
            &&& t.records[id].person_id == person_id
            &&& t.records[id].scope == scope
            &&& t.records[id].embedding == embedding
            &&& t.records[id].label == label
            &&& forall|x: RecordId| #[trigger] s.records.contains_key(x) ==> t.records.contains_key(x)
                && t.records[x] == s.records[x]
        }),
{
}

/// Each registration adds exactly one record to the registry.
pub proof fn law_registration_counts_once(
    s: RegistryState,
    person_id: PersonId,
    embedding: Embedding,
    scope: RegistrationScope,
    label: Option<String>,
    at: u64,
)
    requires
        s.wf(),
        s.next_id < u32::MAX,
    ensures
        after_register(s, person_id, embedding, scope, label, at).records.len() == s.records.len() + 1,
{
}

/// Two registrations in a row receive different ids, and both are stored.
pub proof fn law_successive_registrations_get_distinct_ids(
    s: RegistryState,
    p1: PersonId,
    e1: Embedding,
    sc1: RegistrationScope,
    l1: Option<String>,
    at1: u64,
    p2: PersonId,
    e2: Embedding,
    sc2: RegistrationScope,
    l2: Option<String>,
    at2: u64,
)
    requires
        s.wf(),
        s.next_id + 1 < u32::MAX,
    ensures
        ({
            let t1 = after_register(s, p1, e1, sc1, l1, at1);
            let t2 = after_register(t1, p2, e2, sc2, l2, at2);
            &&& register_outcome(s) is Ok
            &&& register_outcome(t1) is Ok
            &&& register_outcome(s)->Ok_0 != register_outcome(t1)->Ok_0
            &&& t2.records.contains_key(register_outcome(s)->Ok_0)
            &&& t2.records.contains_key(register_outcome(t1)->Ok_0)
        }),
{
}

/// Unregistering a registration right after making it restores the
/// registry's records (the id counter has still moved on).
pub proof fn law_unregister_undoes_register(
    s: RegistryState,
    person_id: PersonId,
    embedding: Embedding,
    scope: RegistrationScope,
    label: Option<String>,
    at: u64,
)
    requires
        s.wf(),
        s.next_id < u32::MAX,
    ensures
        after_unregister(after_register(s, person_id, embedding, scope, label, at), s.next_id).records
            == s.records,
{
    let t = after_register(s, person_id, embedding, scope, label, at);
    assert(after_unregister(t, s.next_id).records =~= s.records);
}

/// Unregistering one registration removes exactly that one: every other
/// registration, including other samples of the same person, is untouched.
/// Unregistering an unknown id fails with `RecordNotFound` and changes
/// nothing.
pub proof fn law_unregister_removes_only_that_record(s: RegistryState, id: RecordId, other: RecordId)
    requires
        s.wf(),
        other != id,
    ensures
        !after_unregister(s, id).records.contains_key(id),
        after_unregister(s, id).records.contains_key(other) == s.records.contains_key(other),
        s.records.contains_key(other) ==> after_unregister(s, id).records[other] == s.records[other],
        !s.records.contains_key(id) ==> unregister_outcome(s, id) == Err::<super::store::Record, FaceError>(
            FaceError::RecordNotFound(id),
        ) && after_unregister(s, id) == s,
{
    if !s.records.contains_key(id) {
        assert(after_unregister(s, id) =~= s);
    }
}

/// Unregistering a person removes all of that person's registrations, in
/// every scope, and nobody else's.
pub proof fn law_unregister_person_removes_exactly_theirs(s: RegistryState, person: PersonId, id: RecordId)
    requires
        s.wf(),
    ensures
        !after_unregister_person(s, person).is_of_person(id, person),
        !s.is_of_person(id, person) ==> (after_unregister_person(s, person).records.contains_key(id)
            == s.records.contains_key(id)),
        !s.is_of_person(id, person) && s.records.contains_key(id) ==> after_unregister_person(
            s,
            person,
        ).records[id] == s.records[id],
{
}

/// Every operation keeps the registry well formed: finitely many records,
/// records stay under their own ids and the next id stays fresh.
pub proof fn law_operations_keep_registry_well_formed(
    s: RegistryState,
    person_id: PersonId,
    embedding: Embedding,
    scope: RegistrationScope,
    label: Option<String>,
    at: u64,
    id: RecordId,
    record: super::store::Record,
)
    requires
        s.wf(),
    ensures
        after_register(s, person_id, embedding, scope, label, at).wf(),
        after_unregister(s, id).wf(),
        after_unregister_person(s, person_id).wf(),
        after_load(s, record).wf(),
{
    let kept = after_unregister_person(s, person_id).records.dom();
    assert(kept =~= s.records.dom().difference(s.ids_of_person(person_id)));
    vstd::set::axiom_set_difference_finite(s.records.dom(), s.ids_of_person(person_id));
}

/// After a record is loaded, a new registration never reuses its id.
pub proof fn law_loaded_ids_are_not_reused(
    s: RegistryState,
    record: super::store::Record,
)
    requires
        s.wf(),
    ensures
        register_outcome(after_load(s, record)) matches Ok(id) ==> id != record.id
            && !after_load(s, record).records.contains_key(id),
{
}

/// Scoping: when the search indexes answer consistently with the registry
/// (the global index only with global registrations, the event index only
/// with that event's), an identification only ever reports a registration
/// that its context may see — a global one, or one of the context's own
/// event. Someone enrolled only for event A is never reported under event B
/// or under `GlobalOnly`.
pub proof fn law_identify_respects_scopes(
    s: RegistryState,
    global_hit: Option<Hit>,
    event_hit: Option<Hit>,
    context: RecognitionContext,
    threshold: ScoreBits,
)
    requires
        hit_in_scope(s, global_hit, RegistrationScope::Global),
        context is Event ==> hit_in_scope(s, event_hit, event_scope_of(context)),
    ensures
        identify_result(s, global_hit, event_hit, context, threshold) matches Some(m) ==> (
            s.records.contains_key(m.record_id) && context.sees(s.records[m.record_id].scope)),
{
}

/// Under `GlobalOnly` the event index is never consulted: its answer makes
/// no difference.
pub proof fn law_global_only_ignores_event_indexes(
    s: RegistryState,
    global_hit: Option<Hit>,
    event_hit_a: Option<Hit>,
    event_hit_b: Option<Hit>,
    threshold: ScoreBits,
)
    ensures
        identify_result(s, global_hit, event_hit_a, RecognitionContext::GlobalOnly, threshold)
            == identify_result(s, global_hit, event_hit_b, RecognitionContext::GlobalOnly, threshold),
{
}

/// A reported match clears the threshold and is at least as similar as
/// every answer that was consulted (global always; the event's when the
/// context names one), for scores that are not NaN.
pub proof fn law_identify_reports_the_best_candidate(
    s: RegistryState,
    global_hit: Option<Hit>,
    event_hit: Option<Hit>,
    context: RecognitionContext,
    threshold: ScoreBits,
)
    requires
        !is_nan(threshold),
        global_hit matches Some(g) ==> !is_nan(g.similarity),
        event_hit matches Some(h) ==> !is_nan(h.similarity),
    ensures
        identify_result(s, global_hit, event_hit, context, threshold) matches Some(m) ==> {
            &&& !score_lt(m.similarity, threshold)
            &&& (global_hit matches Some(g) ==> !score_lt(m.similarity, g.similarity))
            &&& (context is Event && event_hit is Some ==> !score_lt(
                m.similarity,
                event_hit->Some_0.similarity,
            ))
        },
{
}

/// A globally registered person is found under any context when the global
/// index's answer clears the threshold and no event answer is strictly more
/// similar.
pub proof fn law_global_match_found_under_any_context(
    s: RegistryState,
    g: Hit,
    event_hit: Option<Hit>,
    context: RecognitionContext,
    threshold: ScoreBits,
)
    requires
        s.records.contains_key(g.record_id),
        !score_lt(g.similarity, threshold),
        event_hit matches Some(h) ==> !score_lt(g.similarity, h.similarity),
    ensures
        identify_result(s, Some(g), event_hit, context, threshold) matches Some(m) && m.record_id
            == g.record_id && m.origin == MatchOrigin::Global,
{
}

proof fn lemma_insert_ranked_preserves(s: Seq<Candidate>, c: Candidate, p: spec_fn(Candidate) -> bool)
    requires
        p(c),
        forall|j: int| 0 <= j < s.len() ==> p(#[trigger] s[j]),
    ensures
        insert_ranked(s, c).len() == s.len() + 1,
        forall|i: int| 0 <= i < insert_ranked(s, c).len() ==> p(#[trigger] insert_ranked(s, c)[i]),
    decreases s.len(),
{
    if s.len() > 0 && score_lt(s.last().0.similarity, c.0.similarity) {
        lemma_insert_ranked_preserves(s.drop_last(), c, p);
    }
}

proof fn lemma_rank_preserves(s: Seq<Candidate>, p: spec_fn(Candidate) -> bool)
    requires
        forall|j: int| 0 <= j < s.len() ==> p(#[trigger] s[j]),
    ensures
        rank(s).len() == s.len(),
        forall|i: int| 0 <= i < rank(s).len() ==> p(#[trigger] rank(s)[i]),
    decreases s.len(),
{
    if s.len() > 0 {
        lemma_rank_preserves(s.drop_last(), p);
        lemma_insert_ranked_preserves(rank(s.drop_last()), s.last(), p);
    }
}

proof fn lemma_insert_ranked_best_first(s: Seq<Candidate>, c: Candidate)
    requires
        candidates_best_first(s),
        forall|j: int| 0 <= j < s.len() ==> !is_nan((#[trigger] s[j]).0.similarity),
        !is_nan(c.0.similarity),
    ensures
        candidates_best_first(insert_ranked(s, c)),
    decreases s.len(),
{
    if s.len() == 0 {
    } else if score_lt(s.last().0.similarity, c.0.similarity) {
        let last = s.last();
        lemma_insert_ranked_best_first(s.drop_last(), c);
        let p = |x: Candidate| !is_nan(x.0.similarity) && order_key(x.0.similarity) >= order_key(
            last.0.similarity,
        );
        assert forall|j: int| 0 <= j < s.drop_last().len() implies p(#[trigger] s.drop_last()[j]) by {
            assert(s.drop_last()[j] == s[j]);
            assert(!score_lt(s[j].0.similarity, s[s.len() - 1].0.similarity));
        }
        lemma_insert_ranked_preserves(s.drop_last(), c, p);
        let r = insert_ranked(s.drop_last(), c);
        assert forall|i: int, j: int| 0 <= i < j < r.push(last).len() implies !score_lt(
            (#[trigger] r.push(last)[i]).0.similarity,
            (#[trigger] r.push(last)[j]).0.similarity,
        ) by {
            if j == r.len() {
                assert(p(r[i]));
            } else {
                assert(r.push(last)[i] == r[i]);
                assert(r.push(last)[j] == r[j]);
            }
        }
    } else {
        assert forall|i: int, j: int| 0 <= i < j < s.push(c).len() implies !score_lt(
            (#[trigger] s.push(c)[i]).0.similarity,
            (#[trigger] s.push(c)[j]).0.similarity,
        ) by {
            if j == s.len() {
                if i < s.len() - 1 {
                    assert(!score_lt(s[i].0.similarity, s[s.len() - 1].0.similarity));
                }
            } else {
                assert(s.push(c)[i] == s[i]);
                assert(s.push(c)[j] == s[j]);
            }
        }
    }
}

proof fn lemma_rank_best_first(s: Seq<Candidate>)
    requires
        forall|j: int| 0 <= j < s.len() ==> !is_nan((#[trigger] s[j]).0.similarity),
    ensures
        candidates_best_first(rank(s)),
    decreases s.len(),
{
    if s.len() > 0 {
        lemma_rank_best_first(s.drop_last());
        let p = |x: Candidate| !is_nan(x.0.similarity);
        assert forall|j: int| 0 <= j < s.drop_last().len() implies p(#[trigger] s.drop_last()[j]) by {
            assert(s.drop_last()[j] == s[j]);
        }
        lemma_rank_preserves(s.drop_last(), p);
        lemma_insert_ranked_best_first(rank(s.drop_last()), s.last());
    }
}

proof fn lemma_matches_of_preserves(
    records: Map<RecordId, super::store::Record>,
    cands: Seq<Candidate>,
    p: spec_fn(ScoreBits) -> bool,
)
    requires
        forall|j: int| 0 <= j < cands.len() ==> p((#[trigger] cands[j]).0.similarity),
    ensures
        matches_of(records, cands).len() <= cands.len(),
        forall|i: int| 0 <= i < matches_of(records, cands).len() ==> p(
            (#[trigger] matches_of(records, cands)[i]).similarity,
        ),
    decreases cands.len(),
{
    if cands.len() > 0 {
        assert forall|j: int| 0 <= j < cands.drop_last().len() implies p(
            (#[trigger] cands.drop_last()[j]).0.similarity,
        ) by {
            assert(cands.drop_last()[j] == cands[j]);
        }
        lemma_matches_of_preserves(records, cands.drop_last(), p);
    }
}

proof fn lemma_matches_of_best_first(records: Map<RecordId, super::store::Record>, cands: Seq<Candidate>)
    requires
        candidates_best_first(cands),
        forall|j: int| 0 <= j < cands.len() ==> !is_nan((#[trigger] cands[j]).0.similarity),
    ensures
        best_first(matches_of(records, cands)),
    decreases cands.len(),
{
    if cands.len() > 0 {
        let last = cands.last();
        let d = cands.drop_last();
        assert forall|i: int, j: int| 0 <= i < j < d.len() implies !score_lt(
            (#[trigger] d[i]).0.similarity,
            (#[trigger] d[j]).0.similarity,
        ) by {
            assert(d[i] == cands[i] && d[j] == cands[j]);
        }
        lemma_matches_of_best_first(records, d);
        let p = |x: ScoreBits| !is_nan(x) && order_key(x) >= order_key(last.0.similarity);
        assert forall|j: int| 0 <= j < d.len() implies p((#[trigger] d[j]).0.similarity) by {
            assert(d[j] == cands[j]);
            assert(!score_lt(cands[j].0.similarity, cands[cands.len() - 1].0.similarity));
        }
        lemma_matches_of_preserves(records, d, p);
        let rest = matches_of(records, d);
        if records.contains_key(last.0.record_id) {
            let m = super::store::match_for(records, last.0, last.1);
            assert forall|i: int, j: int| 0 <= i < j < rest.push(m).len() implies !score_lt(
                (#[trigger] rest.push(m)[i]).similarity,
                (#[trigger] rest.push(m)[j]).similarity,
            ) by {
                if j == rest.len() {
                    assert(p(rest[i].similarity));
                } else {
                    assert(rest.push(m)[i] == rest[i] && rest.push(m)[j] == rest[j]);
                }
            }
        }
    }
}

/// A top-k search answers at most `k` matches, best-first (for scores that
/// are not NaN), each for a stored registration.
pub proof fn law_top_k_is_bounded_and_best_first(
    s: RegistryState,
    global_hits: Seq<Hit>,
    event_hits: Seq<Hit>,
    context: RecognitionContext,
    k: nat,
)
    requires
        forall|i: int| 0 <= i < global_hits.len() ==> !is_nan((#[trigger] global_hits[i]).similarity),
        forall|i: int| 0 <= i < event_hits.len() ==> !is_nan((#[trigger] event_hits[i]).similarity),
    ensures
        top_k_result(s, global_hits, event_hits, context, k).len() <= k,
        best_first(top_k_result(s, global_hits, event_hits, context, k)),
{
    let cs = candidates(global_hits, event_hits, context);
    assert forall|j: int| 0 <= j < cs.len() implies !is_nan((#[trigger] cs[j]).0.similarity) by {
        if j < global_hits.len() {
            assert(cs[j].0 == global_hits[j]);
        } else {
            assert(cs[j].0 == event_hits[j - global_hits.len()]);
        }
    }
    lemma_rank_best_first(cs);
    let p = |x: Candidate| !is_nan(x.0.similarity);
    lemma_rank_preserves(cs, p);
    let ranked = rank(cs);
    let chosen = if k < ranked.len() { ranked.take(k as int) } else { ranked };
    assert forall|i: int, j: int| 0 <= i < j < chosen.len() implies !score_lt(
        (#[trigger] chosen[i]).0.similarity,
        (#[trigger] chosen[j]).0.similarity,
    ) by {
        assert(chosen[i] == ranked[i] && chosen[j] == ranked[j]);
    }
    assert forall|j: int| 0 <= j < chosen.len() implies !is_nan((#[trigger] chosen[j]).0.similarity) by {
        assert(chosen[j] == ranked[j]);
        assert(p(ranked[j]));
    }
    lemma_matches_of_best_first(s.records, chosen);
    lemma_matches_of_preserves(s.records, chosen, |x: ScoreBits| true);
}

/// Search answers listed nearest first: none is less similar than a later one.
pub open spec fn hits_best_first(hits: Seq<Hit>) -> bool {
    forall|i: int, j: int| 0 <= i < j < hits.len() ==> !score_lt(
        (#[trigger] hits[i]).similarity,
        (#[trigger] hits[j]).similarity,
    )
}

/// The nearest answer of a best-first list, if any.
pub open spec fn first_hit(hits: Seq<Hit>) -> Option<Hit> {
    if hits.len() > 0 {
        Some(hits[0])
    } else {
        None
    }
}

/// The candidate a left-to-right scan keeps: a later candidate replaces the
/// kept one only when strictly more similar.
spec fn first_best(s: Seq<Candidate>) -> Candidate
    decreases s.len(),
{
    if s.len() <= 1 {
        s[0]
    } else {
        let m = first_best(s.drop_last());
        if score_lt(m.0.similarity, s.last().0.similarity) {
            s.last()
        } else {
            m
        }
    }
}

proof fn lemma_insert_ranked_front(r: Seq<Candidate>, c: Candidate)
    requires
        r.len() > 0,
        candidates_best_first(r),
        forall|j: int| 0 <= j < r.len() ==> !is_nan((#[trigger] r[j]).0.similarity),
        !is_nan(c.0.similarity),
    ensures
        insert_ranked(r, c)[0] == if score_lt(r[0].0.similarity, c.0.similarity) {
            c
        } else {
            r[0]
        },
    decreases r.len(),
{
    if score_lt(r.last().0.similarity, c.0.similarity) {
        let d = r.drop_last();
        if d.len() == 0 {
            assert(insert_ranked(d, c) =~= seq![c]);
        } else {
            assert forall|i: int, j: int| 0 <= i < j < d.len() implies !score_lt(
                (#[trigger] d[i]).0.similarity,
                (#[trigger] d[j]).0.similarity,
            ) by {
                assert(d[i] == r[i] && d[j] == r[j]);
            }
            assert forall|j: int| 0 <= j < d.len() implies !is_nan((#[trigger] d[j]).0.similarity) by {
                assert(d[j] == r[j]);
            }
            lemma_insert_ranked_front(d, c);
            lemma_insert_ranked_preserves(d, c, |x: Candidate| true);
            assert(d[0] == r[0]);
        }
    } else {
        if r.len() > 1 {
            assert(!score_lt(r[0].0.similarity, r[r.len() - 1].0.similarity));
        }
    }
}

proof fn lemma_rank_front(s: Seq<Candidate>)
    requires
        s.len() > 0,
        forall|j: int| 0 <= j < s.len() ==> !is_nan((#[trigger] s[j]).0.similarity),
    ensures
        rank(s)[0] == first_best(s),
        !is_nan(first_best(s).0.similarity),
    decreases s.len(),
{
    let d = s.drop_last();
    if d.len() == 0 {
        assert(rank(d) =~= d);
        assert(insert_ranked(rank(d), s.last()) =~= seq![s.last()]);
        assert(s[0] == s.last());
    } else {
        assert forall|j: int| 0 <= j < d.len() implies !is_nan((#[trigger] d[j]).0.similarity) by {
            assert(d[j] == s[j]);
        }
        lemma_rank_front(d);
        lemma_rank_best_first(d);
        let p = |x: Candidate| !is_nan(x.0.similarity);
        lemma_rank_preserves(d, p);
        assert forall|j: int| 0 <= j < rank(d).len() implies !is_nan((#[trigger] rank(d)[j]).0.similarity) by {
            assert(p(rank(d)[j]));
        }
        lemma_insert_ranked_front(rank(d), s.last());
    }
}

/// The candidates of best-first answers, all from one origin.
proof fn lemma_first_best_of_sorted(hits: Seq<Hit>, origin: MatchOrigin)
    requires
        hits.len() > 0,
        hits_best_first(hits),
        forall|j: int| 0 <= j < hits.len() ==> !is_nan((#[trigger] hits[j]).similarity),
    ensures
        first_best(hits.map_values(|h: Hit| (h, origin))) == (hits[0], origin),
    decreases hits.len(),
{
    let m = hits.map_values(|h: Hit| (h, origin));
    if hits.len() > 1 {
        let d = hits.drop_last();
        assert(m.drop_last() =~= d.map_values(|h: Hit| (h, origin)));
        assert forall|i: int, j: int| 0 <= i < j < d.len() implies !score_lt(
            (#[trigger] d[i]).similarity,
            (#[trigger] d[j]).similarity,
        ) by {
            assert(d[i] == hits[i] && d[j] == hits[j]);
        }
        assert forall|j: int| 0 <= j < d.len() implies !is_nan((#[trigger] d[j]).similarity) by {
            assert(d[j] == hits[j]);
        }
        lemma_first_best_of_sorted(d, origin);
        assert(d[0] == hits[0]);
        assert(!score_lt(hits[0].similarity, hits[hits.len() - 1].similarity));
    }
}

/// Scanning `a` then best-first `b`: `b`'s first replaces `a`'s pick only
/// when strictly more similar.
proof fn lemma_first_best_append(a: Seq<Candidate>, b: Seq<Candidate>)
    requires
        a.len() > 0,
        b.len() > 0,
        candidates_best_first(b),
        forall|j: int| 0 <= j < a.len() ==> !is_nan((#[trigger] a[j]).0.similarity),
        forall|j: int| 0 <= j < b.len() ==> !is_nan((#[trigger] b[j]).0.similarity),
    ensures
        first_best(a + b) == if score_lt(first_best(a).0.similarity, b[0].0.similarity) {
            b[0]
        } else {
            first_best(a)
        },
        !is_nan(first_best(a).0.similarity),
    decreases b.len(),
{
    lemma_first_best_preserves(a);
    if b.len() == 1 {
        assert((a + b).drop_last() =~= a);
        assert((a + b).last() == b[0]);
    } else {
        let b2 = b.drop_last();
        assert((a + b).drop_last() =~= a + b2);
        assert((a + b).last() == b[b.len() - 1]);
        assert forall|i: int, j: int| 0 <= i < j < b2.len() implies !score_lt(
            (#[trigger] b2[i]).0.similarity,
            (#[trigger] b2[j]).0.similarity,
        ) by {
            assert(b2[i] == b[i] && b2[j] == b[j]);
        }
        assert forall|j: int| 0 <= j < b2.len() implies !is_nan((#[trigger] b2[j]).0.similarity) by {
            assert(b2[j] == b[j]);
        }
        lemma_first_best_append(a, b2);
        assert(b2[0] == b[0]);
        assert(!score_lt(b[0].0.similarity, b[b.len() - 1].0.similarity));
        assert(!is_nan(b[b.len() - 1].0.similarity));
    }
}

proof fn lemma_first_best_preserves(a: Seq<Candidate>)
    requires
        a.len() > 0,
        forall|j: int| 0 <= j < a.len() ==> !is_nan((#[trigger] a[j]).0.similarity),
    ensures
        !is_nan(first_best(a).0.similarity),
    decreases a.len(),
{
    if a.len() > 1 {
        let d = a.drop_last();
        assert forall|j: int| 0 <= j < d.len() implies !is_nan((#[trigger] d[j]).0.similarity) by {
            assert(d[j] == a[j]);
        }
        lemma_first_best_preserves(d);
    }
}

/// Identification agrees with a top-1 search: when each index lists its
/// answers nearest first (no NaN similarities) and identification is given
/// each index's nearest answer, identification reports the top-1 match when
/// it reaches the threshold, and nothing otherwise.
pub proof fn law_identify_agrees_with_top_one(
    s: RegistryState,
    global_hits: Seq<Hit>,
    event_hits: Seq<Hit>,
    context: RecognitionContext,
    threshold: ScoreBits,
)
    requires
        hits_best_first(global_hits),
        hits_best_first(event_hits),
        forall|i: int| 0 <= i < global_hits.len() ==> !is_nan((#[trigger] global_hits[i]).similarity),
        forall|i: int| 0 <= i < event_hits.len() ==> !is_nan((#[trigger] event_hits[i]).similarity),
    ensures
        identify_result(s, first_hit(global_hits), first_hit(event_hits), context, threshold) == ({
            let top = top_k_result(s, global_hits, event_hits, context, 1);
            if top.len() > 0 && !score_lt(top[0].similarity, threshold) {
                Some(top[0])
            } else {
                None::<MatchResult>
            }
        }),
{
    let cs = candidates(global_hits, event_hits, context);
    let gm = global_hits.map_values(|h: Hit| (h, MatchOrigin::Global));
    let chosen = chosen_candidate(first_hit(global_hits), first_hit(event_hits), context);
    assert forall|j: int| 0 <= j < cs.len() implies !is_nan((#[trigger] cs[j]).0.similarity) by {
        if j < global_hits.len() {
            assert(cs[j].0 == global_hits[j]);
        } else {
            assert(cs[j].0 == event_hits[j - global_hits.len()]);
        }
    }
    let p = |x: Candidate| true;
    lemma_rank_preserves(cs, p);
    if cs.len() == 0 {
        assert(chosen is None) by {
            if global_hits.len() > 0 {
                assert(cs[0].0 == global_hits[0]);
            }
            if context is Event && event_hits.len() > 0 {
                assert(cs[global_hits.len() as int].0 == event_hits[0]);
            }
        }
        let ranked = rank(cs);
        assert(ranked =~= Seq::<Candidate>::empty());
    } else {
        lemma_rank_front(cs);
        let c0 = first_best(cs);
        assert(chosen == Some(c0)) by {
            match context {
                RecognitionContext::GlobalOnly => {
                    assert(cs =~= gm);
                    lemma_first_best_of_sorted(global_hits, MatchOrigin::Global);
                },
                RecognitionContext::Event(e) => {
                    let em = event_hits.map_values(|h: Hit| (h, MatchOrigin::Event(e)));
                    assert(cs =~= gm + em);
                    if global_hits.len() == 0 {
                        assert(cs =~= em);
                        lemma_first_best_of_sorted(event_hits, MatchOrigin::Event(e));
                    } else if event_hits.len() == 0 {
                        assert(cs =~= gm);
                        lemma_first_best_of_sorted(global_hits, MatchOrigin::Global);
                    } else {
                        lemma_first_best_of_sorted(global_hits, MatchOrigin::Global);
                        assert forall|i: int, j: int| 0 <= i < j < em.len() implies !score_lt(
                            (#[trigger] em[i]).0.similarity,
                            (#[trigger] em[j]).0.similarity,
                        ) by {
                            assert(em[i].0 == event_hits[i] && em[j].0 == event_hits[j]);
                        }
                        assert forall|j: int| 0 <= j < gm.len() implies !is_nan((#[trigger] gm[j]).0.similarity) by {
                            assert(gm[j].0 == global_hits[j]);
                        }
                        assert forall|j: int| 0 <= j < em.len() implies !is_nan((#[trigger] em[j]).0.similarity) by {
                            assert(em[j].0 == event_hits[j]);
                        }
                        lemma_first_best_append(gm, em);
                        assert(em[0] == (event_hits[0], MatchOrigin::Event(e)));
                    }
                },
            }
        }
        let ranked = rank(cs);
        let one = ranked.take(1);
        assert(one =~= seq![c0]);
        assert(one.drop_last() =~= Seq::<Candidate>::empty());
        assert(matches_of(s.records, one.drop_last()) =~= Seq::<MatchResult>::empty());
    }
}

} // verus!
