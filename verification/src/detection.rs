//! Which detections survive: the candidates are ranked best-first by score,
//! then greedy non-maximum suppression walks that ranking and keeps a
//! candidate unless a candidate it already kept suppresses it.
//!
//! Scores are binary32 encodings compared as IEEE floats (see
//! [`crate::score`]); whether one box suppresses another (its overlap
//! against the detector's IoU threshold) is computed by the caller.

use vstd::prelude::*;

use crate::score::{is_nan, order_key, score_less_than, score_lt, ScoreBits};

verus! {

/// A candidate: its position among the detections, and its score.
pub type Scored = (usize, ScoreBits);

/// The detections' scores paired with their positions.
pub open spec fn indexed_scores(scores: Seq<ScoreBits>) -> Seq<Scored> {
    Seq::new(scores.len(), |i: int| (i as usize, scores[i]))
}

/// Inserts `c` into a ranking: after every candidate scoring at least as
/// high (so equal scores keep their order), before the strictly lower
/// scores that end the ranking.
pub open spec fn insert_by_score(s: Seq<Scored>, c: Scored) -> Seq<Scored>
    decreases s.len(),
{
    if s.len() == 0 {
        seq![c]
    } else if score_lt(s.last().1, c.1) {
        insert_by_score(s.drop_last(), c).push(s.last())
    } else {
        s.push(c)
    }
}

/// The candidates ranked best-first by score, equal scores keeping their
/// order (a stable sort).
pub open spec fn rank_by_score(s: Seq<Scored>) -> Seq<Scored>
    decreases s.len(),
{
    if s.len() == 0 {
        s
    } else {
        insert_by_score(rank_by_score(s.drop_last()), s.last())
    }
}

/// The detections' positions, best score first.
pub open spec fn score_order(scores: Seq<ScoreBits>) -> Seq<usize> {
    rank_by_score(indexed_scores(scores)).map_values(|c: Scored| c.0)
}

/// Whether detection `i` is suppressed by detection `j` according to the
/// caller's table (a missing entry suppresses nothing).
pub open spec fn suppressed_by(table: Seq<Vec<bool>>, i: int, j: int) -> bool {
    &&& 0 <= i < table.len()
    &&& 0 <= j < table[i]@.len()
    &&& table[i]@[j]
}

/// Greedy suppression along `order`: each detection is kept unless one
/// already kept suppresses it.
pub open spec fn greedy_keep(order: Seq<usize>, table: Seq<Vec<bool>>) -> Seq<usize>
    decreases order.len(),
{
    if order.len() == 0 {
        Seq::empty()
    } else {
        let kept = greedy_keep(order.drop_last(), table);
        let i = order.last();
        if exists|t: int| 0 <= t < kept.len() && suppressed_by(table, i as int, #[trigger] kept[t] as int) {
            kept
        } else {
            kept.push(i)
        }
    }
}

/// The detections that survive non-maximum suppression, best score first.
pub open spec fn surviving(scores: Seq<ScoreBits>, table: Seq<Vec<bool>>) -> Seq<usize> {
    greedy_keep(score_order(scores), table)
}

/// Inserting into a ranking puts the new candidate at the position found by
/// scanning back past the strictly lower scores at its end.
proof fn lemma_insert_by_score_at(s: Seq<Scored>, c: Scored, j: int)
    requires
        0 <= j <= s.len(),
        forall|t: int| j <= t < s.len() ==> score_lt((#[trigger] s[t]).1, c.1),
        j > 0 ==> !score_lt(s[j - 1].1, c.1),
    ensures
        insert_by_score(s, c) == s.insert(j, c),
    decreases s.len(),
{
    if s.len() == 0 {
        assert(s.insert(j, c) =~= seq![c]);
    } else if score_lt(s.last().1, c.1) {
        assert(j < s.len());
        lemma_insert_by_score_at(s.drop_last(), c, j);
        assert(s.drop_last().insert(j, c).push(s.last()) =~= s.insert(j, c));
    } else {
        assert(j == s.len());
        assert(s.push(c) =~= s.insert(j, c));
    }
}

fn insert_scored(ranked: &mut Vec<Scored>, c: Scored)
    ensures
        final(ranked)@ == insert_by_score(old(ranked)@, c),
{
    let mut j: usize = ranked.len();
    while j > 0 && score_less_than(ranked[j - 1].1, c.1)
        invariant
            j <= ranked@.len(),
            ranked@ == old(ranked)@,
            forall|t: int| j <= t < ranked@.len() ==> score_lt((#[trigger] ranked@[t]).1, c.1),
        decreases j,
    {
        j = j - 1;
    }
    proof {
        lemma_insert_by_score_at(ranked@, c, j as int);
    }
    ranked.insert(j, c);
}

/// The detections' positions, best score first; equal scores keep their
/// order.
pub fn score_order_of(scores: &Vec<ScoreBits>) -> (r: Vec<usize>)
    ensures
        r@ == score_order(scores@),
{
    let ghost all = indexed_scores(scores@);
    let mut ranked: Vec<Scored> = Vec::new();
    let mut i: usize = 0;
    while i < scores.len()
        invariant
            i <= scores@.len(),
            all == indexed_scores(scores@),
            ranked@ == rank_by_score(all.take(i as int)),
        decreases scores@.len() - i,
    {
        proof {
            assert(all.take(i + 1).drop_last() =~= all.take(i as int));
            assert(all.take(i + 1).last() == (i, scores@[i as int]));
        }
        insert_scored(&mut ranked, (i, scores[i]));
        i = i + 1;
    }
    proof {
        assert(all.take(scores@.len() as int) =~= all);
    }
    let mut out: Vec<usize> = Vec::new();
    let mut k: usize = 0;
    while k < ranked.len()
        invariant
            k <= ranked@.len(),
            ranked@ == rank_by_score(all),
            all == indexed_scores(scores@),
            out@ =~= ranked@.take(k as int).map_values(|c: Scored| c.0),
        decreases ranked@.len() - k,
    {
        out.push(ranked[k].0);
        k = k + 1;
        proof {
            assert(ranked@.take(k as int).map_values(|c: Scored| c.0) =~= out@);
        }
    }
    proof {
        assert(ranked@.take(ranked@.len() as int) =~= ranked@);
    }
    out
}

/// Non-maximum suppression: the detections that survive, best score
/// first. `suppressed[i][j]` says whether detection `i` is suppressed by
/// detection `j` (missing entries suppress nothing).
pub fn suppress_overlaps(scores: &Vec<ScoreBits>, suppressed: &Vec<Vec<bool>>) -> (r: Vec<usize>)
    ensures
        r@ == surviving(scores@, suppressed@),
{
    let order = score_order_of(scores);
    let ghost table = suppressed@;
    let mut kept: Vec<usize> = Vec::new();
    let mut idx: usize = 0;
    while idx < order.len()
        invariant
            idx <= order@.len(),
            order@ == score_order(scores@),
            table == suppressed@,
            kept@ == greedy_keep(order@.take(idx as int), table),
        decreases order@.len() - idx,
    {
        let i = order[idx];
        let mut hit = false;
        let mut t: usize = 0;
        while t < kept.len()
            invariant
                t <= kept@.len(),
                table == suppressed@,
                hit <==> exists|u: int| 0 <= u < t && suppressed_by(table, i as int, #[trigger] kept@[u] as int),
            decreases kept@.len() - t,
        {
            let j = kept[t];
            if i < suppressed.len() && j < suppressed[i].len() && suppressed[i][j] {
                hit = true;
            }
            proof {
                if suppressed_by(table, i as int, j as int) {
                    assert(suppressed_by(table, i as int, kept@[t as int] as int));
                }
            }
            t = t + 1;
        }
        proof {
            assert(order@.take(idx + 1).drop_last() =~= order@.take(idx as int));
            assert(order@.take(idx + 1).last() == i);
        }
        if !hit {
            kept.push(i);
        }
        idx = idx + 1;
    }
    proof {
        assert(order@.take(order@.len() as int) =~= order@);
    }
    kept
}

/// `s` with `c` inserted at position `j`.
spec fn insert_at(s: Seq<Scored>, j: int, c: Scored) -> Seq<Scored> {
    Seq::new((s.len() + 1) as nat, |i: int| if i < j { s[i] } else if i == j { c } else { s[i - 1] })
}

/// Where inserting into a ranking puts the new candidate: after the
/// candidates scoring at least as high, before the strictly lower scores
/// that end the ranking.
proof fn lemma_insert_position(s: Seq<Scored>, c: Scored) -> (j: int)
    ensures
        0 <= j <= s.len(),
        insert_by_score(s, c) == insert_at(s, j, c),
        forall|t: int| j <= t < s.len() ==> score_lt((#[trigger] s[t]).1, c.1),
        j > 0 ==> !score_lt(s[j - 1].1, c.1),
    decreases s.len(),
{
    if s.len() == 0 {
        assert(insert_at(s, 0, c) =~= seq![c]);
        0
    } else if score_lt(s.last().1, c.1) {
        let d = s.drop_last();
        let j = lemma_insert_position(d, c);
        assert(insert_at(d, j, c).push(s.last()) =~= insert_at(s, j, c));
        assert forall|t: int| j <= t < s.len() implies score_lt((#[trigger] s[t]).1, c.1) by {
            if t < s.len() - 1 {
                assert(s[t] == d[t]);
            }
        }
        if j > 0 {
            assert(s[j - 1] == d[j - 1]);
        }
        j
    } else {
        assert(s.push(c) =~= insert_at(s, s.len() as int, c));
        s.len() as int
    }
}

/// Inserting a new element into a sequence without duplicates leaves none.
proof fn lemma_insert_no_duplicates(r: Seq<Scored>, j: int, c: Scored)
    requires
        0 <= j <= r.len(),
        r.no_duplicates(),
        forall|m: int| 0 <= m < r.len() ==> #[trigger] r[m] != c,
    ensures
        insert_at(r, j, c).no_duplicates(),
{
    let out = insert_at(r, j, c);
    assert forall|p: int, q: int| 0 <= p < out.len() && 0 <= q < out.len() && p != q implies out[p] != out[q] by {
        let rp = if p < j { p } else { p - 1 };
        let rq = if q < j { q } else { q - 1 };
        if p == j {
            assert(out[q] == r[rq]);
        } else if q == j {
            assert(out[p] == r[rp]);
        } else {
            assert(out[p] == r[rp] && out[q] == r[rq]);
        }
    }
}

/// Ranking neither loses nor invents candidates.
#[verifier::rlimit(50)]
proof fn lemma_rank_permutes(s: Seq<Scored>)
    ensures
        rank_by_score(s).len() == s.len(),
        forall|i: int|
            #![trigger rank_by_score(s)[i]]
            0 <= i < s.len() ==> exists|j: int| #![trigger s[j]] 0 <= j < s.len() && s[j] == rank_by_score(s)[i],
        forall|j: int|
            #![trigger s[j]]
            0 <= j < s.len() ==> exists|i: int|
                #![trigger rank_by_score(s)[i]]
                0 <= i < s.len() && rank_by_score(s)[i] == s[j],
        s.no_duplicates() ==> rank_by_score(s).no_duplicates(),
    decreases s.len(),
{
    if s.len() > 0 {
        let d = s.drop_last();
        let c = s.last();
        lemma_rank_permutes(d);
        let r = rank_by_score(d);
        let j = lemma_insert_position(r, c);
        let out = insert_at(r, j, c);
        assert(rank_by_score(s) == out);
        assert forall|i: int| #![trigger out[i]] 0 <= i < s.len() implies exists|m: int|
            #![trigger s[m]]
            0 <= m < s.len() && s[m] == out[i] by {
            if i == j {
                assert(s[s.len() - 1] == out[i]);
            } else {
                let k = if i < j { i } else { i - 1 };
                assert(out[i] == r[k]);
                let m = choose|m: int| #![trigger d[m]] 0 <= m < d.len() && d[m] == r[k];
                assert(s[m] == d[m]);
            }
        }
        assert forall|m: int| #![trigger s[m]] 0 <= m < s.len() implies exists|i: int|
            #![trigger out[i]]
            0 <= i < s.len() && out[i] == s[m] by {
            if m == s.len() - 1 {
                assert(out[j] == s[m]);
            } else {
                assert(d[m] == s[m]);
                let k = choose|k: int| #![trigger r[k]] 0 <= k < r.len() && r[k] == d[m];
                if k < j {
                    assert(out[k] == r[k]);
                } else {
                    assert(out[k + 1] == r[k]);
                }
            }
        }
        if s.no_duplicates() {
            assert forall|p: int, q: int| 0 <= p < d.len() && 0 <= q < d.len() && p != q implies d[p] != d[q] by {
                assert(d[p] == s[p] && d[q] == s[q]);
            }
            assert forall|k: int| 0 <= k < r.len() implies #[trigger] r[k] != c by {
                let m = choose|m: int| #![trigger d[m]] 0 <= m < d.len() && d[m] == r[k];
                assert(d[m] == s[m]);
                assert(s[s.len() - 1] == c);
            }
            lemma_insert_no_duplicates(r, j, c);
        }
    }
}

/// Two neighbours in a ranking are in order: the first scores at least as
/// high, and at an equal score comes from an earlier detection.
pub open spec fn in_rank_order(a: Scored, b: Scored) -> bool {
    !score_lt(a.1, b.1) && (order_key(a.1) == order_key(b.1) ==> a.0 < b.0)
}

spec fn ranked_well(r: Seq<Scored>) -> bool {
    forall|p: int, q: int| 0 <= p < q < r.len() ==> #[trigger] in_rank_order(r[p], r[q])
}

proof fn lemma_insert_keeps_order(s: Seq<Scored>, c: Scored)
    requires
        ranked_well(s),
        forall|t: int| 0 <= t < s.len() ==> !is_nan((#[trigger] s[t]).1) && s[t].0 < c.0,
        !is_nan(c.1),
    ensures
        ranked_well(insert_by_score(s, c)),
{
    let j = lemma_insert_position(s, c);
    let out = insert_at(s, j, c);
    assert forall|p: int, q: int| 0 <= p < q < out.len() implies #[trigger] in_rank_order(out[p], out[q]) by {
        if q < j {
            assert(out[p] == s[p] && out[q] == s[q]);
            assert(in_rank_order(s[p], s[q]));
        } else if q == j {
            assert(out[p] == s[p]);
            assert(!is_nan(s[p].1) && s[p].0 < c.0);
            if p < j - 1 {
                assert(in_rank_order(s[p], s[j - 1]));
                assert(!is_nan(s[j - 1].1));
            }
        } else if p == j {
            assert(out[q] == s[q - 1]);
            assert(score_lt(s[q - 1].1, c.1));
        } else if p < j {
            assert(out[p] == s[p] && out[q] == s[q - 1]);
            assert(in_rank_order(s[p], s[q - 1]));
        } else {
            assert(out[p] == s[p - 1] && out[q] == s[q - 1]);
            assert(in_rank_order(s[p - 1], s[q - 1]));
        }
    }
}

proof fn lemma_rank_prefix_in_order(scores: Seq<ScoreBits>, i: int)
    requires
        0 <= i <= scores.len(),
        scores.len() <= usize::MAX,
        forall|k: int| 0 <= k < scores.len() ==> !is_nan(#[trigger] scores[k]),
    ensures
        ranked_well(rank_by_score(indexed_scores(scores).take(i))),
    decreases i,
{
    let s = indexed_scores(scores).take(i);
    if i > 0 {
        let d = s.drop_last();
        assert(d =~= indexed_scores(scores).take(i - 1));
        lemma_rank_prefix_in_order(scores, i - 1);
        lemma_rank_permutes(d);
        let r = rank_by_score(d);
        let c = s.last();
        assert(c == (((i - 1) as usize), scores[i - 1]));
        assert forall|t: int| 0 <= t < r.len() implies !is_nan((#[trigger] r[t]).1) && r[t].0 < c.0 by {
            let m = choose|m: int| 0 <= m < d.len() && d[m] == r[t];
            assert(d[m] == ((m as usize), scores[m]));
        }
        lemma_insert_keeps_order(r, c);
    }
}

/// The ranking holds every detection exactly once.
pub proof fn law_score_order_is_a_permutation(scores: Seq<ScoreBits>)
    requires
        scores.len() <= usize::MAX,
    ensures
        score_order(scores).len() == scores.len(),
        score_order(scores).no_duplicates(),
        forall|k: usize| k < scores.len() ==> #[trigger] score_order(scores).contains(k),
        forall|p: int| 0 <= p < scores.len() ==> (#[trigger] score_order(scores)[p]) < scores.len(),
{
    let all = indexed_scores(scores);
    let r = rank_by_score(all);
    let order = score_order(scores);
    assert(all.no_duplicates()) by {
        assert forall|p: int, q: int| 0 <= p < all.len() && 0 <= q < all.len() && p != q implies all[p]
            != all[q] by {
            assert(all[p].0 == p && all[q].0 == q);
        }
    }
    lemma_rank_permutes(all);
    assert forall|p: int| 0 <= p < r.len() implies (#[trigger] r[p]).0 < scores.len() && r[p] == (
        r[p].0,
        scores[r[p].0 as int],
    ) by {
        let m = choose|m: int| 0 <= m < all.len() && all[m] == r[p];
        assert(all[m] == ((m as usize), scores[m]));
    }
    assert forall|k: usize| k < scores.len() implies #[trigger] order.contains(k) by {
        assert(all[k as int] == (k, scores[k as int]));
        let p = choose|p: int| 0 <= p < r.len() && r[p] == all[k as int];
        assert(order[p] == k);
    }
    assert forall|p: int, q: int| 0 <= p < order.len() && 0 <= q < order.len() && p != q implies order[p]
        != order[q] by {
        assert(r[p] != r[q]);
        assert(order[p] == r[p].0 && order[q] == r[q].0);
    }
}

/// Without NaN scores the ranking is best-first, and detections with equal
/// scores keep their order.
pub proof fn law_score_order_best_first(scores: Seq<ScoreBits>)
    requires
        scores.len() <= usize::MAX,
        forall|k: int| 0 <= k < scores.len() ==> !is_nan(#[trigger] scores[k]),
    ensures
        forall|p: int, q: int| 0 <= p < q < scores.len() ==> !score_lt(
            scores[#[trigger] score_order(scores)[p] as int],
            scores[#[trigger] score_order(scores)[q] as int],
        ),
        forall|p: int, q: int| 0 <= p < q < scores.len() && order_key(scores[#[trigger] score_order(scores)[p] as int])
            == order_key(scores[#[trigger] score_order(scores)[q] as int]) ==> score_order(scores)[p]
            < score_order(scores)[q],
{
    let all = indexed_scores(scores);
    let r = rank_by_score(all);
    let order = score_order(scores);
    lemma_rank_prefix_in_order(scores, scores.len() as int);
    assert(all.take(scores.len() as int) =~= all);
    lemma_rank_permutes(all);
    assert forall|p: int| 0 <= p < r.len() implies #[trigger] r[p] == (order[p], scores[order[p] as int]) by {
        let m = choose|m: int| 0 <= m < all.len() && all[m] == r[p];
        assert(all[m] == ((m as usize), scores[m]));
    }
    assert forall|p: int, q: int| 0 <= p < q < scores.len() implies !score_lt(
        scores[#[trigger] order[p] as int],
        scores[#[trigger] order[q] as int],
    ) && (order_key(scores[order[p] as int]) == order_key(scores[order[q] as int]) ==> order[p] < order[q]) by {
        assert(in_rank_order(r[p], r[q]));
        assert(r[p] == (order[p], scores[order[p] as int]));
        assert(r[q] == (order[q], scores[order[q] as int]));
    }
}

/// Greedy suppression: the detections kept follow the ranking, none is
/// suppressed by a detection kept before it, and every detection dropped is
/// suppressed by a detection kept before it in the ranking.
pub proof fn law_suppression_is_greedy(order: Seq<usize>, table: Seq<Vec<bool>>)
    ensures
        forall|p: int| 0 <= p < greedy_keep(order, table).len() ==> exists|a: int|
            0 <= a < order.len() && order[a] == #[trigger] greedy_keep(order, table)[p],
        forall|p: int, q: int| 0 <= p < q < greedy_keep(order, table).len() ==> exists|a: int, b: int|
            0 <= a < b < order.len() && order[a] == #[trigger] greedy_keep(order, table)[p] && order[b]
                == #[trigger] greedy_keep(order, table)[q],
        forall|p: int, q: int| 0 <= p < q < greedy_keep(order, table).len() ==> !suppressed_by(
            table,
            #[trigger] greedy_keep(order, table)[q] as int,
            #[trigger] greedy_keep(order, table)[p] as int,
        ),
        forall|a: int| 0 <= a < order.len() && !greedy_keep(order, table).contains(#[trigger] order[a]) ==> exists|
            p: int,
            b: int,
        |
            0 <= p < greedy_keep(order, table).len() && 0 <= b < a && #[trigger] order[b] == #[trigger] greedy_keep(
                order,
                table,
            )[p] && suppressed_by(table, order[a] as int, greedy_keep(order, table)[p] as int),
    decreases order.len(),
{
    let kept = greedy_keep(order, table);
    if order.len() > 0 {
        let d = order.drop_last();
        let prev = greedy_keep(d, table);
        let last = order.last();
        let n = order.len() as int;
        law_suppression_is_greedy(d, table);
        assert forall|a: int| 0 <= a < d.len() implies d[a] == #[trigger] order[a] by {}
        if exists|t: int| 0 <= t < prev.len() && suppressed_by(table, last as int, #[trigger] prev[t] as int) {
            assert(kept == prev);
            assert forall|p: int| 0 <= p < kept.len() implies exists|a: int|
                0 <= a < order.len() && order[a] == #[trigger] kept[p] by {
                let a = choose|a: int| 0 <= a < d.len() && d[a] == prev[p];
                assert(order[a] == d[a]);
            }
            assert forall|p: int, q: int| 0 <= p < q < kept.len() implies exists|a: int, b: int|
                0 <= a < b < order.len() && order[a] == #[trigger] kept[p] && order[b] == #[trigger] kept[q] by {
                let (a, b) = choose|a: int, b: int|
                    0 <= a < b < d.len() && d[a] == #[trigger] prev[p] && d[b] == #[trigger] prev[q];
                assert(order[a] == d[a] && order[b] == d[b]);
            }
            assert forall|a: int| 0 <= a < order.len() && !kept.contains(#[trigger] order[a]) implies exists|
                p: int,
                b: int,
            | 0 <= p < kept.len() && 0 <= b < a && #[trigger] order[b] == #[trigger] kept[p] && suppressed_by(
                table,
                order[a] as int,
                kept[p] as int,
            ) by {
                if a < n - 1 {
                    assert(d[a] == order[a]);
                    let (p, b) = choose|p: int, b: int|
                        0 <= p < prev.len() && 0 <= b < a && #[trigger] d[b] == #[trigger] prev[p] && suppressed_by(
                            table,
                            d[a] as int,
                            prev[p] as int,
                        );
                    assert(order[b] == d[b]);
                } else {
                    let t = choose|t: int| 0 <= t < prev.len() && suppressed_by(table, last as int, #[trigger] prev[t] as int);
                    let b = choose|b: int| 0 <= b < d.len() && d[b] == #[trigger] prev[t];
                    assert(order[b] == d[b]);
                    assert(order[a] == last);
                }
            }
        } else {
            assert(kept == prev.push(last));
            assert forall|p: int| 0 <= p < kept.len() implies exists|a: int|
                0 <= a < order.len() && order[a] == #[trigger] kept[p] by {
                if p < prev.len() {
                    assert(kept[p] == prev[p]);
                    let a = choose|a: int| 0 <= a < d.len() && d[a] == prev[p];
                    assert(order[a] == d[a]);
                } else {
                    assert(order[n - 1] == kept[p]);
                }
            }
            assert forall|p: int, q: int| 0 <= p < q < kept.len() implies exists|a: int, b: int|
                0 <= a < b < order.len() && order[a] == #[trigger] kept[p] && order[b] == #[trigger] kept[q] by {
                assert(kept[p] == prev[p]);
                if q < prev.len() {
                    assert(kept[q] == prev[q]);
                    let (a, b) = choose|a: int, b: int|
                        0 <= a < b < d.len() && d[a] == #[trigger] prev[p] && d[b] == #[trigger] prev[q];
                    assert(order[a] == d[a] && order[b] == d[b]);
                } else {
                    let a = choose|a: int| 0 <= a < d.len() && d[a] == prev[p];
                    assert(order[a] == d[a]);
                    assert(order[n - 1] == kept[q]);
                }
            }
            assert forall|p: int, q: int| 0 <= p < q < kept.len() implies !suppressed_by(
                table,
                #[trigger] kept[q] as int,
                #[trigger] kept[p] as int,
            ) by {
                assert(kept[p] == prev[p]);
                if q < prev.len() {
                    assert(kept[q] == prev[q]);
                } else {
                    assert(kept[q] == last);
                    if suppressed_by(table, last as int, prev[p] as int) {
                        assert(suppressed_by(table, last as int, prev[p] as int));
                    }
                }
            }
            assert forall|a: int| 0 <= a < order.len() && !kept.contains(#[trigger] order[a]) implies exists|
                p: int,
                b: int,
            | 0 <= p < kept.len() && 0 <= b < a && #[trigger] order[b] == #[trigger] kept[p] && suppressed_by(
                table,
                order[a] as int,
                kept[p] as int,
            ) by {
                if a == n - 1 {
                    assert(kept[prev.len() as int] == order[a]);
                } else {
                    assert(d[a] == order[a]);
                    assert(!prev.contains(d[a])) by {
                        if prev.contains(d[a]) {
                            let p = choose|p: int| 0 <= p < prev.len() && prev[p] == d[a];
                            assert(kept[p] == prev[p]);
                        }
                    }
                    let (p, b) = choose|p: int, b: int|
                        0 <= p < prev.len() && 0 <= b < a && #[trigger] d[b] == #[trigger] prev[p] && suppressed_by(
                            table,
                            d[a] as int,
                            prev[p] as int,
                        );
                    assert(order[b] == d[b]);
                    assert(kept[p] == prev[p]);
                }
            }
        }
    }
}

} // verus!
