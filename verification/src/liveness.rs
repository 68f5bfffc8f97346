//! The liveness (anti-spoofing) decision on the model's softmax output:
//! three class probabilities, class 1 being "live". A face is live when the
//! live class is the most probable one *and* its probability reaches the
//! configured threshold — more margin than the model's own argmax rule.
//!
//! Probabilities and thresholds are binary32 encodings compared as IEEE
//! floats (see [`crate::score`]).

use vstd::prelude::*;

use crate::error::FaceError;
use crate::score::{score_at_least, score_ge, score_less_than, score_lt, ScoreBits};

verus! {

/// The position `Iterator::max_by` picks with an IEEE comparison in which
/// unordered pairs count as equal: walking left to right, a later value
/// replaces the current pick unless the pick is strictly greater, so among
/// equal maxima the last wins. `0` for no values.
pub open spec fn max_position(p: Seq<ScoreBits>) -> int
    decreases p.len(),
{
    if p.len() <= 1 {
        0
    } else {
        let best = max_position(p.drop_last());
        if score_lt(p.last(), p[best]) {
            best
        } else {
            p.len() - 1
        }
    }
}

proof fn lemma_max_position_in_range(p: Seq<ScoreBits>)
    ensures
        p.len() > 0 ==> 0 <= max_position(p) < p.len(),
        p.len() == 0 ==> max_position(p) == 0,
    decreases p.len(),
{
    if p.len() > 1 {
        lemma_max_position_in_range(p.drop_last());
    }
}

/// The position of the most probable class, as [`max_position`] picks it.
pub fn most_probable(probs: &Vec<ScoreBits>) -> (r: usize)
    ensures
        r == max_position(probs@),
{
    if probs.len() == 0 {
        return 0;
    }
    let mut best: usize = 0;
    let mut i: usize = 1;
    while i < probs.len()
        invariant
            1 <= i <= probs@.len(),
            best == max_position(probs@.take(i as int)),
            best < i,
        decreases probs@.len() - i,
    {
        proof {
            assert(probs@.take(i + 1).drop_last() =~= probs@.take(i as int));
            assert(probs@.take(i + 1).last() == probs@[i as int]);
            assert(probs@.take(i + 1)[best as int] == probs@[best as int]);
        }
        if !score_less_than(probs[i], probs[best]) {
            best = i;
        }
        i = i + 1;
    }
    proof {
        assert(probs@.take(probs@.len() as int) =~= probs@);
    }
    best
}

/// The outcome of a liveness check on the model's output: the live-class
/// probability, and whether the face counts as live.
pub open spec fn liveness_outcome(probs: Seq<ScoreBits>, live_threshold: ScoreBits) -> Result<(ScoreBits, bool), FaceError> {
    if probs.len() != 3 {
        Err(FaceError::ShapeMismatch { name: "minifasnet_softmax", expected: 3, got: probs.len() as usize })
    } else {
        Ok((probs[1], max_position(probs) == 1 && score_ge(probs[1], live_threshold)))
    }
}

/// Decides liveness from the model's three class probabilities: live when
/// class 1 is the most probable and its probability reaches
/// `live_threshold`. Output of another length is a `ShapeMismatch`.
pub fn liveness_verdict(probs: &Vec<ScoreBits>, live_threshold: ScoreBits) -> (r: Result<(ScoreBits, bool), FaceError>)
    ensures
        r == liveness_outcome(probs@, live_threshold),
{
    if probs.len() != 3 {
        return Err(FaceError::ShapeMismatch { name: "minifasnet_softmax", expected: 3, got: probs.len() });
    }
    let live_score = probs[1];
    let is_live = most_probable(probs) == 1 && score_at_least(live_score, live_threshold);
    Ok((live_score, is_live))
}

/// A spoof as an error: `Ok` for a live face, `SpoofDetected` with the
/// live score and the threshold otherwise.
pub fn require_live(live_score: ScoreBits, is_live: bool, live_threshold: ScoreBits) -> (r: Result<(), FaceError>)
    ensures
        is_live ==> r is Ok,
        !is_live ==> r == Err::<(), FaceError>(FaceError::SpoofDetected { live_score, threshold: live_threshold }),
{
    if is_live {
        Ok(())
    } else {
        Err(FaceError::SpoofDetected { live_score, threshold: live_threshold })
    }
}

/// A face judged live had the live class as its most probable class, with a
/// probability at or above the threshold.
pub proof fn law_live_needs_the_live_class_and_the_threshold(probs: Seq<ScoreBits>, live_threshold: ScoreBits)
    requires
        probs.len() == 3,
        liveness_outcome(probs, live_threshold) matches Ok((_, true)),
    ensures
        !score_lt(probs[1], probs[0]),
        !score_lt(probs[1], probs[2]),
        score_ge(probs[1], live_threshold),
{
    let p2 = probs.drop_last();
    assert(p2.drop_last() =~= seq![probs[0]]);
    assert(p2[0] == probs[0] && p2[1] == probs[1]);
    assert(probs.last() == probs[2]);
    assert(max_position(p2.drop_last()) == 0);
    assert(max_position(p2) == 1) by {
        lemma_max_position_in_range(p2);
    }
}


/// The live score is always the live class's probability (`output[1]`),
/// whichever class is most probable; the face is live exactly when the live
/// class is at least as probable as class 0, strictly more probable than
/// class 2 (a tie goes to the later class), and at or above the threshold.
/// Output that is not three probabilities is a `ShapeMismatch` naming its
/// length.
pub proof fn law_live_score_is_the_live_class(probs: Seq<ScoreBits>, live_threshold: ScoreBits)
    ensures
        probs.len() == 3 ==> (liveness_outcome(probs, live_threshold) matches Ok((score, live)) && score
            == probs[1] && (live <==> (!score_lt(probs[1], probs[0]) && score_lt(probs[2], probs[1])
            && score_ge(probs[1], live_threshold)))),
        probs.len() != 3 ==> liveness_outcome(probs, live_threshold) == Err::<(ScoreBits, bool), FaceError>(
            FaceError::ShapeMismatch { name: "minifasnet_softmax", expected: 3, got: probs.len() as usize },
        ),
{
    if probs.len() == 3 {
        let p2 = probs.drop_last();
        assert(p2.drop_last() =~= seq![probs[0]]);
        assert(p2[0] == probs[0] && p2[1] == probs[1]);
        assert(probs.last() == probs[2]);
        assert(max_position(p2.drop_last()) == 0);
        assert(max_position(p2) == if score_lt(probs[1], probs[0]) { 0int } else { 1int });
    }
}

} // verus!
