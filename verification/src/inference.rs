//! The inference adapter: decodes what the classifier answers.
//!
//! The classifier itself is an outside component. It is handed an encoded
//! canvas and answers with one score for each digit; a score is an unsigned
//! number that grows with the probability given to the digit, and only the
//! order of the scores is read.

use vstd::prelude::*;

verus! {

/// Number of classes: the digits 0 to 9.
pub const CLASS_COUNT: usize = 10;

/// The classifier's verdict on one stroke.
#[derive(Clone, Copy, Debug, PartialEq, Eq, Structural)]
pub struct PredictionResult {
    /// The digit, from 0 to 9.
    pub digit_class: usize,
    /// The score of that digit.
    pub confidence: u32,
}

/// Whether `i` is the first index at which `scores` is greatest: no score is
/// above `scores[i]`, and every score before it is below.
pub open spec fn is_first_max(scores: Seq<u32>, i: int) -> bool {
    &&& 0 <= i < scores.len()
    &&& forall|j: int| 0 <= j < scores.len() ==> scores[j] <= scores[i]
    &&& forall|j: int| 0 <= j < i ==> scores[j] < scores[i]
}

/// The first index at which `scores` is greatest.
pub open spec fn first_max(scores: Seq<u32>) -> int {
    choose|i: int| is_first_max(scores, i)
}

/// What a distribution of `scores` decodes to.
pub open spec fn decoded(scores: Seq<u32>) -> Option<PredictionResult> {
    if scores.len() == CLASS_COUNT {
        Some(
            PredictionResult {
                digit_class: first_max(scores) as usize,
                confidence: scores[first_max(scores)],
            },
        )
    } else {
        None
    }
}

/// At most one index is the first maximum.
pub proof fn lemma_first_max_unique(scores: Seq<u32>, a: int, b: int)
    requires
        is_first_max(scores, a),
        is_first_max(scores, b),
    ensures
        a == b,
        first_max(scores) == a,
{
    if a < b {
        assert(scores[a] < scores[b]);
    } else if b < a {
        assert(scores[b] < scores[a]);
    }
    let c = first_max(scores);
    if c < a {
        assert(scores[c] < scores[a]);
    } else if a < c {
        assert(scores[a] < scores[c]);
    }
}

/// Decodes the classifier's answer: scans the scores from the first to the
/// last and keeps the greatest, replacing it only by a strictly greater one,
/// so that of equal scores the first wins. The answer must hold one score for
/// each of the `CLASS_COUNT` digits; any other length decodes to nothing.
pub fn predict(scores: &[u32]) -> (prediction: Option<PredictionResult>)
    ensures
        prediction == decoded(scores@),
        prediction is Some <==> scores@.len() == CLASS_COUNT,
        prediction matches Some(p) ==> is_first_max(scores@, p.digit_class as int)
            && p.confidence == scores@[p.digit_class as int] && p.digit_class < CLASS_COUNT,
{
    if scores.len() != CLASS_COUNT {
        return None;
    }
    let mut best: usize = 0;
    let mut largest: u32 = scores[0];
    let mut i: usize = 1;
    while i < CLASS_COUNT
        invariant
            scores@.len() == CLASS_COUNT,
            1 <= i <= CLASS_COUNT,
            best < i,
            largest == scores@[best as int],
            forall|j: int| 0 <= j < i ==> scores@[j] <= largest,
            forall|j: int| 0 <= j < best ==> scores@[j] < largest,
        decreases CLASS_COUNT - i,
    {
        let score = scores[i];
        if score > largest {
            largest = score;
            best = i;
        }
        i = i + 1;
    }
    proof {
        lemma_first_max_unique(scores@, best as int, best as int);
    }
    Some(PredictionResult { digit_class: best, confidence: largest })
}

/// Ties go to the lower digit: where the greatest score stands at `i` and again
/// at a later index `j`, and nowhere before `i`, the prediction is `i`.
pub proof fn lemma_tie_goes_to_first(scores: Seq<u32>, i: int, j: int)
    requires
        scores.len() == CLASS_COUNT,
        0 <= i < j < scores.len(),
        scores[i] == scores[j],
        forall|k: int| 0 <= k < scores.len() ==> scores[k] <= scores[i],
        forall|k: int| 0 <= k < i ==> scores[k] < scores[i],
    ensures
        decoded(scores) == Some(PredictionResult { digit_class: i as usize, confidence: scores[i] }),
        !is_first_max(scores, j),
{
    lemma_first_max_unique(scores, i, i);
}

} // verus!
