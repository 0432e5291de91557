//! Where sound starts in a signal: the decision that follows the first
//! analysis window loud enough to trigger, refined to a zero crossing.

use vstd::prelude::*;

verus! {

/// The first position `j` in `from..to` at which the sign flag changes between
/// samples `j` and `j + 1` (both inside the signal), if there is one.
pub open spec fn first_crossing(nonnegative: Seq<bool>, from: int, to: int) -> Option<int>
    decreases to - from,
{
    if from >= to {
        None
    } else if from + 1 < nonnegative.len() && nonnegative[from] != nonnegative[from + 1] {
        Some(from)
    } else {
        first_crossing(nonnegative, from + 1, to)
    }
}

/// The window at which the start is decided, after the start was triggered by
/// window `trigger`: the first later window at least `min_samples` past it.
pub open spec fn decision_window(trigger: int, min_samples: int) -> int {
    if min_samples > 1 {
        trigger + min_samples
    } else {
        trigger + 1
    }
}

/// The detected start sample, given the first triggering window (if any), the
/// number of analysis windows, the sign of each sample and the minimum
/// duration in samples: nothing when no window triggers or the decision window
/// lies past the last window; otherwise the first zero crossing between the
/// trigger and the decision window, or the trigger itself when there is none.
pub open spec fn detected_start(
    first_active: Option<usize>,
    window_count: int,
    nonnegative: Seq<bool>,
    min_samples: int,
) -> Option<int> {
    match first_active {
        None => None,
        Some(a) => {
            let d = decision_window(a as int, min_samples);
            if d >= window_count {
                None
            } else {
                match first_crossing(nonnegative, a as int, d) {
                    Some(j) => Some(j),
                    None => Some(a as int),
                }
            }
        },
    }
}

/// The sample at which sound starts: see [`detected_start`].
pub fn detect_start_sample(
    first_active: Option<usize>,
    window_count: usize,
    nonnegative: &Vec<bool>,
    min_samples: usize,
) -> (r: Option<usize>)
    ensures
        match detected_start(first_active, window_count as int, nonnegative@, min_samples as int) {
            Some(j) => r == Some(j as usize) && j >= 0,
            None => r is None,
        },
{
    let a = match first_active {
        None => return None,
        Some(a) => a,
    };
    if a >= window_count {
        return None;
    }
    let step: usize = if min_samples > 1 { min_samples } else { 1 };
    if step >= window_count - a {
        return None;
    }
    let d = a + step;
    let n = nonnegative.len();
    let mut j: usize = a;
    while j < d
        invariant
            a <= j <= d,
            d < window_count,
            first_active == Some(a),
            d == decision_window(a as int, min_samples as int),
            n == nonnegative@.len(),
            first_crossing(nonnegative@, j as int, d as int) == first_crossing(nonnegative@, a as int, d as int),
        decreases d - j,
    {
        if j + 1 < n && nonnegative[j] != nonnegative[j + 1] {
            return Some(j);
        }
        j = j + 1;
    }
    Some(a)
}

proof fn lemma_first_crossing_bounds(nonnegative: Seq<bool>, from: int, to: int)
    ensures
        first_crossing(nonnegative, from, to) matches Some(j) ==> from <= j < to && j + 1 < nonnegative.len()
            && nonnegative[j] != nonnegative[j + 1],
    decreases to - from,
{
    if from < to {
        lemma_first_crossing_bounds(nonnegative, from + 1, to);
    }
}

/// A detected start lies at or after the triggering window and before the
/// window at which it is decided, which lies before the last window.
pub proof fn law_detected_start_bounds(first_active: Option<usize>, window_count: int, nonnegative: Seq<bool>, min_samples: int)
    ensures
        detected_start(first_active, window_count, nonnegative, min_samples) matches Some(j) ==> (first_active
            matches Some(a) && a <= j < decision_window(a as int, min_samples) < window_count),
{
    if let Some(a) = first_active {
        lemma_first_crossing_bounds(nonnegative, a as int, decision_window(a as int, min_samples));
    }
}

} // verus!
