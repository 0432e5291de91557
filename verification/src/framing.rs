//! Frame layout of short-time spectral analysis: where successive analysis
//! windows start in a signal, how many there are, and whether a final,
//! zero-padded partial window is analysed as well.

use crate::spectrum::SpectrumError;
use vstd::prelude::*;

verus! {

/// The number of whole windows of `window` samples, `hop` samples apart, that
/// fit in a signal of `len` samples.
pub open spec fn frame_count(len: int, window: int, hop: int) -> int {
    if len < window {
        0
    } else {
        (len - window) / hop + 1
    }
}

/// The number of frequency bins kept from a window of `window_size` samples.
pub fn freq_bins(window_size: usize) -> (r: usize)
    ensures
        r == window_size / 2,
{
    window_size / 2
}

/// The number of whole analysis frames in `sample_count` samples.
pub fn time_frames(window_size: usize, hop_size: usize, sample_count: usize) -> (r: usize)
    requires
        hop_size > 0 || sample_count < window_size,
        frame_count(sample_count as int, window_size as int, hop_size as int) <= usize::MAX,
    ensures
        r == frame_count(sample_count as int, window_size as int, hop_size as int),
{
    if sample_count < window_size {
        return 0;
    }
    (sample_count - window_size) / hop_size + 1
}

/// The start positions of the whole windows: `0, hop, 2 * hop, ...` while the
/// window ends inside the signal.
pub fn frame_starts(len: usize, window: usize, hop: usize) -> (r: Vec<usize>)
    requires
        hop > 0 || len < window,
    ensures
        r@.len() == frame_count(len as int, window as int, hop as int),
        forall|k: int| 0 <= k < r@.len() ==> #[trigger] r@[k] == k * hop && r@[k] + window <= len,
{
    let mut out: Vec<usize> = Vec::new();
    if len < window {
        return out;
    }
    let last = len - window;
    let mut pos: usize = 0;
    let mut k: usize = 0;
    loop
        invariant_except_break
            hop > 0,
            last == len - window,
            pos as int == k * hop,
            pos <= last,
            out@.len() == k,
            forall|j: int| 0 <= j < k ==> #[trigger] out@[j] == j * hop && out@[j] + window <= len,
        ensures
            out@.len() == (last / hop) + 1,
            forall|j: int| 0 <= j < out@.len() ==> #[trigger] out@[j] == j * hop && out@[j] + window <= len,
        decreases last - pos,
    {
        out.push(pos);
        assert(k <= last / hop) by (nonlinear_arith)
            requires
                pos as int == k * hop,
                pos <= last,
                hop > 0,
        ;
        if hop > last - pos {
            assert(k == last / hop) by (nonlinear_arith)
                requires
                    pos as int == k * hop,
                    hop > last - pos,
                    pos <= last,
                    hop > 0,
            {
                assert(k * hop <= last < (k + 1) * hop);
                vstd::arithmetic::div_mod::lemma_fundamental_div_mod(last as int, hop as int);
            }
            break;
        }
        assert(k + 1 <= last / hop) by (nonlinear_arith)
            requires
                pos as int == k * hop,
                hop <= last - pos,
                hop > 0,
        {
            assert((k + 1) * hop <= last);
            vstd::arithmetic::div_mod::lemma_fundamental_div_mod(last as int, hop as int);
        }
        pos = pos + hop;
        k = k + 1;
        assert(pos as int == k * hop) by (nonlinear_arith)
            requires
                pos as int == (k - 1) * hop + hop,
        ;
    }
    out
}

/// Where the analysis windows of a signal start, and where a final window
/// that runs past the end (and is zero-padded) starts, if one is analysed.
pub struct FramePlan {
    pub starts: Vec<usize>,
    pub tail: Option<usize>,
}

/// The start of the zero-padded partial window: the position after the last
/// whole window, when it lies inside the signal and more than `min_tail`
/// samples remain from it.
pub open spec fn tail_start(len: int, window: int, hop: int, min_tail: int) -> Option<int> {
    let pos = frame_count(len, window, hop) * hop;
    if pos < len && len - pos > min_tail {
        Some(pos)
    } else {
        None
    }
}

/// Lays out whole windows and, when more than `min_tail` samples remain after
/// them, one zero-padded partial window.
pub fn plan_frames(len: usize, window: usize, hop: usize, min_tail: usize) -> (r: FramePlan)
    requires
        hop > 0,
    ensures
        r.starts@.len() == frame_count(len as int, window as int, hop as int),
        forall|k: int| 0 <= k < r.starts@.len() ==> #[trigger] r.starts@[k] == k * hop && r.starts@[k] + window <= len,
        match tail_start(len as int, window as int, hop as int, min_tail as int) {
            Some(p) => r.tail == Some(p as usize),
            None => r.tail is None,
        },
{
    let starts = frame_starts(len, window, hop);
    let count = starts.len();
    let ghost pos = count * hop;
    let tail = if count == 0 {
        if 0 < len && len > min_tail {
            Some(0)
        } else {
            None
        }
    } else {
        let last_start = starts[count - 1];
        assert(last_start == (count - 1) * hop);
        assert(pos == last_start + hop) by (nonlinear_arith)
            requires
                last_start == (count - 1) * hop,
                pos == count * hop,
        ;
        if hop < len - last_start && len - last_start - hop > min_tail {
            Some(last_start + hop)
        } else {
            None
        }
    };
    FramePlan { starts, tail }
}

/// Frame layout of a whole-signal analysis: whole windows, plus a padded
/// partial window when more than half a window remains. A signal shorter than
/// one window is refused.
pub fn plan_signal_frames(len: usize, window: usize, hop: usize) -> (r: Result<FramePlan, SpectrumError>)
    requires
        hop > 0 || len < window,
    ensures
        r is Err <==> len < window,
        r matches Err(e) ==> (e matches SpectrumError::Message(m) && m@ == "Signal too short for window size"@),
        r matches Ok(plan) ==> {
            &&& plan.starts@.len() == frame_count(len as int, window as int, hop as int)
            &&& forall|k: int| 0 <= k < plan.starts@.len() ==> #[trigger] plan.starts@[k] == k * hop
            &&& match tail_start(len as int, window as int, hop as int, (window / 2) as int) {
                Some(p) => plan.tail == Some(p as usize),
                None => plan.tail is None,
            }
        },
{
    if len < window {
        return Err(SpectrumError::new("Signal too short for window size"));
    }
    Ok(plan_frames(len, window, hop, window / 2))
}

/// Frame layout of an analysis of a zero-padded signal of `padded_len`
/// samples: whole windows, plus a padded partial window when more than a
/// quarter of a window remains.
pub fn plan_padded_frames(padded_len: usize, window: usize, hop: usize) -> (r: FramePlan)
    requires
        hop > 0,
    ensures
        r.starts@.len() == frame_count(padded_len as int, window as int, hop as int),
        forall|k: int| 0 <= k < r.starts@.len() ==> #[trigger] r.starts@[k] == k * hop,
        match tail_start(padded_len as int, window as int, hop as int, (window / 4) as int) {
            Some(p) => r.tail == Some(p as usize),
            None => r.tail is None,
        },
{
    plan_frames(padded_len, window, hop, window / 4)
}

/// The number of whole windows an analysis lays out is the number of time
/// frames reported for the same signal, and every window lies inside it.
pub proof fn law_frames_match_time_frames(len: int, window: int, hop: int)
    requires
        len >= 0,
        window >= 0,
        hop > 0,
    ensures
        frame_count(len, window, hop) >= 0,
        forall|k: int| 0 <= k < frame_count(len, window, hop) ==> #[trigger] (k * hop) + window <= len,
        len >= window ==> (frame_count(len, window, hop) - 1) * hop + window <= len < frame_count(len, window, hop) * hop + window,
{
    if len >= window {
        let c = frame_count(len, window, hop);
        assert((c - 1) * hop <= len - window < c * hop) by (nonlinear_arith)
            requires
                c == (len - window) / hop + 1,
                hop > 0,
                len - window >= 0,
        {
            vstd::arithmetic::div_mod::lemma_fundamental_div_mod(len - window, hop);
        }
        assert forall|k: int| 0 <= k < c implies #[trigger] (k * hop) + window <= len by {
            assert(k * hop <= (c - 1) * hop) by (nonlinear_arith)
                requires
                    k <= c - 1,
                    hop > 0,
            ;
        }
    }
}

} // verus!
