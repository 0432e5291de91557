//! Index planning for audio segmentation: cutting a signal into fixed-size
//! chunks, trimming silent frames at both ends, picking onsets from spectral
//! peaks, and choosing fixed-length segments that start at onsets.
//!
//! The level and flux values that decide which frames are loud or peaked are
//! computed by the caller; this module works with the resulting positions.

use crate::text::{decimal_digits, decimal_text};
use vstd::prelude::*;

verus! {

/// The end of the `i`-th chunk when `len` items are cut into chunks of `n`.
pub open spec fn chunk_end(len: int, n: int, i: int) -> int {
    if (i + 1) * n < len {
        (i + 1) * n
    } else {
        len
    }
}

/// The number of chunks of at most `n` items that `len` items make.
pub open spec fn chunk_count(len: int, n: int) -> int {
    (len + n - 1) / n
}

/// `s` cut into consecutive chunks of `n` items; the last one may be shorter.
pub open spec fn chunks_of<S>(s: Seq<S>, n: int) -> Seq<Seq<S>> {
    Seq::new(chunk_count(s.len() as int, n) as nat, |i: int| s.subrange(i * n, chunk_end(s.len() as int, n, i)))
}

proof fn lemma_chunk_bounds(len: int, n: int, i: int)
    requires
        len >= 0,
        n > 0,
        0 <= i < chunk_count(len, n),
    ensures
        0 <= i * n < len,
        i * n < chunk_end(len, n, i) <= len,
        chunk_end(len, n, i) - i * n <= n,
        (i + 1) * n == i * n + n,
{
    assert((i + 1) * n == i * n + n) by (nonlinear_arith);
    assert(i * n >= 0) by (nonlinear_arith)
        requires
            i >= 0,
            n > 0,
    ;
    assert(i * n < len) by (nonlinear_arith)
        requires
            n > 0,
            0 <= i,
            i < (len + n - 1) / n,
    {
        assert(i + 1 <= (len + n - 1) / n);
        assert((i + 1) * n <= ((len + n - 1) / n) * n);
        assert(((len + n - 1) / n) * n <= len + n - 1);
    }
}

proof fn lemma_chunk_count_exact(len: int, n: int, k: int)
    requires
        len >= 0,
        n > 0,
        k >= 0,
        k * n >= len,
        (k - 1) * n < len,
    ensures
        chunk_count(len, n) == k,
{
    let c = chunk_count(len, n);
    assert(c * n <= len + n - 1 && len + n - 1 < c * n + n) by (nonlinear_arith)
        requires
            c == (len + n - 1) / n,
            n > 0,
    ;
    assert(c == k) by (nonlinear_arith)
        requires
            c * n <= len + n - 1,
            len + n - 1 < c * n + n,
            k * n >= len,
            (k - 1) * n < len,
            n > 0,
    ;
}

/// Cutting a sequence into chunks and joining them gives it back; every chunk
/// is non-empty and holds at most `n` items, and all but the last hold exactly `n`.
pub proof fn law_chunks_partition<S>(s: Seq<S>, n: int)
    requires
        n > 0,
    ensures
        chunks_of(s, n).flatten() == s,
        forall|i: int| 0 <= i < chunks_of(s, n).len() ==> 0 < #[trigger] chunks_of(s, n)[i].len() <= n,
        forall|i: int| 0 <= i < chunks_of(s, n).len() - 1 ==> #[trigger] chunks_of(s, n)[i].len() == n,
{
    let len = s.len() as int;
    let c = chunk_count(len, n);
    assert forall|i: int| 0 <= i < chunks_of(s, n).len() implies 0 < #[trigger] chunks_of(s, n)[i].len() <= n by {
        lemma_chunk_bounds(len, n, i);
    }
    assert forall|i: int| 0 <= i < chunks_of(s, n).len() - 1 implies #[trigger] chunks_of(s, n)[i].len() == n by {
        lemma_chunk_bounds(len, n, i);
        lemma_chunk_bounds(len, n, i + 1);
    }
    lemma_chunks_prefix(s, n, c);
    if c > 0 {
        lemma_chunk_bounds(len, n, c - 1);
        assert(chunk_end(len, n, c - 1) == len) by {
            assert((c - 1 + 1) * n == c * n);
            if c * n < len {
                assert(c * n >= len) by (nonlinear_arith)
                    requires
                        c == (len + n - 1) / n,
                        n > 0,
                ;
            }
        }
    }
    if c == 0 {
        assert(len == 0) by (nonlinear_arith)
            requires
                c == (len + n - 1) / n,
                n > 0,
                len >= 0,
                c == 0,
        ;
    }
    assert(s.subrange(0, if c > 0 { chunk_end(len, n, c - 1) } else { 0 }) =~= s);
    assert(chunks_of(s, n).take(c) =~= chunks_of(s, n));
}

proof fn lemma_chunks_prefix<S>(s: Seq<S>, n: int, k: int)
    requires
        n > 0,
        0 <= k <= chunk_count(s.len() as int, n),
    ensures
        chunks_of(s, n).take(k).flatten() == s.subrange(0, if k > 0 { chunk_end(s.len() as int, n, k - 1) } else { 0 }),
    decreases k,
{
    let len = s.len() as int;
    let cs = chunks_of(s, n);
    if k == 0 {
        assert(cs.take(0) =~= Seq::<Seq<S>>::empty());
        assert(s.subrange(0, 0) =~= Seq::<S>::empty());
    } else {
        lemma_chunks_prefix(s, n, k - 1);
        lemma_chunk_bounds(len, n, k - 1);
        assert(cs.take(k) =~= cs.take(k - 1).push(cs[k - 1]));
        cs.take(k - 1).lemma_flatten_push(cs[k - 1]);
        let prev_end = if k - 1 > 0 { chunk_end(len, n, k - 2) } else { 0 };
        if k - 1 > 0 {
            lemma_chunk_bounds(len, n, k - 2);
            assert((k - 2 + 1) * n == (k - 1) * n);
        }
        assert(prev_end == (k - 1) * n);
        assert(s.subrange(0, prev_end) + s.subrange((k - 1) * n, chunk_end(len, n, k - 1)) =~= s.subrange(
            0,
            chunk_end(len, n, k - 1),
        ));
    }
}

/// A copy of the samples in `start..end`.
pub fn copy_range<S: Copy>(samples: &Vec<S>, start: usize, end: usize) -> (r: Vec<S>)
    requires
        start <= end <= samples@.len(),
    ensures
        r@ == samples@.subrange(start as int, end as int),
{
    let mut piece: Vec<S> = Vec::with_capacity(end - start);
    let mut j = start;
    while j < end
        invariant
            start <= j <= end,
            end <= samples@.len(),
            piece@ == samples@.subrange(start as int, j as int),
        decreases end - j,
    {
        piece.push(samples[j]);
        assert(piece@ =~= samples@.subrange(start as int, j + 1));
        j = j + 1;
    }
    piece
}

/// Copies of the sample ranges `ranges` of `samples`.
pub fn cut_segments<S: Copy>(samples: &Vec<S>, ranges: &Vec<(usize, usize)>) -> (r: Vec<Vec<S>>)
    requires
        forall|i: int| 0 <= i < ranges@.len() ==> (#[trigger] ranges@[i]).0 <= ranges@[i].1 <= samples@.len(),
    ensures
        r@.len() == ranges@.len(),
        forall|i: int| 0 <= i < r@.len() ==> (#[trigger] r@[i])@ == samples@.subrange(ranges@[i].0 as int, ranges@[i].1 as int),
{
    let mut out: Vec<Vec<S>> = Vec::with_capacity(ranges.len());
    let n = ranges.len();
    for i in 0..n
        invariant
            n == ranges@.len(),
            forall|k: int| 0 <= k < ranges@.len() ==> (#[trigger] ranges@[k]).0 <= ranges@[k].1 <= samples@.len(),
            out@.len() == i,
            forall|k: int| 0 <= k < i ==> (#[trigger] out@[k])@ == samples@.subrange(ranges@[k].0 as int, ranges@[k].1 as int),
    {
        let (a, b) = ranges[i];
        out.push(copy_range(samples, a, b));
    }
    out
}

/// Cuts `samples` into consecutive segments of `samples_per_segment` samples
/// (the last one may be shorter), each paired with `sample_rate`.
pub fn chunk_segments<S: Copy>(samples: &Vec<S>, samples_per_segment: usize, sample_rate: u32) -> (r: Vec<(Vec<S>, u32)>)
    requires
        samples_per_segment > 0,
    ensures
        r@.len() == chunks_of(samples@, samples_per_segment as int).len(),
        forall|i: int| 0 <= i < r@.len() ==> (#[trigger] r@[i]).0@ == chunks_of(samples@, samples_per_segment as int)[i] && r@[i].1 == sample_rate,
{
    let n = samples_per_segment;
    let len = samples.len();
    let ghost cs = chunks_of(samples@, n as int);
    let mut out: Vec<(Vec<S>, u32)> = Vec::new();
    let mut start: usize = 0;
    let mut k: usize = 0;
    proof {
        if len > 0 {
            lemma_chunk_count_bound(len as int, n as int, 0);
        } else {
            lemma_chunk_count_exact(0, n as int, 0);
        }
    }
    while start < len
        invariant
            len == samples@.len(),
            n > 0,
            cs == chunks_of(samples@, n as int),
            0 <= k <= chunk_count(len as int, n as int),
            start as int == k * n || (start == len && k == chunk_count(len as int, n as int)),
            start <= len,
            start < len ==> k < chunk_count(len as int, n as int),
            start >= len ==> k == chunk_count(len as int, n as int),
            out@.len() == k,
            k <= start,
            forall|i: int| 0 <= i < k ==> (#[trigger] out@[i]).0@ == cs[i] && out@[i].1 == sample_rate,
        decreases len - start,
    {
        proof {
            lemma_chunk_bounds(len as int, n as int, k as int);
        }
        let end = if len - start > n { start + n } else { len };
        assert(end == chunk_end(len as int, n as int, k as int));
        let piece = copy_range(samples, start, end);
        out.push((piece, sample_rate));
        k = k + 1;
        start = end;
        proof {
            if start < len {
                assert(start as int == k * n);
                if k >= chunk_count(len as int, n as int) {
                    lemma_chunk_count_bound(len as int, n as int, k as int);
                }
            } else {
                lemma_chunk_count_exact(len as int, n as int, k as int);
            }
        }
    }
    out
}

proof fn lemma_chunk_count_bound(len: int, n: int, k: int)
    requires
        len >= 0,
        n > 0,
        k * n < len,
    ensures
        k < chunk_count(len, n),
{
    assert(k < (len + n - 1) / n) by (nonlinear_arith)
        requires
            k * n < len,
            n > 0,
    {
        assert((k + 1) * n <= len + n - 1);
    }
}

/// Segments of `n` samples that start at onsets, for a signal of `len`
/// samples: an onset is taken when it lies at least `n / 2` samples after the
/// end of the last segment taken (`last_end`) and its segment fits in the signal.
pub open spec fn onset_segments(onsets: Seq<usize>, n: int, len: int, last_end: int) -> Seq<(int, int)>
    decreases onsets.len(),
{
    if onsets.len() == 0 {
        Seq::empty()
    } else {
        let s = onsets[0] as int;
        let rest = onsets.drop_first();
        if s < last_end + n / 2 {
            onset_segments(rest, n, len, last_end)
        } else if s + n <= len {
            seq![(s, s + n)] + onset_segments(rest, n, len, s + n)
        } else {
            onset_segments(rest, n, len, last_end)
        }
    }
}

/// The complete segments of `n` samples that tile a signal of `len` samples
/// from its start; a shorter remainder is dropped.
pub open spec fn regular_segments(n: int, len: int) -> Seq<(int, int)> {
    Seq::new((len / n) as nat, |k: int| (k * n, k * n + n))
}

/// The segments chosen for a trimmed signal of `len` samples: those starting at
/// onsets, or, when no onset yields one, the regular tiling.
pub open spec fn planned_segments(onsets: Seq<usize>, n: int, len: int) -> Seq<(int, int)> {
    let from_onsets = onset_segments(onsets, n, len, -n);
    if from_onsets.len() > 0 {
        from_onsets
    } else {
        regular_segments(n, len)
    }
}

/// `segs` are segments of exactly `n` samples inside `[0, len]`, in order, each
/// starting at least `gap` samples after the previous one ends.
pub open spec fn segments_spaced(segs: Seq<(int, int)>, n: int, len: int, gap: int) -> bool {
    &&& forall|i: int| 0 <= i < segs.len() ==> 0 <= (#[trigger] segs[i]).0 && segs[i].1 == segs[i].0 + n && segs[i].1 <= len
    &&& forall|i: int| 0 <= i < segs.len() - 1 ==> (#[trigger] segs[i]).1 + gap <= segs[i + 1].0
}

proof fn lemma_onset_segments_spaced(onsets: Seq<usize>, n: int, len: int, last_end: int)
    requires
        n >= 0,
    ensures
        segments_spaced(onset_segments(onsets, n, len, last_end), n, len, n / 2),
        onset_segments(onsets, n, len, last_end).len() > 0 ==> onset_segments(onsets, n, len, last_end)[0].0 >= last_end + n / 2,
    decreases onsets.len(),
{
    if onsets.len() > 0 {
        let s = onsets[0] as int;
        let rest = onsets.drop_first();
        if s < last_end + n / 2 {
            lemma_onset_segments_spaced(rest, n, len, last_end);
        } else if s + n <= len {
            lemma_onset_segments_spaced(rest, n, len, s + n);
            let tail = onset_segments(rest, n, len, s + n);
            let all = seq![(s, s + n)] + tail;
            assert(onset_segments(onsets, n, len, last_end) == all);
            assert forall|i: int| 0 <= i < all.len() - 1 implies (#[trigger] all[i]).1 + n / 2 <= all[i + 1].0 by {
                if i > 0 {
                    assert(all[i] == tail[i - 1] && all[i + 1] == tail[i]);
                }
            }
            assert forall|i: int| 0 <= i < all.len() implies 0 <= (#[trigger] all[i]).0 && all[i].1 == all[i].0 + n && all[i].1 <= len by {
                if i > 0 {
                    assert(all[i] == tail[i - 1]);
                }
            }
        } else {
            lemma_onset_segments_spaced(rest, n, len, last_end);
        }
    }
}

/// The segments a segmenter cuts are `n` samples long, lie inside the signal and
/// never overlap: segments taken at onsets are at least `n / 2` samples apart,
/// and the regular tiling puts each segment right after the previous one.
pub proof fn law_planned_segments_disjoint(onsets: Seq<usize>, n: int, len: int)
    requires
        n > 0,
        len >= 0,
    ensures
        segments_spaced(planned_segments(onsets, n, len), n, len, 0),
        onset_segments(onsets, n, len, -n).len() > 0 ==> segments_spaced(planned_segments(onsets, n, len), n, len, n / 2),
        onset_segments(onsets, n, len, -n).len() == 0 ==> planned_segments(onsets, n, len) == regular_segments(n, len),
{
    lemma_onset_segments_spaced(onsets, n, len, -n);
    let reg = regular_segments(n, len);
    assert forall|i: int| 0 <= i < reg.len() implies 0 <= (#[trigger] reg[i]).0 && reg[i].1 == reg[i].0 + n && reg[i].1 <= len by {
        assert(0 <= i * n) by (nonlinear_arith)
            requires
                0 <= i,
                n > 0,
        ;
        assert(i * n + n <= len) by (nonlinear_arith)
            requires
                0 <= i < len / n,
                n > 0,
        {
            assert(i + 1 <= len / n);
            assert((i + 1) * n <= (len / n) * n);
        }
    }
    assert forall|i: int| 0 <= i < reg.len() - 1 implies (#[trigger] reg[i]).1 + 0 <= reg[i + 1].0 by {
        assert((i + 1) * n == i * n + n) by (nonlinear_arith);
    }
}

/// Chooses the segments to cut from a trimmed signal of `len` samples, given the
/// onset positions and the segment length in samples. Returns `(start, end)`
/// sample ranges.
pub fn select_segments(onsets: &Vec<usize>, segment_samples: usize, len: usize) -> (r: Vec<(usize, usize)>)
    requires
        segment_samples as int <= i64::MAX,
        segment_samples > 0 || onset_segments(onsets@, 0, len as int, 0).len() > 0,
    ensures
        r@.len() == planned_segments(onsets@, segment_samples as int, len as int).len(),
        forall|i: int| 0 <= i < r@.len() ==> (#[trigger] r@[i]).0 as int == planned_segments(onsets@, segment_samples as int, len as int)[i].0
            && r@[i].1 as int == planned_segments(onsets@, segment_samples as int, len as int)[i].1,
{
    let n = segment_samples;
    let ghost ni = n as int;
    let ghost target = onset_segments(onsets@, ni, len as int, -ni);
    let mut out: Vec<(usize, usize)> = Vec::new();
    let mut last_end: Option<usize> = None;
    let count = onsets.len();
    let mut i: usize = 0;
    proof {
        assert(onsets@.skip(0) =~= onsets@);
        assert(Seq::new(out@.len(), |k: int| (out@[k].0 as int, out@[k].1 as int)) =~= Seq::<(int, int)>::empty());
        assert(Seq::<(int, int)>::empty() + target =~= target);
    }
    while i < count
        invariant
            count == onsets@.len(),
            i <= count,
            ni == n as int,
            target == onset_segments(onsets@, ni, len as int, -ni),
            last_end matches Some(e) ==> e <= len,
            ({
                let le = match last_end { Some(e) => e as int, None => -ni };
                let done = Seq::new(out@.len(), |k: int| (out@[k].0 as int, out@[k].1 as int));
                done + onset_segments(onsets@.skip(i as int), ni, len as int, le) == target
            }),
        decreases count - i,
    {
        let ghost le = match last_end { Some(e) => e as int, None => -ni };
        let ghost done = Seq::new(out@.len(), |k: int| (out@[k].0 as int, out@[k].1 as int));
        let s = onsets[i];
        assert(onsets@.skip(i as int)[0] == s);
        assert(onsets@.skip(i as int).drop_first() =~= onsets@.skip(i + 1));
        let skip = match last_end {
            None => false,
            Some(e) => s < e || s - e < n / 2,
        };
        if !skip && s <= len && n <= len - s {
            out.push((s, s + n));
            last_end = Some(s + n);
            let ghost done2 = Seq::new(out@.len(), |k: int| (out@[k].0 as int, out@[k].1 as int));
            assert(done2 =~= done + seq![(s as int, s as int + ni)]);
        } else {
            let ghost done2 = Seq::new(out@.len(), |k: int| (out@[k].0 as int, out@[k].1 as int));
            assert(done2 =~= done);
        }
        i = i + 1;
    }
    assert(onsets@.skip(count as int) =~= Seq::<usize>::empty());
    let ghost done = Seq::new(out@.len(), |k: int| (out@[k].0 as int, out@[k].1 as int));
    assert(done =~= target);
    if out.len() > 0 {
        return out;
    }
    proof {
        if n == 0 {
            assert(target == onset_segments(onsets@, 0, len as int, 0));
        }
    }
    let mut reg: Vec<(usize, usize)> = Vec::new();
    let total = len / n;
    let mut k: usize = 0;
    let mut start: usize = 0;
    while k < total
        invariant
            n > 0,
            ni == n as int,
            total == len / n,
            k <= total,
            start as int == k * ni,
            reg@.len() == k,
            forall|j: int| 0 <= j < k ==> (#[trigger] reg@[j]).0 as int == j * ni && reg@[j].1 as int == j * ni + ni,
        decreases total - k,
    {
        assert(start as int + ni <= len) by (nonlinear_arith)
            requires
                start as int == k * ni,
                k < len / n,
                ni == n as int,
                n > 0,
        {
            assert(k + 1 <= len / n);
            assert((k + 1) * ni <= (len / n) * ni);
        }
        reg.push((start, start + n));
        start = start + n;
        k = k + 1;
        assert(start as int == k * ni) by (nonlinear_arith)
            requires
                start as int == (k - 1) * ni + ni,
        ;
    }
    reg
}

/// Whether some frame is active.
pub open spec fn any_active(active: Seq<bool>) -> bool {
    exists|i: int| 0 <= i < active.len() && active[i]
}

/// The first active frame, when there is one.
#[verifier::opaque]
pub open spec fn first_active(active: Seq<bool>) -> int {
    choose|a: int| 0 <= a < active.len() && active[a] && forall|j: int| 0 <= j < a ==> !active[j]
}

/// The last active frame, when there is one.
#[verifier::opaque]
pub open spec fn last_active(active: Seq<bool>) -> int {
    choose|b: int| 0 <= b < active.len() && active[b] && forall|j: int| b < j < active.len() ==> !active[j]
}

/// The sample range kept after trimming silence: from the first active frame's
/// start to the end of the last active frame (at most `len`); the whole signal
/// when no frame is active.
pub open spec fn trimmed_range(starts: Seq<usize>, active: Seq<bool>, frame_len: int, len: int) -> (int, int) {
    if any_active(active) {
        let a = first_active(active);
        let b = last_active(active);
        (starts[a] as int, if starts[b] + frame_len < len { starts[b] + frame_len } else { len })
    } else {
        (0, len)
    }
}

/// The first and the last active frame are active, no frame before the first
/// and none after the last is, and the first comes no later than the last.
pub proof fn lemma_active_ends(active: Seq<bool>)
    requires
        any_active(active),
    ensures
        0 <= first_active(active) <= last_active(active) < active.len(),
        active[first_active(active)],
        active[last_active(active)],
        forall|j: int| 0 <= j < first_active(active) ==> !active[j],
        forall|j: int| last_active(active) < j < active.len() ==> !active[j],
{
    let w = choose|i: int| 0 <= i < active.len() && active[i];
    let a0 = lemma_first_active(active, w);
    let b0 = lemma_last_active(active, w);
    reveal(first_active);
    reveal(last_active);
    let a = first_active(active);
    let b = last_active(active);
    assert(0 <= a < active.len() && active[a] && forall|j: int| 0 <= j < a ==> !active[j]);
    assert(0 <= b < active.len() && active[b] && forall|j: int| b < j < active.len() ==> !active[j]);
    lemma_first_before_last(active, a, b);
}

/// Exactly one frame is the first active frame, and one the last.
pub proof fn lemma_active_ends_unique(active: Seq<bool>, a: int, b: int)
    requires
        0 <= a < active.len() && active[a] && forall|j: int| 0 <= j < a ==> !active[j],
        0 <= b < active.len() && active[b] && forall|j: int| b < j < active.len() ==> !active[j],
    ensures
        any_active(active),
        first_active(active) == a,
        last_active(active) == b,
{
    lemma_active_ends(active);
    let fa = first_active(active);
    let lb = last_active(active);
    if fa < a {
        assert(!active[fa]);
    }
    if a < fa {
        assert(!active[a]);
    }
    if lb < b {
        assert(!active[b]);
    }
    if b < lb {
        assert(!active[lb]);
    }
}

/// For frame starts in increasing order inside the signal, the kept range is
/// a range of the signal: its start is at most its end, which is at most the
/// signal's length.
pub proof fn law_trimmed_range_within_signal(starts: Seq<usize>, active: Seq<bool>, frame_len: int, len: int)
    requires
        starts.len() == active.len(),
        frame_len >= 0,
        len >= 0,
        forall|i: int| 0 <= i < starts.len() ==> #[trigger] starts[i] <= len,
        forall|i: int, j: int| 0 <= i <= j < starts.len() ==> starts[i] <= starts[j],
    ensures
        0 <= trimmed_range(starts, active, frame_len, len).0 <= trimmed_range(starts, active, frame_len, len).1 <= len,
{
    if any_active(active) {
        lemma_active_ends(active);
        let a = first_active(active);
        let b = last_active(active);
        assert(starts[a] <= starts[b]);
        assert(starts[a] <= len);
    }
}

/// The first active frame comes no later than the last one.
proof fn lemma_first_before_last(active: Seq<bool>, a: int, b: int)
    requires
        0 <= a < active.len() && active[a] && forall|j: int| 0 <= j < a ==> !active[j],
        0 <= b < active.len() && active[b] && forall|j: int| b < j < active.len() ==> !active[j],
    ensures
        a <= b,
{
    if a > b {
        assert(!active[a]);
    }
}

/// Some active frame has no active frame before it.
proof fn lemma_first_active(active: Seq<bool>, w: int) -> (a: int)
    requires
        0 <= w < active.len(),
        active[w],
    ensures
        0 <= a < active.len() && active[a] && forall|j: int| 0 <= j < a ==> !active[j],
    decreases w,
{
    if exists|j: int| 0 <= j < w && active[j] {
        let j = choose|j: int| 0 <= j < w && active[j];
        lemma_first_active(active, j)
    } else {
        w
    }
}

/// Some active frame has no active frame after it.
proof fn lemma_last_active(active: Seq<bool>, w: int) -> (b: int)
    requires
        0 <= w < active.len(),
        active[w],
    ensures
        0 <= b < active.len() && active[b] && forall|j: int| b < j < active.len() ==> !active[j],
    decreases active.len() - w,
{
    if exists|j: int| w < j < active.len() && active[j] {
        let j = choose|j: int| w < j < active.len() && active[j];
        lemma_last_active(active, j)
    } else {
        w
    }
}

/// Finds the sample range kept after trimming silence, given the start of each
/// analysis frame and whether the frame is loud enough to keep.
pub fn trim_bounds(starts: &Vec<usize>, active: &Vec<bool>, frame_len: usize, len: usize) -> (r: (usize, usize))
    requires
        starts@.len() == active@.len(),
        forall|i: int| 0 <= i < starts@.len() ==> #[trigger] starts@[i] <= len,
    ensures
        (r.0 as int, r.1 as int) == trimmed_range(starts@, active@, frame_len as int, len as int),
{
    let n = active.len();
    let mut first: Option<usize> = None;
    let mut last: Option<usize> = None;
    let mut i: usize = 0;
    while i < n
        invariant
            n == active@.len(),
            i <= n,
            first is None <==> last is None,
            first is None ==> forall|j: int| 0 <= j < i ==> !active@[j],
            first matches Some(a) ==> a < i && active@[a as int] && forall|j: int| 0 <= j < a ==> !active@[j],
            last matches Some(b) ==> b < i && active@[b as int] && forall|j: int| b < j < i ==> !active@[j],
        decreases n - i,
    {
        if active[i] {
            if first.is_none() {
                first = Some(i);
            }
            last = Some(i);
        }
        i = i + 1;
    }
    match (first, last) {
        (Some(a), Some(b)) => {
            proof {
                lemma_active_ends_unique(active@, a as int, b as int);
            }
            let start = starts[a];
            let sb = starts[b];
            let end = if frame_len < len - sb { sb + frame_len } else { len };
            (start, end)
        },
        _ => (0, len),
    }
}

/// The frames picked as onsets, scanning frames `i` up to the second-to-last:
/// a peaked frame is picked when it lies more than `wait` frames after the last
/// frame picked (`last`, initially frame 0).
pub open spec fn onset_frames(peaks: Seq<bool>, wait: int, i: int, last: int) -> Seq<int>
    decreases peaks.len() - i,
{
    if i >= peaks.len() - 1 {
        Seq::empty()
    } else if peaks[i] && i > last + wait {
        seq![i] + onset_frames(peaks, wait, i + 1, i)
    } else {
        onset_frames(peaks, wait, i + 1, last)
    }
}

/// Onset sample positions: each picked frame times the hop length.
pub open spec fn onset_positions(peaks: Seq<bool>, wait: int, hop: int) -> Seq<int> {
    onset_frames(peaks, wait, 1, 0).map_values(|f: int| f * hop)
}

/// Picks onsets from per-frame peak flags: frame `i` (for `1 <= i < len - 1`)
/// is an onset when it is a peak and lies more than `wait_frames` frames after
/// the previous onset. Returns sample positions (`frame * hop_length`).
pub fn pick_onsets(is_peak: &Vec<bool>, wait_frames: usize, hop_length: usize) -> (r: Vec<usize>)
    requires
        is_peak@.len() >= 1,
        (is_peak@.len() - 2) * hop_length <= usize::MAX,
    ensures
        r@.len() == onset_positions(is_peak@, wait_frames as int, hop_length as int).len(),
        forall|k: int| 0 <= k < r@.len() ==> #[trigger] r@[k] as int == onset_positions(is_peak@, wait_frames as int, hop_length as int)[k],
{
    let n = is_peak.len();
    let ghost target = onset_frames(is_peak@, wait_frames as int, 1, 0);
    let mut out: Vec<usize> = Vec::new();
    let ghost mut frames: Seq<int> = Seq::empty();
    let mut last_onset: usize = 0;
    let mut i: usize = 1;
    while i < n - 1
        invariant
            n == is_peak@.len(),
            n >= 1,
            1 <= i,
            (n - 2) * hop_length <= usize::MAX,
            last_onset < i,
            target == onset_frames(is_peak@, wait_frames as int, 1, 0),
            frames + onset_frames(is_peak@, wait_frames as int, i as int, last_onset as int) == target,
            out@.len() == frames.len(),
            forall|k: int| 0 <= k < out@.len() ==> #[trigger] out@[k] as int == frames[k] * hop_length,
        decreases n - i,
    {
        if is_peak[i] && i - last_onset > wait_frames {
            assert(i * hop_length <= (n - 2) * hop_length) by (nonlinear_arith)
                requires
                    i <= n - 2,
            ;
            out.push(i * hop_length);
            proof {
                frames = frames.push(i as int);
                assert(seq![i as int] + onset_frames(is_peak@, wait_frames as int, i + 1, i as int)
                    == onset_frames(is_peak@, wait_frames as int, i as int, last_onset as int));
            }
            last_onset = i;
        }
        i = i + 1;
    }
    proof {
        assert(onset_frames(is_peak@, wait_frames as int, i as int, last_onset as int) =~= Seq::<int>::empty());
        assert(frames =~= target);
    }
    out
}

/// Picked onset frames are strictly increasing, more than `wait` frames apart,
/// and lie strictly between the first and the last frame.
pub proof fn law_onsets_spaced(peaks: Seq<bool>, wait: int)
    requires
        wait >= 0,
    ensures
        forall|k: int| 0 <= k < onset_frames(peaks, wait, 1, 0).len() ==> 1 <= #[trigger] onset_frames(peaks, wait, 1, 0)[k] < peaks.len() - 1,
        forall|k: int| 0 <= k < onset_frames(peaks, wait, 1, 0).len() - 1 ==>
            #[trigger] onset_frames(peaks, wait, 1, 0)[k] + wait < onset_frames(peaks, wait, 1, 0)[k + 1],
{
    lemma_onset_frames(peaks, wait, 1, 0);
}

proof fn lemma_onset_frames(peaks: Seq<bool>, wait: int, i: int, last: int)
    requires
        wait >= 0,
    ensures
        forall|k: int| 0 <= k < onset_frames(peaks, wait, i, last).len() ==> i <= #[trigger] onset_frames(peaks, wait, i, last)[k] < peaks.len() - 1,
        forall|k: int| 0 <= k < onset_frames(peaks, wait, i, last).len() ==> #[trigger] onset_frames(peaks, wait, i, last)[k] > last + wait,
        forall|k: int| 0 <= k < onset_frames(peaks, wait, i, last).len() - 1 ==>
            #[trigger] onset_frames(peaks, wait, i, last)[k] + wait < onset_frames(peaks, wait, i, last)[k + 1],
    decreases peaks.len() - i,
{
    if i < peaks.len() - 1 {
        if peaks[i] && i > last + wait {
            lemma_onset_frames(peaks, wait, i + 1, i);
            let tail = onset_frames(peaks, wait, i + 1, i);
            let all = seq![i] + tail;
            assert(onset_frames(peaks, wait, i, last) == all);
            assert forall|k: int| 0 <= k < all.len() implies i <= #[trigger] all[k] < peaks.len() - 1 && all[k] > last + wait by {
                if k > 0 {
                    assert(all[k] == tail[k - 1]);
                }
            }
            assert forall|k: int| 0 <= k < all.len() - 1 implies #[trigger] all[k] + wait < all[k + 1] by {
                assert(all[k + 1] == tail[k]);
                if k > 0 {
                    assert(all[k] == tail[k - 1]);
                }
            }
        } else {
            lemma_onset_frames(peaks, wait, i + 1, last);
            assert(onset_frames(peaks, wait, i, last) == onset_frames(peaks, wait, i + 1, last));
        }
    }
}

/// `digits` preceded by zeros up to `width` characters.
pub open spec fn zero_padded(digits: Seq<char>, width: int) -> Seq<char> {
    if digits.len() < width {
        Seq::new((width - digits.len()) as nat, |i: int| '0') + digits
    } else {
        digits
    }
}

/// The file name of the segment numbered `index` of a file with stem `stem`:
/// the stem, an underscore, the number in decimal padded with zeros to three
/// digits, and the extension (given with its dot).
pub fn segment_file_name(stem: &str, index: usize, ext: &str) -> (r: String)
    ensures
        r@ == stem@ + "_"@ + zero_padded(decimal_digits(index as nat), 3) + ext@,
{
    let digits = decimal_text(index as u64);
    let n = digits.as_str().unicode_len();
    let mut out = String::from_str(stem);
    out.append("_");
    let ghost head = stem@ + "_"@;
    let mut k: usize = n;
    assert(Seq::new((k - n) as nat, |i: int| '0') =~= Seq::<char>::empty());
    assert(out@ =~= head + Seq::new((k - n) as nat, |i: int| '0'));
    while k < 3
        invariant
            n <= k,
            k <= 3 || k == n,
            out@ == head + Seq::new((k - n) as nat, |i: int| '0'),
        decreases 3 - k,
    {
        let ghost before = out@;
        out.append("0");
        proof {
            reveal_strlit("0");
        }
        assert(out@ =~= before.push('0'));
        assert(Seq::new((k + 1 - n) as nat, |i: int| '0') =~= Seq::new((k - n) as nat, |i: int| '0').push('0'));
        assert(out@ =~= head + Seq::new((k + 1 - n) as nat, |i: int| '0'));
        k = k + 1;
    }
    out.append(digits.as_str());
    out.append(ext);
    proof {
        let d = decimal_digits(index as nat);
        if d.len() < 3 {
            assert(k == 3);
            assert(Seq::new((3 - d.len()) as nat, |i: int| '0') == Seq::new((k - n) as nat, |i: int| '0'));
        } else {
            assert(Seq::new((k - n) as nat, |i: int| '0') =~= Seq::<char>::empty());
        }
        assert(out@ =~= stem@ + "_"@ + zero_padded(d, 3) + ext@);
    }
    out
}

/// The end of the last segment taken from `onsets`, starting from `last_end`.
spec fn onset_end(onsets: Seq<usize>, n: int, len: int, last_end: int) -> int
    decreases onsets.len(),
{
    if onsets.len() == 0 {
        last_end
    } else {
        let s = onsets[0] as int;
        let rest = onsets.drop_first();
        if s < last_end + n / 2 {
            onset_end(rest, n, len, last_end)
        } else if s + n <= len {
            onset_end(rest, n, len, s + n)
        } else {
            onset_end(rest, n, len, last_end)
        }
    }
}

proof fn lemma_onset_end(onsets: Seq<usize>, n: int, len: int, last_end: int)
    ensures
        onset_end(onsets, n, len, last_end) == if onset_segments(onsets, n, len, last_end).len() > 0 {
            onset_segments(onsets, n, len, last_end).last().1
        } else {
            last_end
        },
    decreases onsets.len(),
{
    if onsets.len() > 0 {
        let s = onsets[0] as int;
        let rest = onsets.drop_first();
        if s < last_end + n / 2 {
            lemma_onset_end(rest, n, len, last_end);
        } else if s + n <= len {
            lemma_onset_end(rest, n, len, s + n);
            let tail = onset_segments(rest, n, len, s + n);
            let all = seq![(s, s + n)] + tail;
            if tail.len() > 0 {
                assert(all.last() == tail.last());
            } else {
                assert(all.last() == (s, s + n));
            }
        } else {
            lemma_onset_end(rest, n, len, last_end);
        }
    }
}

proof fn lemma_onset_push(onsets: Seq<usize>, n: int, len: int, last_end: int, x: usize)
    ensures
        onset_segments(onsets.push(x), n, len, last_end) == onset_segments(onsets, n, len, last_end)
            + onset_segments(seq![x], n, len, onset_end(onsets, n, len, last_end)),
    decreases onsets.len(),
{
    let e = onset_end(onsets, n, len, last_end);
    if onsets.len() == 0 {
        assert(onsets.push(x) =~= seq![x]);
        assert(Seq::<(int, int)>::empty() + onset_segments(seq![x], n, len, e) =~= onset_segments(seq![x], n, len, e));
    } else {
        let s = onsets[0] as int;
        let rest = onsets.drop_first();
        assert(onsets.push(x)[0] == onsets[0]);
        assert(onsets.push(x).drop_first() =~= rest.push(x));
        if s < last_end + n / 2 {
            lemma_onset_push(rest, n, len, last_end, x);
        } else if s + n <= len {
            lemma_onset_push(rest, n, len, s + n, x);
            let t = onset_segments(rest, n, len, s + n);
            let u = onset_segments(seq![x], n, len, e);
            assert(seq![(s, s + n)] + (t + u) =~= (seq![(s, s + n)] + t) + u);
        } else {
            lemma_onset_push(rest, n, len, last_end, x);
        }
    }
}

/// An onset added after the others is cut exactly when it lies at least half a
/// segment after the end of the last segment cut so far (any onset does when
/// none was cut) and its segment fits in the signal: the segments are then
/// those of the other onsets followed by `(s, s + n)`; otherwise they are those
/// of the other onsets. No onsets give no segments.
pub proof fn law_appended_onset(onsets: Seq<usize>, n: int, len: int, s: usize)
    requires
        n >= 0,
    ensures
        ({
            let segs = onset_segments(onsets, n, len, -n);
            let far_enough = segs.len() == 0 || s >= segs.last().1 + n / 2;
            &&& onsets.len() == 0 ==> segs.len() == 0
            &&& far_enough && s + n <= len ==> onset_segments(onsets.push(s), n, len, -n) == segs.push((s as int, s + n))
            &&& far_enough && s + n <= len ==> planned_segments(onsets.push(s), n, len) == segs.push((s as int, s + n))
            &&& !(far_enough && s + n <= len) ==> onset_segments(onsets.push(s), n, len, -n) == segs
        }),
{
    let segs = onset_segments(onsets, n, len, -n);
    lemma_onset_push(onsets, n, len, -n, s);
    lemma_onset_end(onsets, n, len, -n);
    let e = onset_end(onsets, n, len, -n);
    let one = onset_segments(seq![s], n, len, e);
    assert(seq![s].drop_first() =~= Seq::<usize>::empty());
    assert(seq![s][0] == s);
    assert(onset_segments(Seq::<usize>::empty(), n, len, e) =~= Seq::<(int, int)>::empty());
    assert(onset_segments(Seq::<usize>::empty(), n, len, s + n) =~= Seq::<(int, int)>::empty());
    assert(e == if segs.len() > 0 { segs.last().1 } else { -n });
    if segs.len() == 0 {
        assert(-n + n / 2 <= 0);
    }
    if (segs.len() == 0 || s >= segs.last().1 + n / 2) && s + n <= len {
        assert(one =~= seq![(s as int, s + n)]);
        assert(segs + one =~= segs.push((s as int, s + n)));
    } else {
        assert(one =~= Seq::<(int, int)>::empty());
        assert(segs + one =~= segs);
    }
}

/// The kept range runs from the start of the first active frame to the end of
/// the last active frame (cut at the signal's end); with no active frame it is
/// the whole signal. So, for frame starts in increasing order inside the
/// signal and frames of positive length, every active frame starts inside the
/// kept range.
pub proof fn law_trimmed_range_spans_active_frames(starts: Seq<usize>, active: Seq<bool>, frame_len: int, len: int)
    requires
        starts.len() == active.len(),
    ensures
        (forall|i: int| 0 <= i < active.len() ==> !active[i]) ==> trimmed_range(starts, active, frame_len, len) == (0int, len),
        forall|a: int|
            #![trigger active[a]]
            0 <= a < active.len() && active[a] && (forall|j: int| 0 <= j < a ==> !active[j])
                ==> trimmed_range(starts, active, frame_len, len).0 == starts[a],
        forall|b: int|
            #![trigger active[b]]
            0 <= b < active.len() && active[b] && (forall|j: int| b < j < active.len() ==> !active[j])
                ==> trimmed_range(starts, active, frame_len, len).1 == (if starts[b] + frame_len < len {
                    starts[b] + frame_len
                } else {
                    len
                }),
        frame_len > 0 && (forall|i: int| 0 <= i < starts.len() ==> #[trigger] starts[i] < len)
            && (forall|i: int, j: int| 0 <= i <= j < starts.len() ==> starts[i] <= starts[j])
            ==> forall|i: int| 0 <= i < active.len() && #[trigger] active[i] ==>
                trimmed_range(starts, active, frame_len, len).0 <= starts[i] < trimmed_range(starts, active, frame_len, len).1,
{
    if any_active(active) {
        lemma_active_ends(active);
        let fa = first_active(active);
        let lb = last_active(active);
        assert forall|a: int|
            #![trigger active[a]]
            0 <= a < active.len() && active[a] && (forall|j: int| 0 <= j < a ==> !active[j]) implies trimmed_range(starts, active, frame_len, len).0 == starts[a] by {
            lemma_active_ends_unique(active, a, lb);
        }
        assert forall|b: int|
            #![trigger active[b]]
            0 <= b < active.len() && active[b] && (forall|j: int| b < j < active.len() ==> !active[j]) implies trimmed_range(starts, active, frame_len, len).1 == (if starts[b] + frame_len < len {
                starts[b] + frame_len
            } else {
                len
            }) by {
            lemma_active_ends_unique(active, fa, b);
        }
        if frame_len > 0 && (forall|i: int| 0 <= i < starts.len() ==> #[trigger] starts[i] < len)
            && (forall|i: int, j: int| 0 <= i <= j < starts.len() ==> starts[i] <= starts[j]) {
            assert forall|i: int| 0 <= i < active.len() && #[trigger] active[i] implies trimmed_range(starts, active, frame_len, len).0 <= starts[i] < trimmed_range(starts, active, frame_len, len).1 by {
                if i < fa {
                    assert(!active[i]);
                }
                if i > lb {
                    assert(!active[i]);
                }
                assert(starts[fa] <= starts[i]);
                assert(starts[i] <= starts[lb]);
                assert(starts[lb] < len);
            }
        }
    } else {
        assert(forall|i: int| 0 <= i < active.len() ==> !active[i]);
    }
}

} // verus!
