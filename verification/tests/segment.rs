use audiotools::framing::frame_starts;
use audiotools::segment::{chunk_segments, cut_segments, pick_onsets, select_segments, trim_bounds};

/// Whether the frame starting at `start` is within `top_db` of the loudest sample.
fn frame_is_loud(data: &[f32], start: usize, frame_len: usize, top_db: f32) -> bool {
    let max_val = data.iter().fold(0.0f32, |m, &x| m.max(x.abs()));
    let threshold = 20.0 * max_val.log10() - top_db;
    let chunk = &data[start..start + frame_len];
    let rms = (chunk.iter().map(|x| x * x).sum::<f32>() / chunk.len() as f32).sqrt();
    20.0 * rms.max(1e-9).log10() >= threshold
}

#[test]
fn test_trim_silence() {
    let mut data = vec![0.0f32; 10000];
    for i in 3000..7000 {
        data[i] = 0.5;
    }
    let starts = frame_starts(data.len(), 2048, 512);
    let active: Vec<bool> = starts.iter().map(|&s| frame_is_loud(&data, s, 2048, 20.0)).collect();
    let (start, end) = trim_bounds(&starts, &active, 2048, data.len());
    assert!(start <= 3000, "Start {} should be <= 3000", start);
    assert!(end >= 7000, "End {} should be >= 7000", end);
    assert!(start > 0, "Start {} should be > 0 (silence at start)", start);
    assert_eq!((start, end), (1024, 8704));
}

#[test]
fn test_segment_logic_fallback() {
    let sr: usize = 100;
    let len: usize = 350;
    let data = vec![0.5f32; len];
    // No analysis frame fits in 350 samples, so nothing is trimmed and no onset is found.
    let starts = frame_starts(len, 2048, 512);
    assert!(starts.is_empty());
    let (start, end) = trim_bounds(&starts, &vec![], 2048, len);
    assert_eq!((start, end), (0, 350));
    let onsets = pick_onsets(&vec![false], 3, 512);
    assert!(onsets.is_empty());
    let ranges = select_segments(&onsets, sr, len);
    let segments = cut_segments(&data, &ranges);
    assert_eq!(segments.len(), 3);
    assert_eq!(segments[0].len(), 100);
    assert_eq!(ranges, vec![(0, 100), (100, 200), (200, 300)]);
}

#[test]
fn onsets_close_to_the_last_segment_are_skipped() {
    // Segments of 100: the onset at 120 lies less than 50 after the end at 100.
    let ranges = select_segments(&vec![0, 120, 160, 300, 320, 950], 100, 1000);
    assert_eq!(ranges, vec![(0, 100), (160, 260), (320, 420)]);
}

#[test]
fn onsets_whose_segment_overruns_fall_back_to_tiling() {
    // The only onset's segment would end past the signal.
    let ranges = select_segments(&vec![250], 100, 320);
    assert_eq!(ranges, vec![(0, 100), (100, 200), (200, 300)]);
}

#[test]
fn trim_bounds_clip_the_last_frame_to_the_signal() {
    let starts = vec![0, 4, 8];
    let active = vec![false, true, true];
    assert_eq!(trim_bounds(&starts, &active, 6, 12), (4, 12));
    let active = vec![true, false, false];
    assert_eq!(trim_bounds(&starts, &active, 6, 12), (0, 6));
    let active = vec![false, false, false];
    assert_eq!(trim_bounds(&starts, &active, 6, 12), (0, 12));
}

#[test]
fn onsets_respect_the_wait_and_skip_the_edges() {
    // Frames 0 and 7 (first and last) are never picked.
    let peaks = vec![true, true, true, false, true, true, true, true];
    assert_eq!(pick_onsets(&peaks, 2, 512), vec![4 * 512]);
    assert_eq!(pick_onsets(&peaks, 0, 10), vec![10, 20, 40, 50, 60]);
    assert_eq!(pick_onsets(&vec![true], 0, 10), Vec::<usize>::new());
}

#[test]
fn chunks_keep_a_short_final_segment() {
    let samples: Vec<i16> = (0..7).collect();
    let chunks = chunk_segments(&samples, 3, 16000);
    assert_eq!(chunks.len(), 3);
    assert_eq!(chunks[0], (vec![0, 1, 2], 16000));
    assert_eq!(chunks[2], (vec![6], 16000));
    assert!(chunk_segments(&Vec::<i16>::new(), 3, 8000).is_empty());
}

#[test]
fn cut_segments_copy_the_ranges() {
    let samples = vec![1, 2, 3, 4, 5];
    let cut = cut_segments(&samples, &vec![(1, 3), (0, 0), (4, 5)]);
    assert_eq!(cut, vec![vec![2, 3], vec![], vec![5]]);
}

#[test]
fn segment_file_names_pad_to_three_digits() {
    assert_eq!(audiotools::segment::segment_file_name("take", 0, ".wav"), "take_000.wav");
    assert_eq!(audiotools::segment::segment_file_name("take", 42, ".wav"), "take_042.wav");
    assert_eq!(audiotools::segment::segment_file_name("take", 1234, ".wav"), "take_1234.wav");
    for i in [0usize, 7, 99, 100, 5000] {
        assert_eq!(audiotools::segment::segment_file_name("s", i, ".wav"), format!("{}_{:03}{}", "s", i, ".wav"));
    }
}
