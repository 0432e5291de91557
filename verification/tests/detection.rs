use audiotools::detection::detect_start_sample;
use audiotools::features::{column_position, feature_columns};

fn signs(samples: &[f32]) -> Vec<bool> {
    samples.iter().map(|&x| x >= 0.0).collect()
}

#[test]
fn start_is_the_first_zero_crossing_after_the_trigger() {
    // Trigger at window 2; decision at window 2 + 3 = 5; crossing between samples 3 and 4.
    let s = signs(&[0.1, 0.1, 0.1, 0.1, -0.1, -0.1, 0.1, 0.1, 0.1, 0.1]);
    assert_eq!(detect_start_sample(Some(2), 8, &s, 3), Some(3));
}

#[test]
fn start_is_the_trigger_without_a_crossing() {
    let s = signs(&[0.1; 10]);
    assert_eq!(detect_start_sample(Some(2), 8, &s, 3), Some(2));
    // A minimum of zero or one sample decides at the next window.
    assert_eq!(detect_start_sample(Some(2), 8, &s, 0), Some(2));
}

#[test]
fn no_start_without_trigger_or_room_to_decide() {
    let s = signs(&[0.1; 10]);
    assert_eq!(detect_start_sample(None, 8, &s, 3), None);
    assert_eq!(detect_start_sample(Some(5), 8, &s, 3), None);
    assert_eq!(detect_start_sample(Some(7), 8, &s, 0), None);
    assert_eq!(detect_start_sample(Some(9), 8, &s, 0), None);
}

#[test]
fn feature_table_columns() {
    let headers: Vec<String> = ["file_name", "path", "rms", "segment_id", "zcr"].iter().map(|s| s.to_string()).collect();
    assert_eq!(feature_columns(&headers), vec![2, 4]);
    assert_eq!(column_position(&headers, "file_name"), Some(0));
    assert_eq!(column_position(&headers, "zcr"), Some(4));
    assert_eq!(column_position(&headers, "mfcc"), None);
}

fn first_loud_window(samples: &[f32], window: usize, threshold: f32) -> Option<usize> {
    let count = samples.len().saturating_sub(window);
    (0..count).find(|&i| {
        let w = &samples[i..i + window];
        (w.iter().map(|x| x * x).sum::<f32>() / w.len() as f32).sqrt() > threshold
    })
}

#[test]
fn test_process_time_range_with_auto_detect() {
    let mut samples = vec![0.0f32; 4410];
    samples.extend(vec![0.5f32; 39690]);
    let sample_rate = 44100.0f32;
    let window = 441;
    let min_samples = (0.02f32 * sample_rate) as usize;
    let count = samples.len() - window;
    let first = first_loud_window(&samples, window, 0.01);
    let nonnegative = signs(&samples);
    let start = detect_start_sample(first, count, &nonnegative, min_samples).unwrap();
    let start_time = start as f32 / sample_rate;
    assert!(start_time >= 0.09 && start_time <= 0.11);
    assert_eq!(start, 3970);
}

#[test]
fn test_zcr() {
    let data = [1.0f32, -1.0, 1.0, -1.0];
    let zcr = audiotools::features::count_sign_changes(&signs(&data)) as f32 / data.len() as f32;
    assert!((zcr - 0.75).abs() < 1e-6);
    let low_freq = [1.0f32, 1.0, -1.0, -1.0];
    let zcr = audiotools::features::count_sign_changes(&signs(&low_freq)) as f32 / low_freq.len() as f32;
    assert!((zcr - 0.25).abs() < 1e-6);
}
