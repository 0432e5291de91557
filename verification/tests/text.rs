use audiotools::arguments::{annotation_parts, time_form, TimeForm};
use audiotools::features::count_sign_changes;
use audiotools::info::AudioFileInfo;
use audiotools::text::{decimal_text, parse_u32, replace_text, split_text};

#[test]
fn split_text_like_str_split() {
    assert_eq!(split_text("a:b:c", ':'), vec!["a", "b", "c"]);
    assert_eq!(split_text("", ':'), vec![""]);
    assert_eq!(split_text(":", ':'), vec!["", ""]);
}

#[test]
fn parse_u32_like_str_parse() {
    assert_eq!(parse_u32("0"), Some(0));
    assert_eq!(parse_u32("+42"), Some(42));
    assert_eq!(parse_u32("007"), Some(7));
    assert_eq!(parse_u32("4294967295"), Some(u32::MAX));
    assert_eq!(parse_u32("4294967296"), None);
    assert_eq!(parse_u32("99999999999999999999999"), None);
    assert_eq!(parse_u32(""), None);
    assert_eq!(parse_u32("+"), None);
    assert_eq!(parse_u32("-1"), None);
    assert_eq!(parse_u32("1a"), None);
    assert_eq!(parse_u32(" 1"), None);
    for s in ["12", "+3", "x", "", "65536", "4294967296", "++1"] {
        assert_eq!(parse_u32(s), s.parse::<u32>().ok());
    }
}

#[test]
fn decimal_text_like_to_string() {
    for n in [0u64, 7, 10, 99, 100, 44100, u64::MAX] {
        assert_eq!(decimal_text(n), n.to_string());
    }
    assert_eq!(parse_u32(&decimal_text(123456)), Some(123456));
}

#[test]
fn replace_text_like_str_replace() {
    assert_eq!(replace_text("aaa", "aa", "b"), "ba");
    assert_eq!(replace_text("{x}-{x}", "{x}", "1"), "1-1");
    assert_eq!(replace_text("abc", "abcd", "z"), "abc");
    assert_eq!(replace_text("ab", "", "-"), "-a-b-");
    for (s, p, r) in [("hello world", "o", "0"), ("xxxx", "xx", "y"), ("", "a", "b"), ("", "", "z"), ("héllo", "", "|")] {
        assert_eq!(replace_text(s, p, r), s.replace(p, r));
    }
}

#[test]
fn time_forms() {
    assert_eq!(time_form("50%"), Ok(TimeForm::Percentage { number: "50".to_string() }));
    assert_eq!(time_form("12.5%%"), Ok(TimeForm::Percentage { number: "12.5".to_string() }));
    assert_eq!(time_form("1:30"), Ok(TimeForm::MinutesSeconds { minutes: 1, seconds: 30 }));
    assert_eq!(time_form("2.5"), Ok(TimeForm::Seconds { number: "2.5".to_string() }));
}

#[test]
fn time_form_errors() {
    assert_eq!(time_form("1:2:3"), Err("Invalid time format. Use MM:SS".to_string()));
    assert_eq!(time_form("x:10"), Err("Invalid minutes".to_string()));
    assert_eq!(time_form("1:"), Err("Invalid seconds".to_string()));
    assert_eq!(time_form("1:60"), Err("Seconds must be less than 60".to_string()));
}

#[test]
fn mod_test_parse_frequency_annotation() {
    let result = annotation_parts("440:A4");
    assert!(result.is_some());
    let (freq, label) = result.unwrap();
    assert_eq!(freq.parse::<f32>().unwrap(), 440.0);
    assert_eq!(label, "A4");
    let result = annotation_parts("invalid");
    assert!(result.is_none());
}

#[test]
fn frequency_test_parse_frequency_annotation() {
    let (freq, label) = annotation_parts("440:A4").unwrap();
    assert_eq!(freq, "440");
    assert_eq!(label, "A4");
    assert!(annotation_parts("invalid").is_none());
    assert!(annotation_parts("1:2:3").is_none());
}

#[test]
fn zero_crossings_count_sign_changes() {
    let samples = [0.5f32, -0.5, -0.1, 0.0, 0.2, -0.3];
    let flags: Vec<bool> = samples.iter().map(|&x| x >= 0.0).collect();
    assert_eq!(count_sign_changes(&flags), 3);
    assert_eq!(count_sign_changes(&vec![]), 0);
    assert_eq!(count_sign_changes(&vec![true]), 0);
}

fn sample_info() -> AudioFileInfo {
    AudioFileInfo {
        file: "a.wav".to_string(),
        format: "Audio".to_string(),
        file_size: "1.50 MB".to_string(),
        file_size_kb: "1536.00".to_string(),
        sample_rate: Some(44100),
        bits_per_sample: Some(16),
        channels: Some(2),
        duration: Some("1.000".to_string()),
        total_samples: Some(44100),
        time_precision: Some("0.00002268".to_string()),
        sample_accurate_duration: None,
    }
}

#[test]
fn report_line_fills_every_placeholder() {
    let info = sample_info();
    let line = info.format_output(
        "{file},{sample_rate},{bits_per_sample},{channels},{duration},{file_size_kb},{total_samples},{time_precision},{sample_accurate_duration}",
    );
    assert_eq!(line, "a.wav,44100,16,2,1.000,1536.00,44100,0.00002268,N/A");
    assert_eq!(info.format_output("{format} {file_size} {unknown}"), "Audio 1.50 MB {unknown}");
}

#[test]
fn minutes_and_seconds_read_back() {
    for (m, s) in [(0u32, 0u32), (1, 5), (12, 59), (4294967295, 30)] {
        let text = format!("{}:{}", decimal_text(m as u64), decimal_text(s as u64));
        assert_eq!(time_form(&text), Ok(TimeForm::MinutesSeconds { minutes: m, seconds: s }));
    }
}
