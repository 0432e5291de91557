use audiotools::config::{
    contains_text, is_audio_extension_text, is_input_format, is_supported_extension_text, trim,
    checked_output_extension, output_refusal, output_supported, wav_output_refusal,
    is_audio_file, is_supported_audio, output_extension, output_file_name, parse_extension_list, resolve_bit_depth,
    resolve_output_format, resolve_overwrite, resolve_recursive, waveform_dimensions, ConvertConfig, ConvertError,
    GlobalConfig, WaveformConfig,
};

#[test]
fn audio_extensions_in_any_case() {
    assert!(is_audio_file("wav"));
    assert!(is_audio_file("FLAC"));
    assert!(is_audio_file("Opus"));
    assert!(!is_audio_file("txt"));
    assert!(!is_audio_file(""));
}

#[test]
fn supported_audio_uses_the_list_or_the_defaults() {
    assert!(is_supported_audio(Some("WAV"), &None));
    assert!(!is_supported_audio(Some("aac"), &None));
    assert!(!is_supported_audio(None, &None));
    let list = Some(vec!["aac".to_string(), "wav".to_string()]);
    assert!(is_supported_audio(Some("AAC"), &list));
    assert!(!is_supported_audio(Some("mp3"), &list));
}

#[test]
fn extension_lists_are_normalized() {
    assert_eq!(parse_extension_list(" .WAV, mp3 ,..Flac"), vec!["wav", "mp3", "flac"]);
    assert_eq!(parse_extension_list(""), vec![""]);
    assert_eq!(parse_extension_list("a,"), vec!["a", ""]);
}

#[test]
fn flags_come_from_the_command_line_or_the_config() {
    let g = Some(GlobalConfig { overwrite: Some(true), recursive: None });
    assert!(resolve_overwrite(false, &g));
    assert!(!resolve_recursive(false, &g));
    assert!(resolve_recursive(true, &None));
    assert!(!resolve_overwrite(false, &None));
    let off = Some(GlobalConfig { overwrite: Some(false), recursive: Some(false) });
    assert!(resolve_overwrite(true, &off));
}

#[test]
fn output_format_and_bit_depth() {
    let c = Some(ConvertConfig { format: Some("flac".to_string()), subtype: Some("PCM_24".to_string()) });
    assert_eq!(resolve_output_format(None, &c), "flac");
    assert_eq!(resolve_output_format(Some("mp3".to_string()), &c), "mp3");
    assert_eq!(resolve_output_format(None, &None), "wav");
    assert_eq!(resolve_bit_depth(16, &c), 24);
    assert_eq!(resolve_bit_depth(8, &c), 8);
    assert_eq!(resolve_bit_depth(16, &None), 16);
    let c16 = Some(ConvertConfig { format: None, subtype: Some("PCM_16".to_string()) });
    assert_eq!(resolve_bit_depth(16, &c16), 16);
}

#[test]
fn output_extension_accepts_wav_at_16_or_24_bits() {
    assert_eq!(output_extension("WAV", 24), "wav");
    assert_eq!(output_extension("wav", 16), "wav");
    assert!(output_supported("WAV", 24));
    assert!(!output_supported("wav", 8));
    assert!(!output_supported("mp3", 16));
    assert_eq!(output_refusal("wav", 8), Some(ConvertError::UnsupportedBitDepth { bit_depth: 8 }));
    assert_eq!(output_refusal("MP3", 16), Some(ConvertError::UnsupportedFormat { format: "mp3".to_string() }));
    assert_eq!(output_refusal("MP3", 32), Some(ConvertError::UnsupportedFormat { format: "mp3".to_string() }));
    assert_eq!(output_refusal("Wav", 24), None);
    assert_eq!(checked_output_extension("WAV", 24), Ok("wav".to_string()));
    assert_eq!(checked_output_extension("wav", 32), Err(ConvertError::UnsupportedBitDepth { bit_depth: 32 }));
    assert_eq!(checked_output_extension("Mp3", 24), Err(ConvertError::UnsupportedFormat { format: "mp3".to_string() }));
}

#[test]
fn output_file_names() {
    assert_eq!(output_file_name(Some("pre_"), "song", Some("_post"), "wav"), "pre_song_post.wav");
    assert_eq!(output_file_name(None, "song", None, "wav"), "song.wav");
}

#[test]
fn waveform_size_defaults() {
    assert_eq!(waveform_dimensions(&None), (1200, 600));
    let c = Some(WaveformConfig { width: Some(800), height: None });
    assert_eq!(waveform_dimensions(&c), (800, 600));
}

#[test]
fn extension_lists_trim_unicode_whitespace() {
    assert_eq!(parse_extension_list("\u{3000}.Ogg\t,\u{a0}mp3\u{2009}"), vec!["ogg", "mp3"]);
    for piece in [" a ", "\u{85}b\u{2028}", "\u{200b}c"] {
        assert_eq!(parse_extension_list(piece), vec![piece.trim().trim_start_matches('.').to_lowercase()]);
    }
}

#[test]
fn decisions_on_lowercase_text() {
    assert_eq!(wav_output_refusal("wav", 24), None);
    assert_eq!(wav_output_refusal("wav", 32), Some(ConvertError::UnsupportedBitDepth { bit_depth: 32 }));
    assert_eq!(wav_output_refusal("WAV", 16), Some(ConvertError::UnsupportedFormat { format: "WAV".to_string() }));
    assert_eq!(output_refusal("WAV", 32), Some(ConvertError::UnsupportedBitDepth { bit_depth: 32 }));
    assert!(is_audio_extension_text("opus"));
    assert!(!is_audio_extension_text("OPUS"));
    assert!(is_supported_extension_text("m4a", &None));
    assert!(!is_supported_extension_text("aac", &None));
    let list = Some(vec!["aac".to_string()]);
    assert!(is_supported_extension_text("aac", &list));
    assert!(contains_text(&vec!["a".to_string(), "b".to_string()], "b"));
    assert!(!contains_text(&vec![], "b"));
    let formats = vec!["WAV".to_string(), "Flac".to_string()];
    assert!(is_input_format("flac", &formats));
    assert!(is_input_format("wav", &formats));
    assert!(!is_input_format("mp3", &formats));
    for s in ["  a b  ", "\u{3000}x\u{85}", "", "   ", "\u{200b}y"] {
        assert_eq!(trim(s), s.trim());
    }
}
