use audiotools::spectrum::{
    pattern_mask, FrequencyPreset, FrequencyPresetArg, FailingAudioLoader, MockSpectralAnalyzer, MockSpectrogramRenderer, SpectrumError, TestPattern,
};

#[test]
fn test_failing_audio_loader() {
    let loader = FailingAudioLoader::new("File not found");
    let result: Result<(), SpectrumError> = Err(loader.load_error());
    assert!(result.is_err());
    assert!(result.unwrap_err().message().contains("File not found"));
}

#[test]
fn test_mock_spectral_analyzer() {
    let analyzer = MockSpectralAnalyzer::new().with_dimensions(50, 256);
    assert_eq!(analyzer.time_bins(), 50);
    assert_eq!(analyzer.freq_bins(), 256);
    assert!(analyzer.generates_data());
}

#[test]
fn test_mock_spectral_analyzer_empty() {
    let analyzer = MockSpectralAnalyzer::new().with_dimensions(10, 10).with_empty_data();
    assert_eq!(analyzer.time_bins(), 10);
    assert_eq!(analyzer.freq_bins(), 10);
    assert!(!analyzer.generates_data());
}

#[test]
fn analyzer_defaults() {
    let analyzer = MockSpectralAnalyzer::new();
    assert_eq!((analyzer.time_bins(), analyzer.freq_bins()), (100, 512));
}

#[test]
fn test_mock_renderer_success() {
    let mut renderer = MockSpectrogramRenderer::new();
    let result = renderer.record_render();
    assert!(result.is_ok());
    assert_eq!(renderer.render_count(), 1);
}

#[test]
fn test_mock_renderer_failure() {
    let mut renderer = MockSpectrogramRenderer::new().with_failure("Render failed");
    let result = renderer.record_render();
    assert!(result.is_err());
    assert_eq!(result.unwrap_err().message(), "Render failed");
    assert_eq!(renderer.render_count(), 0);
}

#[test]
fn test_pattern_spectrograms() {
    let diagonal = pattern_mask(10, 10, TestPattern::Diagonal);
    assert_eq!(diagonal.len(), 10);
    assert_eq!(diagonal[0].len(), 10);
    for i in 0..10 {
        assert!(diagonal[i][i]);
    }
    let horizontal = pattern_mask(10, 10, TestPattern::Horizontal);
    for t in 0..10 {
        assert!(horizontal[t][5]);
    }
}

#[test]
fn other_patterns() {
    let vertical = pattern_mask(4, 3, TestPattern::Vertical);
    assert_eq!(vertical[2], vec![true, true, true]);
    assert_eq!(vertical[1], vec![false, false, false]);
    let checker = pattern_mask(2, 3, TestPattern::Checkerboard);
    assert_eq!(checker, vec![vec![true, false, true], vec![false, true, false]]);
    let wide = pattern_mask(2, 6, TestPattern::Diagonal);
    assert_eq!(wide, vec![vec![true, false, false, false, false, false], vec![false, false, false, true, false, false]]);
}

#[test]
fn preset_arguments_select_presets() {
    assert_eq!(FrequencyPreset::from(FrequencyPresetArg::Full), FrequencyPreset::Full);
    assert_eq!(FrequencyPreset::from(FrequencyPresetArg::AudioRange), FrequencyPreset::AudioRange);
    assert_eq!(FrequencyPreset::from(FrequencyPresetArg::SpeechRange), FrequencyPreset::SpeechRange);
    assert_eq!(FrequencyPreset::from(FrequencyPresetArg::MusicRange), FrequencyPreset::MusicRange);
    assert_eq!(FrequencyPreset::from(FrequencyPresetArg::Bass), FrequencyPreset::Bass);
}

#[test]
fn failing_renderer_keeps_failing_and_counting_nothing() {
    let mut renderer = MockSpectrogramRenderer::new();
    renderer.record_render().unwrap();
    let mut renderer = renderer.with_failure("boom");
    for _ in 0..3 {
        assert_eq!(renderer.record_render().unwrap_err().message(), "boom");
    }
    assert_eq!(renderer.render_count(), 1);
}
