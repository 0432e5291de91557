use audiotools::channels::{channel_mode, duplicate_samples, output_channels, stereo_pairs, ChannelMode};

#[test]
fn channel_modes() {
    assert_eq!(channel_mode(1, 2), ChannelMode::MonoToStereo);
    assert_eq!(channel_mode(2, 1), ChannelMode::StereoToMono);
    assert_eq!(channel_mode(2, 2), ChannelMode::Keep);
    assert_eq!(channel_mode(6, 1), ChannelMode::Keep);
}

#[test]
fn requested_channels_or_input_count_through_a_byte() {
    assert_eq!(output_channels(Some(1), 2), 1);
    assert_eq!(output_channels(None, 2), 2);
    assert_eq!(output_channels(None, 258), 2);
}

#[test]
fn mono_to_stereo_and_back() {
    let mono = vec![1i16, -2, 3];
    let stereo = duplicate_samples(&mono);
    assert_eq!(stereo, vec![1, 1, -2, -2, 3, 3]);
    let pairs = stereo_pairs(&stereo);
    assert_eq!(pairs, vec![(1, 1), (-2, -2), (3, 3)]);
}

#[test]
fn unpaired_trailing_sample_is_dropped() {
    assert_eq!(stereo_pairs(&vec![1, 2, 3]), vec![(1, 2)]);
    assert!(stereo_pairs(&Vec::<i32>::new()).is_empty());
}
