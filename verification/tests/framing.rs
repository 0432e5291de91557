use audiotools::framing::{frame_starts, freq_bins, plan_padded_frames, plan_signal_frames, time_frames};

#[test]
fn frequency_bins_are_half_the_window() {
    assert_eq!(freq_bins(2048), 1024);
    assert_eq!(freq_bins(1023), 511);
}

#[test]
fn time_frames_count_whole_windows() {
    assert_eq!(time_frames(1024, 256, 44100), 169);
    assert_eq!(time_frames(1024, 256, 1024), 1);
    assert_eq!(time_frames(1024, 256, 1000), 0);
}

#[test]
fn frame_starts_step_by_the_hop() {
    assert_eq!(frame_starts(10, 4, 3), vec![0, 3, 6]);
    assert_eq!(frame_starts(3, 4, 3), Vec::<usize>::new());
}

#[test]
fn signal_plan_adds_a_padded_tail_past_half_a_window() {
    // 10 samples, window 4, hop 4: windows at 0 and 4; 2 samples remain, not more than 2.
    let plan = plan_signal_frames(10, 4, 4).unwrap();
    assert_eq!(plan.starts, vec![0, 4]);
    assert_eq!(plan.tail, None);
    // 11 samples: 3 remain after position 8.
    let plan = plan_signal_frames(11, 4, 4).unwrap();
    assert_eq!(plan.starts, vec![0, 4]);
    assert_eq!(plan.tail, Some(8));
}

#[test]
fn signal_shorter_than_a_window_is_refused() {
    let err = plan_signal_frames(100, 1024, 256).err().unwrap();
    assert_eq!(err.message(), "Signal too short for window size");
}

#[test]
fn padded_plan_keeps_a_tail_past_a_quarter_window() {
    // 6 samples, window 8: no whole window; 6 > 2 so one padded window at 0.
    let plan = plan_padded_frames(6, 8, 2);
    assert!(plan.starts.is_empty());
    assert_eq!(plan.tail, Some(0));
    // 10 samples, window 8, hop 4: one window at 0; 6 remain after 4.
    let plan = plan_padded_frames(10, 8, 4);
    assert_eq!(plan.starts, vec![0]);
    assert_eq!(plan.tail, Some(4));
    let plan = plan_padded_frames(9, 8, 8);
    assert_eq!(plan.tail, None);
}

#[test]
fn window_layout_agrees_with_frame_count() {
    for (len, window, hop) in [(0usize, 4usize, 1usize), (10, 4, 3), (4096, 1024, 256), (1000, 2048, 512), (7, 1, 2)] {
        let starts = frame_starts(len, window, hop);
        assert_eq!(starts.len(), time_frames(window, hop, len));
        for s in starts {
            assert!(s + window <= len);
        }
    }
}

#[test]
fn short_signal_is_refused_whatever_the_hop() {
    let err = plan_signal_frames(3, 4, 0).err().unwrap();
    assert_eq!(err.message(), "Signal too short for window size");
}
