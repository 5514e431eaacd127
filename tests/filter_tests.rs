use prio_pipeline::filter::{
    amplitude, calculate_average_amplitude, decide, moving_average, process_frame, smooth,
    Decision, FRAME_LEN, HALF_WINDOW, SOUND_THRESHOLD,
};

fn trunc_avg(xs: &[i16]) -> i16 {
    let sum: i64 = xs.iter().map(|&x| x as i64).sum();
    (sum / xs.len() as i64) as i16
}

#[test]
fn smoothing_constant_frame_is_unchanged() {
    for &v in &[0i16, 7, -3, 80, i16::MAX, i16::MIN] {
        let frame = vec![v; 40];
        for hw in [0usize, 1, 5, 16, 39, 100] {
            assert_eq!(smooth(&frame, hw), frame);
        }
    }
}

#[test]
fn smoothing_interior_and_edge_windows() {
    let frame: Vec<i16> = (0..FRAME_LEN).map(|i| ((i * 37) % 101) as i16 - 50).collect();
    let out = moving_average(&frame);
    assert_eq!(out.len(), FRAME_LEN);
    for i in 16..=239 {
        assert_eq!(out[i], trunc_avg(&frame[i - 16..=i + 16]));
    }
    assert_eq!(out[0], trunc_avg(&frame[0..=16]));
    assert_eq!(out[255], trunc_avg(&frame[239..=255]));
    assert_eq!(out[3], trunc_avg(&frame[0..=19]));
}

#[test]
fn smoothing_truncates_toward_zero() {
    // (-1 + 0 + 0) / 3 truncates to 0, not -1
    assert_eq!(smooth(&[-1, 0, 0, 0], 1), vec![0, 0, 0, 0]);
    assert_eq!(smooth(&[-5, 0, 0], 1), vec![-2, -1, 0]);
    assert_eq!(smooth(&[5, 0, 0], 1), vec![2, 1, 0]);
    assert_eq!(smooth(&[], 3), Vec::<i16>::new());
}

#[test]
fn smoothing_extremes_do_not_overflow() {
    let frame: Vec<i16> = (0..FRAME_LEN).map(|i| if i % 2 == 0 { i16::MAX } else { i16::MIN }).collect();
    let out = moving_average(&frame);
    assert_eq!(out[16], trunc_avg(&frame[0..=32]));
    assert_eq!(out[16], (17 * 32767i64 - 16 * 32768i64) as i16 / 33);
}

#[test]
fn amplitude_is_mean_absolute_value() {
    assert_eq!(amplitude(&[3, -5, 0, 4]), 3);
    assert_eq!(amplitude(&[i16::MIN]), 32768);
    assert_eq!(amplitude(&[0; 10]), 0);
    let frame: Vec<i16> = (0..FRAME_LEN).map(|i| if i % 2 == 0 { 100 } else { -60 }).collect();
    assert_eq!(calculate_average_amplitude(&frame), 80);
}

#[test]
fn amplitude_zero_only_for_silence_or_tiny_sums() {
    let mut frame = vec![0i16; FRAME_LEN];
    assert_eq!(calculate_average_amplitude(&frame), 0);
    frame[5] = -256;
    assert_eq!(calculate_average_amplitude(&frame), 1);
    // below one unit per sample the truncated mean is zero as well
    let mut tiny = vec![0i16; FRAME_LEN];
    tiny[0] = 1;
    assert_eq!(calculate_average_amplitude(&tiny), 0);
}

#[test]
fn threshold_decision_examples() {
    let loud = vec![80i16; FRAME_LEN];
    let smoothed = moving_average(&loud);
    assert_eq!(decide(&smoothed, 50), Decision { amplitude: 80, active: true });
    let quiet = vec![-30i16; FRAME_LEN];
    let smoothed = moving_average(&quiet);
    assert_eq!(decide(&smoothed, 50), Decision { amplitude: 30, active: false });
    assert_eq!(decide(&[50, -50], 50), Decision { amplitude: 50, active: false });
    assert_eq!(decide(&[51, -51], 50), Decision { amplitude: 51, active: true });
}

#[test]
fn process_frame_runs_whole_pipeline() {
    assert_eq!(SOUND_THRESHOLD, 50);
    assert_eq!(HALF_WINDOW, 16);
    let loud = vec![80i16; FRAME_LEN];
    assert_eq!(process_frame(&loud), Decision { amplitude: 80, active: true });
    // alternating +-100 is smoothed to almost nothing
    let buzz: Vec<i16> = (0..FRAME_LEN).map(|i| if i % 2 == 0 { 100 } else { -100 }).collect();
    let d = process_frame(&buzz);
    assert!(!d.active);
    let sm = moving_average(&buzz);
    assert_eq!(d.amplitude, amplitude(&sm));
}
