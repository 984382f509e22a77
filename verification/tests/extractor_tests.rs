use fftviz::fft::{assemble_fft, downmix_window, prepare_windows, step_amount, window_size, FFTError};
use fftviz::VAL_LIMIT;

#[test]
fn window_size_rounds_up_to_power_of_two() {
    // (256 / 107) * 90 = 180, next power of two is 256
    assert_eq!(window_size(90), 256);
    assert_eq!(window_size(10), 32);
    assert_eq!(window_size(300), 1024);
    assert_eq!(window_size(128), 256);
    assert_eq!(window_size(1), 2);
}

#[test]
fn step_amount_formula() {
    // 44100 * 1 / 10 - 256 = 4154
    assert_eq!(step_amount(44100, 1, 10, 256), 4154);
    // stereo doubles the interleaved rate
    assert_eq!(step_amount(44100, 2, 10, 256), 8564);
}

#[test]
fn step_amount_clamps_at_zero_when_windows_overlap() {
    assert_eq!(step_amount(1000, 1, 100, 256), 0);
}

#[test]
fn prepare_windows_slices_complete_windows() {
    let samples: Vec<i64> = (0..10).collect();
    let windows = prepare_windows(&samples, 3, 2);
    assert_eq!(windows.len(), 2);
    assert_eq!(windows[0], vec![0, 1, 2]);
    assert_eq!(windows[1], vec![5, 6, 7]);
}

#[test]
fn prepare_windows_discards_trailing_partial_window() {
    let samples: Vec<i64> = (0..7).collect();
    let windows = prepare_windows(&samples, 4, 0);
    assert_eq!(windows.len(), 1);
    assert_eq!(windows[0], vec![0, 1, 2, 3]);
}

#[test]
fn prepare_windows_empty_when_stream_too_short() {
    let samples: Vec<i64> = vec![1, 2];
    assert!(prepare_windows(&samples, 3, 0).is_empty());
}

#[test]
fn downmix_window_sums_channels_with_gain() {
    let frame: Vec<i64> = vec![1000, 2000, 3000, 4000];
    let mono = downmix_window(&frame, 2);
    // (1000 * 20 / 2) + (2000 * 20 / 2) = 30000; same for the second chunk
    assert_eq!(mono, vec![30000, 70000, 0, 0]);
}

#[test]
fn downmix_window_mono_applies_gain_only() {
    let frame: Vec<i64> = vec![-1000, 1000];
    assert_eq!(downmix_window(&frame, 1), vec![-20000, 20000]);
}

#[test]
fn downmix_window_rounds_toward_zero() {
    // -1 * 20 / 3 rounds to -6, not -7
    assert_eq!(downmix_window(&vec![-1], 3), vec![-6]);
    assert_eq!(downmix_window(&vec![1], 3), vec![6]);
}

#[test]
fn assemble_fft_computes_extrema() {
    let rows: Vec<Vec<u64>> = vec![vec![5, 2], vec![9, 3]];
    let fft = assemble_fft(rows).unwrap();
    assert_eq!(fft.num_frames, 2);
    assert_eq!(fft.num_bars, 2);
    assert_eq!(fft.min, 2);
    assert_eq!(fft.max, 9);
    assert_eq!(fft.fft, vec![vec![5, 2], vec![9, 3]]);
}

#[test]
fn assemble_fft_rejects_empty_matrix() {
    assert_eq!(assemble_fft(Vec::new()).unwrap_err(), FFTError::NoFrames);
}

#[test]
fn assemble_fft_rejects_empty_rows() {
    assert_eq!(assemble_fft(vec![Vec::new()]).unwrap_err(), FFTError::NoBars);
}

#[test]
fn assemble_fft_rejects_ragged_rows() {
    assert_eq!(
        assemble_fft(vec![vec![1], vec![2, 3]]).unwrap_err(),
        FFTError::RaggedRows
    );
}

#[test]
fn assemble_fft_rejects_oversized_magnitudes() {
    assert_eq!(
        assemble_fft(vec![vec![VAL_LIMIT + 1]]).unwrap_err(),
        FFTError::TooLarge
    );
}
