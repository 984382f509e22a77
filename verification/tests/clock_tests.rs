use fftviz::clock::{update_fft, update_frame_counters};
use fftviz::interpolate::time_interpolate;
use fftviz::{FFT_FPS, RENDERING_FPS};

#[test]
fn counters_start_at_zero() {
    assert_eq!(update_frame_counters(0, FFT_FPS, RENDERING_FPS), (0, 0));
}

#[test]
fn counters_advance_with_their_rates() {
    // render rate 60, analysis rate 12: the interval is 5 render ticks
    assert_eq!(RENDERING_FPS / FFT_FPS, 5);
    // just past two render periods: 2/60 s
    let elapsed = 33_334u64;
    let (fft_frame, render_tick) = update_frame_counters(elapsed, FFT_FPS, RENDERING_FPS);
    assert_eq!(render_tick, 2);
    assert_eq!(fft_frame, 0);
    // one full second
    let (fft_frame, render_tick) = update_frame_counters(1_000_000, FFT_FPS, RENDERING_FPS);
    assert_eq!(fft_frame, 12);
    assert_eq!(render_tick, 60);
}

#[test]
fn counters_floor_partial_periods() {
    // 0.9 of an analysis period has not completed a frame
    let elapsed = 74_999u64; // 12 frames/s -> 83_333 us per frame
    let (fft_frame, _) = update_frame_counters(elapsed, FFT_FPS, RENDERING_FPS);
    assert_eq!(fft_frame, 0);
}

#[test]
fn update_fft_reads_matrix_row_on_period_start() {
    let rows: Vec<Vec<u64>> = vec![vec![0], vec![1_000_000], vec![500_000]];
    assert_eq!(update_fft(&rows, 0, 0, 5).unwrap(), vec![0]);
    assert_eq!(update_fft(&rows, 1, 5, 5).unwrap(), vec![1_000_000]);
    assert_eq!(update_fft(&rows, 1, 10, 5).unwrap(), vec![1_000_000]);
}

#[test]
fn update_fft_blends_between_frames() {
    let rows: Vec<Vec<u64>> = vec![vec![0], vec![1_000_000], vec![500_000]];
    // render tick 2 of 5: the blend sits at 2/5 of the way to the next frame
    let shown = update_fft(&rows, 0, 2, 5).unwrap();
    assert_eq!(shown, time_interpolate(&rows[0], &rows[1], 400_000));
    assert_eq!(shown, vec![400_000]);
}

#[test]
fn update_fft_ends_when_frames_run_out() {
    let rows: Vec<Vec<u64>> = vec![vec![0], vec![1_000_000]];
    // the last frame has no successor to blend toward: terminal state
    assert!(update_fft(&rows, 1, 5, 5).is_none());
    assert!(update_fft(&rows, 7, 35, 5).is_none());
}
