use fftviz::fft::{assemble_fft, downmix_window, prepare_windows, step_amount, window_size};
use fftviz::SCALE;
use spectrum_analyzer::scaling::divide_by_N_sqrt;
use spectrum_analyzer::windows::hamming_window;
use spectrum_analyzer::{samples_fft_to_spectrum, FrequencyLimit};

/// One second of a 440 Hz sine at 44100 Hz, mono, as fixed-point samples.
fn sine_track() -> Vec<i64> {
    let sample_rate = 44100usize;
    let mut samples: Vec<i64> = Vec::with_capacity(sample_rate);
    for n in 0..sample_rate {
        let t = n as f32 / sample_rate as f32;
        let x = (2.0 * std::f32::consts::PI * 440.0 * t).sin();
        samples.push((x * SCALE as f32) as i64);
    }
    samples
}

#[test]
fn sine_track_analysis_finds_the_tone() {
    let sample_rate = 44100u32;
    let fft_fps = 10u32;
    let freq_res = 90u32;

    // window sizing and advance from the stated formulas
    let window = window_size(freq_res);
    assert_eq!(window, 256);
    let step = step_amount(sample_rate, 1, fft_fps, window);
    assert_eq!(step, 4154);

    let samples = sine_track();
    let windows = prepare_windows(&samples, window as usize, step as usize);
    // (44100 - 256) / (256 + 4154) + 1 complete windows
    assert_eq!(windows.len(), 10);

    let mut rows: Vec<Vec<u64>> = Vec::new();
    for win in &windows {
        let mono = downmix_window(win, 1);
        let floats: Vec<f32> = mono.iter().map(|v| *v as f32 / SCALE as f32).collect();
        let tapered = hamming_window(&floats);
        let spectrum = samples_fft_to_spectrum(
            &tapered,
            sample_rate,
            FrequencyLimit::Range(0.0f32.into(), 5000.0f32.into()),
            Some(&divide_by_N_sqrt),
        )
        .unwrap();

        let mut row: Vec<u64> = Vec::new();
        let mut best_freq = 0.0f32;
        let mut best_val = -1.0f32;
        for (freq, val) in spectrum.data() {
            if val.val() > best_val {
                best_val = val.val();
                best_freq = freq.val();
            }
            let clamped = if val.val() > 0.0 { val.val() } else { 0.0 };
            row.push((clamped * SCALE as f32) as u64);
        }
        // a single dominant bin near the sine's frequency, not flat zero
        assert!(best_val > 0.0);
        assert!(
            (300.0..=600.0).contains(&best_freq),
            "dominant bin at {best_freq} Hz"
        );
        rows.push(row);
    }

    let fft = assemble_fft(rows).unwrap();
    assert_eq!(fft.num_frames, 10);
    assert!(fft.num_bars > 0);
    assert!(fft.max > 0);
    assert!(fft.min < fft.max);
}
