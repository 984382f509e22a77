use fftviz::fft::assemble_fft;
use fftviz::normalize::{
    default_freq_gains, default_intensity_curve, frequency_normalize_fft, intensity_normalize_fft,
    smooth_fft, RescalingCurve,
};
use fftviz::{FACTOR_LIMIT, SCALE};

#[test]
fn curve_new_accepts_increasing_thresholds() {
    let c = RescalingCurve::new(vec![100, 200, 300], vec![1, 2, 3]).unwrap();
    assert_eq!(c.thresholds, vec![100, 200, 300]);
    assert_eq!(c.factors, vec![1, 2, 3]);
}

#[test]
fn curve_new_rejects_length_mismatch() {
    assert!(RescalingCurve::new(vec![100], vec![1, 2]).is_none());
}

#[test]
fn curve_new_rejects_unordered_thresholds() {
    assert!(RescalingCurve::new(vec![200, 200], vec![1, 1]).is_none());
    assert!(RescalingCurve::new(vec![300, 100], vec![1, 1]).is_none());
}

#[test]
fn curve_new_rejects_threshold_above_one() {
    assert!(RescalingCurve::new(vec![SCALE + 1], vec![1]).is_none());
}

#[test]
fn curve_new_rejects_oversized_factor() {
    assert!(RescalingCurve::new(vec![100], vec![FACTOR_LIMIT + 1]).is_none());
}

#[test]
fn smooth_fft_averages_centered_window() {
    let fft = assemble_fft(vec![vec![0], vec![300], vec![600]]).unwrap();
    let s = smooth_fft(fft, 1);
    assert_eq!(s.num_frames, 1);
    assert_eq!(s.num_bars, 1);
    // (0 + 300 + 600) / 3
    assert_eq!(s.fft, vec![vec![300]]);
    assert_eq!(s.min, 0);
    assert_eq!(s.max, 600);
}

#[test]
fn smooth_fft_trims_alpha_frames_each_end() {
    let fft = assemble_fft(vec![vec![10], vec![20], vec![30], vec![40], vec![50]]).unwrap();
    let s = smooth_fft(fft, 2);
    assert_eq!(s.num_frames, 1);
    // (10 + 20 + 30 + 40 + 50) / 5
    assert_eq!(s.fft, vec![vec![30]]);
}

#[test]
fn smooth_fft_with_zero_window_is_identity() {
    let fft = assemble_fft(vec![vec![7], vec![8]]).unwrap();
    let s = smooth_fft(fft, 0);
    assert_eq!(s.fft, vec![vec![7], vec![8]]);
}

#[test]
fn intensity_maps_extrema_to_zero_and_one() {
    // with an empty curve the pass is the pure min/max normalization
    let fft = assemble_fft(vec![vec![10, 20]]).unwrap();
    let curve = RescalingCurve::new(Vec::new(), Vec::new()).unwrap();
    let r = intensity_normalize_fft(fft, &curve);
    assert_eq!(r.fft, vec![vec![0, SCALE]]);
}

#[test]
fn intensity_first_match_wins() {
    let fft = assemble_fft(vec![vec![0, 250_000, 1_000_000]]).unwrap();
    // normalized values stay as they are: min 0, max 1_000_000
    let curve = RescalingCurve::new(
        vec![300_000, 600_000],
        vec![500_000, 2_000_000],
    )
    .unwrap();
    let r = intensity_normalize_fft(fft, &curve);
    // 0 < 300000: halved; 250000 < 300000: halved; 1000000 matches nothing
    assert_eq!(r.fft, vec![vec![0, 125_000, 1_000_000]]);
}

#[test]
fn intensity_keeps_extrema_fields() {
    let fft = assemble_fft(vec![vec![10, 20]]).unwrap();
    let curve = RescalingCurve::new(Vec::new(), Vec::new()).unwrap();
    let r = intensity_normalize_fft(fft, &curve);
    assert_eq!(r.min, 10);
    assert_eq!(r.max, 20);
}

#[test]
fn frequency_uniform_matrix_yields_bucket_gains() {
    let one = SCALE;
    let fft = assemble_fft(vec![vec![one; 5], vec![one; 5]]).unwrap();
    let gains: Vec<u64> = vec![900_000, 1_200_000, 1_200_000, 1_200_000, 1_000_000];
    let r = frequency_normalize_fft(fft, &gains);
    for row in &r.fft {
        assert_eq!(row, &gains);
    }
}

#[test]
fn frequency_last_bucket_absorbs_remainder() {
    let fft = assemble_fft(vec![vec![SCALE; 5]]).unwrap();
    let gains: Vec<u64> = vec![2_000_000, 3_000_000];
    let r = frequency_normalize_fft(fft, &gains);
    // bars_per_bucket = 5 / 2 = 2; bins 4.. clamp to the last bucket
    assert_eq!(
        r.fft,
        vec![vec![2_000_000, 2_000_000, 3_000_000, 3_000_000, 3_000_000]]
    );
}

#[test]
fn default_curve_matches_built_in_constants() {
    let c = default_intensity_curve();
    assert_eq!(
        c.thresholds,
        vec![100_000, 200_000, 300_000, 400_000, 500_000, 600_000, 700_000, 800_000, 900_000]
    );
    assert_eq!(
        c.factors,
        vec![
            400_000, 1_000_000, 1_000_000, 1_000_000, 1_000_000, 1_000_000, 1_000_000, 600_000,
            500_000
        ]
    );
    assert_eq!(
        default_freq_gains(),
        vec![900_000, 1_200_000, 1_200_000, 1_200_000, 1_000_000]
    );
}
