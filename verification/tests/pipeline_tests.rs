use fftviz::fft::assemble_fft;
use fftviz::normalize::RescalingCurve;
use fftviz::pipeline::preprocess_fft;

#[test]
fn preprocess_runs_all_stages_in_order() {
    // three frames of two bars; extrema are 0 and 800_000
    let fft = assemble_fft(vec![
        vec![0, 0],
        vec![0, 400_000],
        vec![0, 800_000],
    ])
    .unwrap();
    let curve = RescalingCurve::new(Vec::new(), Vec::new()).unwrap();
    let gains: Vec<u64> = vec![1_000_000]; // one bucket, gain 1.0
    let out = preprocess_fft(fft, 1, &curve, &gains, 1);
    // smoothing with window 1 trims to a single frame
    assert_eq!(out.len(), 1);
    // smoothed row [0, 400_000], normalized to [0, 500_000], gains leave it,
    // mirrored to [500_000, 0, 0, 500_000], then one bar between each pair
    assert_eq!(out[0].len(), (4 - 1) * 2 + 1);
    assert_eq!(
        out[0],
        vec![500_000, 250_000, 0, 0, 0, 250_000, 500_000]
    );
}

#[test]
fn preprocess_without_expansion_keeps_mirrored_width() {
    let fft = assemble_fft(vec![vec![100, 300], vec![200, 300], vec![300, 300]]).unwrap();
    let curve = RescalingCurve::new(Vec::new(), Vec::new()).unwrap();
    let gains: Vec<u64> = vec![1_000_000, 2_000_000];
    let out = preprocess_fft(fft, 1, &curve, &gains, 0);
    assert_eq!(out.len(), 1);
    assert_eq!(out[0].len(), 4);
    // smoothed row [200, 300] over extrema 100..300 normalizes to
    // [500_000, 1_000_000]; the second bucket doubles its bin;
    // mirroring reverses and prepends
    assert_eq!(out[0], vec![2_000_000, 500_000, 500_000, 2_000_000]);
}
