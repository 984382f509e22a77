//! The full preprocessing pipeline over an assembled spectral matrix:
//! temporal smoothing, intensity rescaling, frequency-bucket rescaling,
//! mirroring, and spatial interpolation, in that fixed order.

use vstd::prelude::*;

verus! {

use vstd::arithmetic::div_mod::{lemma_div_is_ordered, lemma_div_multiples_vanish, lemma_div_pos_is_pos};
use crate::SCALE;
use crate::VAL_LIMIT;
use crate::FACTOR_LIMIT;
use crate::fft::FFT;
use crate::normalize::{
    RescalingCurve,
    bucket_of,
    col_sum,
    freq_val,
    frequency_normalize_fft,
    intensity_normalize_fft,
    intensity_val,
    smooth_fft,
};
use crate::interpolate::{mirror_row, space_interpolate, space_len, space_val};

/// The magnitude of bin `j` of output frame `i` after the three
/// normalization stages, before mirroring and spatial interpolation:
/// the smoothed mean is normalized through the intensity curve and then
/// scaled by its frequency bucket's gain.
pub open spec fn processed_val(
    fft: FFT,
    curve: RescalingCurve,
    gains: Seq<u64>,
    alpha: int,
    i: int,
    j: int,
) -> int {
    freq_val(
        intensity_val(
            col_sum(fft.fft@, j, i, 2 * alpha + 1) / (2 * alpha + 1),
            fft.min as int,
            fft.max as int,
            curve.thresholds@,
            curve.factors@,
        ),
        gains[bucket_of(j, fft.num_bars as int, gains.len() as int)] as int,
    )
}

/// Output frame `i` after mirroring: the normalized row preceded by its
/// own reversal, `2 * num_bars` bars wide.
pub open spec fn mirrored_row(
    fft: FFT,
    curve: RescalingCurve,
    gains: Seq<u64>,
    alpha: int,
    i: int,
) -> Seq<u64> {
    Seq::new(
        2 * fft.num_bars as nat,
        |jm: int|
            (if jm < fft.num_bars {
                processed_val(fft, curve, gains, alpha, i, fft.num_bars - 1 - jm)
            } else {
                processed_val(fft, curve, gains, alpha, i, jm - fft.num_bars)
            }) as u64,
    )
}

/// Run the whole preprocessing pipeline: smooth across frames, rescale
/// intensities through the curve, rescale frequency buckets by the gains,
/// mirror every row, and insert `smoothness` interpolated bars between
/// adjacent bars. Row `i` of the result is the spatial interpolation of
/// `mirrored_row(..., i)`.
pub fn preprocess_fft(
    fft: FFT,
    averaging_window: u32,
    curve: &RescalingCurve,
    freq_gains: &Vec<u64>,
    smoothness: u32,
) -> (r: Vec<Vec<u64>>)
    requires
        fft.wf(),
        fft.in_range(),
        fft.min < fft.max,
        curve.wf(),
        averaging_window <= 1000,
        fft.num_frames > 2 * averaging_window,
        freq_gains@.len() >= 1,
        forall|k: int| 0 <= k < freq_gains@.len() ==> #[trigger] freq_gains@[k] <= FACTOR_LIMIT,
        fft.num_bars >= freq_gains@.len(),
        fft.num_bars >= 1,
        smoothness <= 1000,
        2 * fft.num_bars * (smoothness as int + 1) <= usize::MAX,
    ensures
        r@.len() == fft.num_frames - 2 * averaging_window,
        forall|i: int|
            0 <= i < r@.len() ==> #[trigger] r@[i]@.len() == space_len(
                2 * fft.num_bars as int,
                smoothness as int,
            ),
        forall|i: int, idx: int|
            0 <= i < r@.len() && 0 <= idx < r@[i]@.len() ==> #[trigger] r@[i]@[idx] == space_val(
                mirrored_row(fft, *curve, freq_gains@, averaging_window as int, i),
                smoothness as int,
                idx,
            ),
{
    let ghost orig: FFT = fft;
    let smoothed: FFT = smooth_fft(fft, averaging_window);
    let leveled: FFT = intensity_normalize_fft(smoothed, curve);
    let balanced: FFT = frequency_normalize_fft(leveled, freq_gains);
    proof {
        assert forall|i: int, j: int|
            0 <= i < balanced.fft@.len() && 0 <= j < balanced.num_bars implies #[trigger] balanced.fft@[i]@[j]
            == processed_val(orig, *curve, freq_gains@, averaging_window as int, i, j)
            && balanced.fft@[i]@[j] <= VAL_LIMIT by {
            assert(leveled.fft@[i]@[j] <= FACTOR_LIMIT);
            let v = leveled.fft@[i]@[j] as int;
            let buckets = freq_gains@.len() as int;
            let bars = orig.num_bars as int;
            let per = bars / buckets;
            lemma_div_is_ordered(buckets, bars, buckets);
            lemma_div_multiples_vanish(1, buckets);
            assert(buckets * 1 == buckets) by (nonlinear_arith);
            assert(per >= 1);
            lemma_div_pos_is_pos(j, per);
            assert(0 <= bucket_of(j, bars, buckets) < buckets);
            let g = freq_gains@[bucket_of(
                j,
                orig.num_bars as int,
                freq_gains@.len() as int,
            )] as int;
            assert(v * g <= (FACTOR_LIMIT as int) * (FACTOR_LIMIT as int)) by (nonlinear_arith)
                requires
                    0 <= v <= FACTOR_LIMIT as int,
                    0 <= g <= FACTOR_LIMIT as int,
            ;
            assert(0 <= v * g) by (nonlinear_arith)
                requires
                    0 <= v,
                    0 <= g,
            ;
            lemma_div_is_ordered(
                v * g,
                (FACTOR_LIMIT as int) * (FACTOR_LIMIT as int),
                SCALE as int,
            );
            lemma_div_is_ordered(0, v * g, SCALE as int);
        }
    }
    let n_out: usize = balanced.num_frames;
    let mut out: Vec<Vec<u64>> = Vec::new();
    let mut i: usize = 0;
    while i < n_out
        invariant
            n_out == balanced.fft@.len(),
            n_out == orig.num_frames - 2 * averaging_window,
            balanced.num_bars == orig.num_bars,
            orig.num_bars >= 1,
            smoothness <= 1000,
            2 * orig.num_bars * (smoothness as int + 1) <= usize::MAX,
            forall|m: int| 0 <= m < balanced.fft@.len() ==> #[trigger] balanced.fft@[m]@.len()
                == balanced.num_bars,
            forall|m: int, j: int|
                0 <= m < balanced.fft@.len() && 0 <= j < balanced.num_bars
                    ==> #[trigger] balanced.fft@[m]@[j] == processed_val(
                    orig,
                    *curve,
                    freq_gains@,
                    averaging_window as int,
                    m,
                    j,
                ) && balanced.fft@[m]@[j] <= VAL_LIMIT,
            i <= n_out,
            out@.len() == i,
            forall|m: int|
                0 <= m < i ==> #[trigger] out@[m]@.len() == space_len(
                    2 * orig.num_bars as int,
                    smoothness as int,
                ),
            forall|m: int, idx: int|
                0 <= m < i && 0 <= idx < out@[m]@.len() ==> #[trigger] out@[m]@[idx] == space_val(
                    mirrored_row(orig, *curve, freq_gains@, averaging_window as int, m),
                    smoothness as int,
                    idx,
                ),
        decreases n_out - i,
    {
        let mut wide: Vec<u64> = mirror_row(&balanced.fft[i]);
        proof {
            assert(wide@ =~= mirrored_row(
                orig,
                *curve,
                freq_gains@,
                averaging_window as int,
                i as int,
            ));
        }
        space_interpolate(&mut wide, smoothness);
        out.push(wide);
        i = i + 1;
    }
    out
}

} // verus!
