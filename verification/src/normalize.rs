//! The normalization pipeline: temporal smoothing across frames, intensity
//! rescaling through a piecewise curve, and per-bucket frequency rescaling.
//! The two per-row passes run on a rayon thread pool, one row per task.

use rayon::iter::{IntoParallelIterator, ParallelIterator};
use vstd::prelude::*;

verus! {

use vstd::arithmetic::div_mod::{
    lemma_div_is_ordered,
    lemma_div_multiples_vanish,
};
use crate::SCALE;
use crate::VAL_LIMIT;
use crate::FACTOR_LIMIT;
use crate::fft::FFT;

/// An ordered list of `(threshold, factor)` pairs with strictly increasing
/// thresholds in `[0, SCALE]`, applied first-match-wins to normalized
/// magnitudes.
pub struct RescalingCurve {
    /// Strictly increasing fixed-point thresholds.
    pub thresholds: Vec<u64>,
    /// The factor applied to a value below the matching threshold.
    pub factors: Vec<u64>,
}

impl RescalingCurve {
    /// One factor per threshold, thresholds strictly increasing and at most
    /// `SCALE`, factors at most `FACTOR_LIMIT`.
    pub open spec fn wf(self) -> bool {
        &&& self.thresholds@.len() == self.factors@.len()
        &&& forall|t: int| 0 <= t < self.thresholds@.len() ==> #[trigger] self.thresholds@[t]
            <= SCALE
        &&& forall|t: int|
            0 < t < self.thresholds@.len() ==> self.thresholds@[t - 1] < #[trigger] self.thresholds@[t]
        &&& forall|t: int| 0 <= t < self.factors@.len() ==> #[trigger] self.factors@[t]
            <= FACTOR_LIMIT
    }

    /// Build a curve after checking the invariant; `None` exactly when the
    /// lists differ in length, a threshold is out of order or above `SCALE`,
    /// or a factor exceeds `FACTOR_LIMIT`.
    pub fn new(thresholds: Vec<u64>, factors: Vec<u64>) -> (r: Option<RescalingCurve>)
        ensures
            match r {
                Some(curve) => {
                    &&& curve.wf()
                    &&& curve.thresholds@ == thresholds@
                    &&& curve.factors@ == factors@
                },
                None => !(RescalingCurve { thresholds, factors }).wf(),
            },
    {
        if thresholds.len() != factors.len() {
            return None;
        }
        let n: usize = thresholds.len();
        for t in 0..n
            invariant
                n == thresholds@.len(),
                n == factors@.len(),
                forall|m: int| 0 <= m < t ==> #[trigger] thresholds@[m] <= SCALE,
                forall|m: int| 0 < m < t ==> thresholds@[m - 1] < #[trigger] thresholds@[m],
                forall|m: int| 0 <= m < t ==> #[trigger] factors@[m] <= FACTOR_LIMIT,
        {
            if thresholds[t] > SCALE {
                return None;
            }
            if t > 0 && thresholds[t - 1] >= thresholds[t] {
                return None;
            }
            if factors[t] > FACTOR_LIMIT {
                return None;
            }
        }
        Some(RescalingCurve { thresholds, factors })
    }
}

/// The built-in intensity curve: thresholds at every tenth of the
/// normalized range, compressing the quietest band and damping the two
/// loudest.
pub fn default_intensity_curve() -> (r: RescalingCurve)
    ensures
        r.wf(),
        r.thresholds@ =~= seq![
            100_000u64,
            200_000u64,
            300_000u64,
            400_000u64,
            500_000u64,
            600_000u64,
            700_000u64,
            800_000u64,
            900_000u64,
        ],
        r.factors@ =~= seq![
            400_000u64,
            1_000_000u64,
            1_000_000u64,
            1_000_000u64,
            1_000_000u64,
            1_000_000u64,
            1_000_000u64,
            600_000u64,
            500_000u64,
        ],
{
    let mut thresholds: Vec<u64> = Vec::new();
    thresholds.push(100_000);
    thresholds.push(200_000);
    thresholds.push(300_000);
    thresholds.push(400_000);
    thresholds.push(500_000);
    thresholds.push(600_000);
    thresholds.push(700_000);
    thresholds.push(800_000);
    thresholds.push(900_000);
    let mut factors: Vec<u64> = Vec::new();
    factors.push(400_000);
    factors.push(1_000_000);
    factors.push(1_000_000);
    factors.push(1_000_000);
    factors.push(1_000_000);
    factors.push(1_000_000);
    factors.push(1_000_000);
    factors.push(600_000);
    factors.push(500_000);
    RescalingCurve { thresholds, factors }
}

/// The built-in frequency gains: five buckets damping the bass slightly
/// and lifting the middle of the spectrum.
pub fn default_freq_gains() -> (r: Vec<u64>)
    ensures
        r@ =~= seq![900_000u64, 1_200_000u64, 1_200_000u64, 1_200_000u64, 1_000_000u64],
        forall|k: int| 0 <= k < r@.len() ==> #[trigger] r@[k] <= FACTOR_LIMIT,
{
    let mut gains: Vec<u64> = Vec::new();
    gains.push(900_000);
    gains.push(1_200_000);
    gains.push(1_200_000);
    gains.push(1_200_000);
    gains.push(1_000_000);
    gains
}

/// Sum of bin `j` over the `cnt` frames starting at frame `lo`.
pub open spec fn col_sum(m: Seq<Vec<u64>>, j: int, lo: int, cnt: int) -> int
    decreases cnt,
{
    if cnt <= 0 {
        0
    } else {
        col_sum(m, j, lo, cnt - 1) + m[lo + cnt - 1]@[j]
    }
}

proof fn lemma_col_sum_bounds(m: Seq<Vec<u64>>, j: int, lo: int, cnt: int, b_lo: int, b_hi: int)
    requires
        0 <= cnt,
        0 <= lo,
        lo + cnt <= m.len(),
        0 <= j,
        forall|i: int, t: int|
            0 <= i < m.len() && 0 <= t < m[i]@.len() ==> b_lo <= #[trigger] m[i]@[t] <= b_hi,
        forall|i: int| 0 <= i < m.len() ==> j < #[trigger] m[i]@.len(),
    ensures
        cnt * b_lo <= col_sum(m, j, lo, cnt) <= cnt * b_hi,
    decreases cnt,
{
    if cnt > 0 {
        lemma_col_sum_bounds(m, j, lo, cnt - 1, b_lo, b_hi);
        assert(cnt * b_lo == (cnt - 1) * b_lo + b_lo) by (nonlinear_arith);
        assert(cnt * b_hi == (cnt - 1) * b_hi + b_hi) by (nonlinear_arith);
    } else {
        assert(cnt * b_lo == 0 && cnt * b_hi == 0) by (nonlinear_arith)
            requires
                cnt == 0,
        ;
    }
}

/// Temporal smoothing: frame `i` of the result is the mean, bin by bin, of
/// the `2 * alpha + 1` input frames centered at input frame `i + alpha`;
/// the divisor equals the number of frames summed, so the average is
/// unbiased. The `alpha` leading and trailing frames are trimmed, and the
/// recorded extrema are kept unchanged.
pub fn smooth_fft(fft: FFT, alpha: u32) -> (r: FFT)
    requires
        fft.wf(),
        alpha <= 1000,
        fft.num_frames > 2 * alpha,
    ensures
        r.num_frames == fft.num_frames - 2 * alpha,
        r.num_bars == fft.num_bars,
        r.min == fft.min,
        r.max == fft.max,
        r.fft@.len() == r.num_frames,
        forall|i: int| 0 <= i < r.fft@.len() ==> #[trigger] r.fft@[i]@.len() == fft.num_bars,
        forall|i: int, j: int|
            0 <= i < r.fft@.len() && 0 <= j < fft.num_bars ==> #[trigger] r.fft@[i]@[j] == col_sum(
                fft.fft@,
                j,
                i,
                2 * alpha + 1,
            ) / (2 * alpha + 1),
        r.wf(),
        fft.in_range() ==> r.in_range(),
{
    let cnt: usize = 2 * (alpha as usize) + 1;
    let out_frames: usize = fft.num_frames - 2 * (alpha as usize);
    let num_bars: usize = fft.num_bars;
    let mut new_fft: Vec<Vec<u64>> = Vec::new();
    for i in 0..out_frames
        invariant
            fft.wf(),
            cnt == 2 * alpha + 1,
            cnt <= 2001,
            out_frames == fft.num_frames - 2 * alpha,
            num_bars == fft.num_bars,
            new_fft@.len() == i,
            forall|m: int| 0 <= m < i ==> #[trigger] new_fft@[m]@.len() == num_bars,
            forall|m: int, j: int|
                0 <= m < i && 0 <= j < num_bars ==> #[trigger] new_fft@[m]@[j] == col_sum(
                    fft.fft@,
                    j,
                    m,
                    cnt as int,
                ) / (cnt as int),
            forall|m: int, j: int|
                0 <= m < i && 0 <= j < num_bars ==> #[trigger] new_fft@[m]@[j] <= VAL_LIMIT,
            forall|m: int, j: int|
                fft.in_range() && 0 <= m < i && 0 <= j < num_bars ==> fft.min
                    <= #[trigger] new_fft@[m]@[j] <= fft.max,
    {
        let mut new_row: Vec<u64> = Vec::new();
        for j in 0..num_bars
            invariant
                fft.wf(),
                cnt == 2 * alpha + 1,
                cnt <= 2001,
                out_frames == fft.num_frames - 2 * alpha,
                i < out_frames,
                num_bars == fft.num_bars,
                new_row@.len() == j,
                forall|t: int|
                    0 <= t < j ==> #[trigger] new_row@[t] == col_sum(
                        fft.fft@,
                        t,
                        i as int,
                        cnt as int,
                    ) / (cnt as int),
                forall|t: int| 0 <= t < j ==> #[trigger] new_row@[t] <= VAL_LIMIT,
                forall|t: int|
                    fft.in_range() && 0 <= t < j ==> fft.min <= #[trigger] new_row@[t] <= fft.max,
        {
            let mut acc: u64 = 0;
            let mut t: usize = 0;
            while t < cnt
                invariant
                    fft.wf(),
                    cnt <= 2001,
                    i + cnt <= fft.fft@.len(),
                    j < fft.num_bars,
                    t <= cnt,
                    acc == col_sum(fft.fft@, j as int, i as int, t as int),
                    acc <= (t as int) * (VAL_LIMIT as int),
                decreases cnt - t,
            {
                let v: u64 = fft.fft[i + t][j];
                proof {
                    assert((t as int + 1) * (VAL_LIMIT as int) == (t as int) * (VAL_LIMIT as int)
                        + VAL_LIMIT as int) by (nonlinear_arith);
                    assert((t as int + 1) * (VAL_LIMIT as int) <= 2001 * (VAL_LIMIT as int))
                        by (nonlinear_arith)
                        requires
                            0 <= t as int + 1 <= 2001,
                    ;
                }
                acc = acc + v;
                t = t + 1;
            }
            let q: u64 = acc / (cnt as u64);
            proof {
                lemma_col_sum_bounds(fft.fft@, j as int, i as int, cnt as int, 0, VAL_LIMIT as int);
                lemma_div_is_ordered(acc as int, (cnt as int) * (VAL_LIMIT as int), cnt as int);
                lemma_div_multiples_vanish(VAL_LIMIT as int, cnt as int);
                assert((cnt as int) * (VAL_LIMIT as int) == (cnt as int) * (VAL_LIMIT as int));
                assert(q <= VAL_LIMIT);
                if fft.in_range() {
                    lemma_col_sum_bounds(
                        fft.fft@,
                        j as int,
                        i as int,
                        cnt as int,
                        fft.min as int,
                        fft.max as int,
                    );
                    lemma_div_is_ordered(
                        (cnt as int) * (fft.min as int),
                        acc as int,
                        cnt as int,
                    );
                    lemma_div_is_ordered(acc as int, (cnt as int) * (fft.max as int), cnt as int);
                    lemma_div_multiples_vanish(fft.min as int, cnt as int);
                    lemma_div_multiples_vanish(fft.max as int, cnt as int);
                    assert(fft.min <= q <= fft.max);
                }
            }
            new_row.push(q);
        }
        new_fft.push(new_row);
    }
    let r = FFT {
        fft: new_fft,
        num_frames: out_frames,
        num_bars,
        min: fft.min,
        max: fft.max,
    };
    r
}

/// A magnitude normalized against the global extrema: `min` maps to 0 and
/// `max` maps to `SCALE` (fixed-point 1.0).
pub open spec fn norm_val(v: int, mn: int, mx: int) -> int {
    (v - mn) * (SCALE as int) / (mx - mn)
}

/// First-match-wins curve application starting at pair `k`: the value is
/// multiplied by the factor of the first threshold it is below, or kept
/// unchanged when it is at or above every threshold.
pub open spec fn apply_curve_from(v: int, th: Seq<u64>, fa: Seq<u64>, k: int) -> int
    decreases th.len() - k,
{
    if k < 0 || k >= th.len() {
        v
    } else if v < th[k] {
        v * (fa[k] as int) / (SCALE as int)
    } else {
        apply_curve_from(v, th, fa, k + 1)
    }
}

/// One magnitude after intensity rescaling: normalize, then apply the curve.
pub open spec fn intensity_val(v: int, mn: int, mx: int, th: Seq<u64>, fa: Seq<u64>) -> int {
    apply_curve_from(norm_val(v, mn, mx), th, fa, 0)
}

/// Law: normalization maps the global minimum magnitude to 0 and the global
/// maximum to `SCALE` (1.0), before any threshold-based scaling is applied.
pub proof fn lemma_norm_extremes(mn: int, mx: int)
    requires
        mn < mx,
    ensures
        norm_val(mn, mn, mx) == 0,
        norm_val(mx, mn, mx) == SCALE,
{
    let d = mx - mn;
    assert((mn - mn) * (SCALE as int) == 0) by (nonlinear_arith);
    assert(0int / d == 0) by {
        lemma_div_multiples_vanish(0, d);
        assert(d * 0 == 0) by (nonlinear_arith);
    }
    assert((mx - mn) * (SCALE as int) == d * (SCALE as int));
    lemma_div_multiples_vanish(SCALE as int, d);
}

/// Apply the curve to one normalized magnitude.
fn apply_curve_exec(vn: u64, curve: &RescalingCurve) -> (r: u64)
    requires
        curve.wf(),
        vn <= SCALE,
    ensures
        r == apply_curve_from(vn as int, curve.thresholds@, curve.factors@, 0),
        r <= FACTOR_LIMIT,
{
    let n: usize = curve.thresholds.len();
    for k in 0..n
        invariant
            n == curve.thresholds@.len(),
            n == curve.factors@.len(),
            curve.wf(),
            vn <= SCALE,
            forall|t: int| 0 <= t < k ==> vn >= #[trigger] curve.thresholds@[t],
            apply_curve_from(vn as int, curve.thresholds@, curve.factors@, 0)
                == apply_curve_from(vn as int, curve.thresholds@, curve.factors@, k as int),
    {
        if vn < curve.thresholds[k] {
            let f: u64 = curve.factors[k];
            assert(vn * f <= SCALE * FACTOR_LIMIT) by (nonlinear_arith)
                requires
                    vn <= SCALE,
                    f <= FACTOR_LIMIT,
            ;
            let q: u64 = (vn * f) / SCALE;
            proof {
                assert(vn * (f as int) <= SCALE * (f as int)) by (nonlinear_arith)
                    requires
                        vn <= SCALE,
                        0 <= f,
                ;
                lemma_div_is_ordered(vn as int * (f as int), SCALE as int * (f as int), SCALE as int);
                lemma_div_multiples_vanish(f as int, SCALE as int);
                assert(SCALE as int * (f as int) == (SCALE as int) * (f as int));
                assert(q <= f);
            }
            return q;
        }
    }
    vn
}

/// Intensity-rescale one row against the global extrema.
pub fn intensity_rescale_row(row: &Vec<u64>, mn: u64, mx: u64, curve: &RescalingCurve) -> (r: Vec<
    u64,
>)
    requires
        curve.wf(),
        mn < mx <= VAL_LIMIT,
        forall|i: int| 0 <= i < row@.len() ==> mn <= #[trigger] row@[i] <= mx,
    ensures
        r@.len() == row@.len(),
        forall|i: int|
            0 <= i < r@.len() ==> r@[i] == intensity_val(
                row@[i] as int,
                mn as int,
                mx as int,
                curve.thresholds@,
                curve.factors@,
            ),
        forall|i: int| 0 <= i < r@.len() ==> #[trigger] r@[i] <= FACTOR_LIMIT,
{
    let n: usize = row.len();
    let d: u64 = mx - mn;
    let mut out: Vec<u64> = Vec::new();
    for i in 0..n
        invariant
            n == row@.len(),
            curve.wf(),
            mn < mx <= VAL_LIMIT,
            d == mx - mn,
            forall|m: int| 0 <= m < row@.len() ==> mn <= #[trigger] row@[m] <= mx,
            out@.len() == i,
            forall|m: int|
                0 <= m < i ==> out@[m] == intensity_val(
                    row@[m] as int,
                    mn as int,
                    mx as int,
                    curve.thresholds@,
                    curve.factors@,
                ),
            forall|m: int| 0 <= m < i ==> #[trigger] out@[m] <= FACTOR_LIMIT,
    {
        let v: u64 = row[i];
        let shifted: u64 = v - mn;
        assert(shifted * SCALE <= VAL_LIMIT * SCALE) by (nonlinear_arith)
            requires
                shifted <= VAL_LIMIT,
        ;
        let vn: u64 = (shifted * SCALE) / d;
        proof {
            assert(shifted * (SCALE as int) <= d * (SCALE as int)) by (nonlinear_arith)
                requires
                    shifted <= d,
                    0 <= SCALE as int,
            ;
            lemma_div_is_ordered(
                shifted as int * (SCALE as int),
                d as int * (SCALE as int),
                d as int,
            );
            lemma_div_multiples_vanish(SCALE as int, d as int);
            assert(d as int * (SCALE as int) == (d as int) * (SCALE as int));
            assert(vn <= SCALE);
            assert(vn == norm_val(v as int, mn as int, mx as int));
        }
        let scaled: u64 = apply_curve_exec(vn, curve);
        out.push(scaled);
    }
    out
}

/// Relies on rayon: `Vec::into_par_iter`, `ParallelIterator::map` and
/// `collect` apply the closure to every row and return the images in the
/// original order. The closure only calls `intensity_rescale_row`.
#[verifier::external_body]
fn par_intensity_rows(rows: Vec<Vec<u64>>, mn: u64, mx: u64, curve: &RescalingCurve) -> (r: Vec<
    Vec<u64>,
>)
    requires
        curve.wf(),
        mn < mx <= VAL_LIMIT,
        forall|i: int, j: int|
            0 <= i < rows@.len() && 0 <= j < rows@[i]@.len() ==> mn <= #[trigger] rows@[i]@[j]
                <= mx,
    ensures
        r@.len() == rows@.len(),
        forall|i: int| 0 <= i < r@.len() ==> #[trigger] r@[i]@.len() == rows@[i]@.len(),
        forall|i: int, j: int|
            0 <= i < r@.len() && 0 <= j < r@[i]@.len() ==> #[trigger] r@[i]@[j] == intensity_val(
                rows@[i]@[j] as int,
                mn as int,
                mx as int,
                curve.thresholds@,
                curve.factors@,
            ),
        forall|i: int, j: int|
            0 <= i < r@.len() && 0 <= j < r@[i]@.len() ==> #[trigger] r@[i]@[j] <= FACTOR_LIMIT,
{
    rows.into_par_iter().map(|row| intensity_rescale_row(&row, mn, mx, curve)).collect()
}

/// Intensity rescaling: every magnitude is normalized to `[0, SCALE]`
/// against the matrix extrema and then scaled by the factor of the first
/// curve threshold it falls below. The recorded extrema are kept unchanged,
/// as downstream stages no longer read them. Rows are processed in
/// parallel.
pub fn intensity_normalize_fft(fft: FFT, curve: &RescalingCurve) -> (r: FFT)
    requires
        fft.wf(),
        fft.in_range(),
        fft.min < fft.max,
        curve.wf(),
    ensures
        r.num_frames == fft.num_frames,
        r.num_bars == fft.num_bars,
        r.min == fft.min,
        r.max == fft.max,
        r.fft@.len() == fft.fft@.len(),
        forall|i: int| 0 <= i < r.fft@.len() ==> #[trigger] r.fft@[i]@.len() == fft.fft@[i]@.len(),
        forall|i: int, j: int|
            0 <= i < r.fft@.len() && 0 <= j < r.fft@[i]@.len() ==> #[trigger] r.fft@[i]@[j]
                == intensity_val(
                fft.fft@[i]@[j] as int,
                fft.min as int,
                fft.max as int,
                curve.thresholds@,
                curve.factors@,
            ),
        forall|i: int, j: int|
            0 <= i < r.fft@.len() && 0 <= j < r.fft@[i]@.len() ==> #[trigger] r.fft@[i]@[j]
                <= FACTOR_LIMIT,
        r.wf(),
{
    let FFT { fft: rows, num_frames, num_bars, min, max } = fft;
    let new_rows: Vec<Vec<u64>> = par_intensity_rows(rows, min, max, curve);
    FFT { fft: new_rows, num_frames, num_bars, min, max }
}

/// One magnitude after frequency rescaling by the fixed-point gain `g`.
pub open spec fn freq_val(v: int, g: int) -> int {
    v * g / (SCALE as int)
}

/// The bucket of bin `j` when `bars` bins are split over `buckets` equal
/// buckets: `j / (bars / buckets)`, clamped to the last bucket so that the
/// remainder bins share its gain.
pub open spec fn bucket_of(j: int, bars: int, buckets: int) -> int {
    let per = bars / buckets;
    if j / per < buckets - 1 {
        j / per
    } else {
        buckets - 1
    }
}

/// Law: on a matrix whose every magnitude is `SCALE` (1.0), frequency
/// rescaling leaves every bin of bucket `k` holding exactly the gain of
/// bucket `k`.
pub proof fn lemma_frequency_uniform(gains: Seq<u64>)
    ensures
        forall|k: int| 0 <= k < gains.len() ==> freq_val(SCALE as int, #[trigger] gains[k] as int)
            == gains[k],
{
    assert forall|k: int| 0 <= k < gains.len() implies freq_val(
        SCALE as int,
        #[trigger] gains[k] as int,
    ) == gains[k] by {
        let g = gains[k] as int;
        assert(SCALE as int * g == (SCALE as int) * g);
        lemma_div_multiples_vanish(g, SCALE as int);
    }
}

/// Frequency-rescale one row: bin `j` is scaled by the gain of its bucket.
pub fn frequency_rescale_row(row: &Vec<u64>, gains: &Vec<u64>) -> (r: Vec<u64>)
    requires
        gains@.len() >= 1,
        row@.len() >= gains@.len(),
        forall|k: int| 0 <= k < gains@.len() ==> #[trigger] gains@[k] <= FACTOR_LIMIT,
        forall|j: int| 0 <= j < row@.len() ==> #[trigger] row@[j] <= VAL_LIMIT,
    ensures
        r@.len() == row@.len(),
        forall|j: int|
            0 <= j < r@.len() ==> #[trigger] r@[j] == freq_val(
                row@[j] as int,
                gains@[bucket_of(j, row@.len() as int, gains@.len() as int)] as int,
            ),
        forall|j: int|
            0 <= j < r@.len() ==> #[trigger] r@[j] <= (VAL_LIMIT as int) * (FACTOR_LIMIT as int)
                / (SCALE as int),
{
    let n: usize = row.len();
    let n_buckets: usize = gains.len();
    let per: usize = n / n_buckets;
    proof {
        lemma_div_is_ordered(gains@.len() as int, row@.len() as int, gains@.len() as int);
        lemma_div_multiples_vanish(1, gains@.len() as int);
        assert(gains@.len() as int * 1 == gains@.len() as int) by (nonlinear_arith);
        assert(per >= 1);
    }
    let mut out: Vec<u64> = Vec::new();
    for j in 0..n
        invariant
            n == row@.len(),
            n_buckets == gains@.len(),
            1 <= n_buckets <= n,
            per == n / n_buckets,
            per >= 1,
            forall|k: int| 0 <= k < gains@.len() ==> #[trigger] gains@[k] <= FACTOR_LIMIT,
            forall|m: int| 0 <= m < row@.len() ==> #[trigger] row@[m] <= VAL_LIMIT,
            out@.len() == j,
            forall|m: int|
                0 <= m < j ==> #[trigger] out@[m] == freq_val(
                    row@[m] as int,
                    gains@[bucket_of(m, row@.len() as int, gains@.len() as int)] as int,
                ),
            forall|m: int|
                0 <= m < j ==> #[trigger] out@[m] <= (VAL_LIMIT as int) * (FACTOR_LIMIT as int)
                    / (SCALE as int),
    {
        let b: usize = j / per;
        let k: usize = if b < n_buckets - 1 {
            b
        } else {
            n_buckets - 1
        };
        proof {
            lemma_div_is_ordered(0, j as int, per as int);
            assert(k as int == bucket_of(j as int, n as int, n_buckets as int));
        }
        let g: u64 = gains[k];
        let v: u64 = row[j];
        proof {
            assert((v as int) * (g as int) <= (VAL_LIMIT as int) * (FACTOR_LIMIT as int))
                by (nonlinear_arith)
                requires
                    v <= VAL_LIMIT,
                    g <= FACTOR_LIMIT,
            ;
            assert(0 <= (v as int) * (g as int)) by (nonlinear_arith)
                requires
                    0 <= v,
                    0 <= g,
            ;
        }
        let prod: u128 = (v as u128) * (g as u128);
        proof {
            lemma_div_is_ordered(
                (v as int) * (g as int),
                (VAL_LIMIT as int) * (FACTOR_LIMIT as int),
                SCALE as int,
            );
            lemma_div_is_ordered(0, (v as int) * (g as int), SCALE as int);
        }
        let q: u128 = prod / (SCALE as u128);
        let scaled: u64 = q as u64;
        out.push(scaled);
    }
    out
}

/// Relies on rayon: `Vec::into_par_iter`, `ParallelIterator::map` and
/// `collect` apply the closure to every row and return the images in the
/// original order. The closure only calls `frequency_rescale_row`.
#[verifier::external_body]
fn par_frequency_rows(rows: Vec<Vec<u64>>, gains: &Vec<u64>) -> (r: Vec<Vec<u64>>)
    requires
        gains@.len() >= 1,
        forall|k: int| 0 <= k < gains@.len() ==> #[trigger] gains@[k] <= FACTOR_LIMIT,
        forall|i: int| 0 <= i < rows@.len() ==> #[trigger] rows@[i]@.len() >= gains@.len(),
        forall|i: int, j: int|
            0 <= i < rows@.len() && 0 <= j < rows@[i]@.len() ==> #[trigger] rows@[i]@[j]
                <= VAL_LIMIT,
    ensures
        r@.len() == rows@.len(),
        forall|i: int| 0 <= i < r@.len() ==> #[trigger] r@[i]@.len() == rows@[i]@.len(),
        forall|i: int, j: int|
            0 <= i < r@.len() && 0 <= j < r@[i]@.len() ==> #[trigger] r@[i]@[j] == freq_val(
                rows@[i]@[j] as int,
                gains@[bucket_of(j, rows@[i]@.len() as int, gains@.len() as int)] as int,
            ),
        forall|i: int, j: int|
            0 <= i < r@.len() && 0 <= j < r@[i]@.len() ==> #[trigger] r@[i]@[j] <= (
            VAL_LIMIT as int) * (FACTOR_LIMIT as int) / (SCALE as int),
{
    rows.into_par_iter().map(|row| frequency_rescale_row(&row, gains)).collect()
}

/// Frequency-bucket rescaling: the bins of every row are split into as many
/// equal contiguous buckets as there are gains (the last bucket absorbing
/// the remainder), and every bin is scaled by its bucket's gain. Rows are
/// processed in parallel.
pub fn frequency_normalize_fft(fft: FFT, scaling_factor: &Vec<u64>) -> (r: FFT)
    requires
        fft.wf(),
        scaling_factor@.len() >= 1,
        fft.num_bars >= scaling_factor@.len(),
        forall|k: int| 0 <= k < scaling_factor@.len() ==> #[trigger] scaling_factor@[k]
            <= FACTOR_LIMIT,
    ensures
        r.num_frames == fft.num_frames,
        r.num_bars == fft.num_bars,
        r.min == fft.min,
        r.max == fft.max,
        r.fft@.len() == fft.fft@.len(),
        forall|i: int| 0 <= i < r.fft@.len() ==> #[trigger] r.fft@[i]@.len() == fft.fft@[i]@.len(),
        forall|i: int, j: int|
            0 <= i < r.fft@.len() && 0 <= j < r.fft@[i]@.len() ==> #[trigger] r.fft@[i]@[j]
                == freq_val(
                fft.fft@[i]@[j] as int,
                scaling_factor@[bucket_of(
                    j,
                    fft.num_bars as int,
                    scaling_factor@.len() as int,
                )] as int,
            ),
        forall|i: int, j: int|
            0 <= i < r.fft@.len() && 0 <= j < r.fft@[i]@.len() ==> #[trigger] r.fft@[i]@[j] <= (
            VAL_LIMIT as int) * (FACTOR_LIMIT as int) / (SCALE as int),
{
    let FFT { fft: rows, num_frames, num_bars, min, max } = fft;
    let new_rows: Vec<Vec<u64>> = par_frequency_rows(rows, scaling_factor);
    FFT { fft: new_rows, num_frames, num_bars, min, max }
}

} // verus!
