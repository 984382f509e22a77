//! The frame clock: mapping elapsed playback time to the analysis-frame and
//! render-tick indices, and picking the row shown at one render tick —
//! either a matrix row directly or a blend of two adjacent rows.

use vstd::prelude::*;

verus! {

use vstd::arithmetic::div_mod::{
    lemma_div_is_ordered,
    lemma_div_multiples_vanish,
    lemma_mod_division_less_than_divisor,
};
use crate::SCALE;
use crate::VAL_LIMIT;
use crate::interpolate::{lerp_val, time_interpolate};

/// Number of whole periods of a per-second rate that fit in `elapsed_us`
/// microseconds: `floor(elapsed_us * rate / 1_000_000)`.
pub open spec fn ticks_of(elapsed_us: int, rate: int) -> int {
    elapsed_us * rate / 1_000_000
}

/// Map elapsed wall-clock playback time to the analysis-frame index and the
/// render-tick index: each advances once per period of its rate.
pub fn update_frame_counters(elapsed_us: u64, fft_fps: u32, rendering_fps: u32) -> (r: (u64, u64))
    requires
        fft_fps <= 1_000_000,
        rendering_fps <= 1_000_000,
    ensures
        r.0 == ticks_of(elapsed_us as int, fft_fps as int),
        r.1 == ticks_of(elapsed_us as int, rendering_fps as int),
{
    let fft_frame: u64 = ticks_exec(elapsed_us, fft_fps);
    let render_tick: u64 = ticks_exec(elapsed_us, rendering_fps);
    (fft_frame, render_tick)
}

/// One counter of `update_frame_counters`.
fn ticks_exec(elapsed_us: u64, rate: u32) -> (r: u64)
    requires
        rate <= 1_000_000,
    ensures
        r == ticks_of(elapsed_us as int, rate as int),
{
    proof {
        assert((elapsed_us as int) * (rate as int) <= (u64::MAX as int) * 1_000_000)
            by (nonlinear_arith)
            requires
                elapsed_us as int <= u64::MAX as int,
                rate as int <= 1_000_000,
        ;
        assert(0 <= (elapsed_us as int) * (rate as int)) by (nonlinear_arith)
            requires
                0 <= elapsed_us,
                0 <= rate,
        ;
    }
    let prod: u128 = (elapsed_us as u128) * (rate as u128);
    let q: u128 = prod / 1_000_000u128;
    proof {
        lemma_div_is_ordered(
            (elapsed_us as int) * (rate as int),
            (u64::MAX as int) * 1_000_000,
            1_000_000,
        );
        lemma_div_multiples_vanish(u64::MAX as int, 1_000_000);
        assert((u64::MAX as int) * 1_000_000 == 1_000_000 * (u64::MAX as int))
            by (nonlinear_arith);
        lemma_div_is_ordered(0, (elapsed_us as int) * (rate as int), 1_000_000);
    }
    q as u64
}

/// The fixed-point blend fraction of render tick `rem` within an analysis
/// period of `interval` render ticks.
pub open spec fn blend_alpha(rem: int, interval: int) -> int {
    rem * (SCALE as int) / interval
}

/// The row displayed at one render tick. On a tick that starts an analysis
/// period (`total_frame_counter` divisible by `interval`, the number of
/// render ticks per analysis frame) the analysis frame itself is shown;
/// otherwise the current and next analysis frames are blended at the tick's
/// fractional position within the period. `None` exactly when the next
/// analysis frame would lie past the end of the matrix: the track is over.
pub fn update_fft(
    rows: &Vec<Vec<u64>>,
    fft_frame_counter: usize,
    total_frame_counter: usize,
    interval: u32,
) -> (r: Option<Vec<u64>>)
    requires
        interval >= 1,
        forall|i: int| 0 <= i < rows@.len() ==> #[trigger] rows@[i]@.len() == rows@[0]@.len(),
        forall|i: int, j: int|
            0 <= i < rows@.len() && 0 <= j < rows@[i]@.len() ==> #[trigger] rows@[i]@[j]
                <= VAL_LIMIT,
    ensures
        match r {
            None => fft_frame_counter + 1 >= rows@.len(),
            Some(row) => {
                &&& fft_frame_counter + 1 < rows@.len()
                &&& row@.len() == rows@[fft_frame_counter as int]@.len()
                &&& if total_frame_counter as int % (interval as int) == 0 {
                    row@ == rows@[fft_frame_counter as int]@
                } else {
                    forall|j: int|
                        0 <= j < row@.len() ==> #[trigger] row@[j] == lerp_val(
                            rows@[fft_frame_counter as int]@[j] as int,
                            rows@[fft_frame_counter as int + 1]@[j] as int,
                            blend_alpha(
                                total_frame_counter as int % (interval as int),
                                interval as int,
                            ),
                        )
                }
            },
        },
{
    if fft_frame_counter >= rows.len() || fft_frame_counter + 1 >= rows.len() {
        return None;
    }
    let rem: usize = total_frame_counter % (interval as usize);
    if rem == 0 {
        let mut row: Vec<u64> = Vec::new();
        let n: usize = rows[fft_frame_counter].len();
        for j in 0..n
            invariant
                fft_frame_counter < rows@.len(),
                n == rows@[fft_frame_counter as int]@.len(),
                row@.len() == j,
                forall|t: int| 0 <= t < j ==> #[trigger] row@[t] == rows@[
                    fft_frame_counter as int]@[t],
        {
            row.push(rows[fft_frame_counter][j]);
        }
        proof {
            assert(row@ =~= rows@[fft_frame_counter as int]@);
        }
        Some(row)
    } else {
        proof {
            lemma_mod_division_less_than_divisor(total_frame_counter as int, interval as int);
            assert((rem as int) * (SCALE as int) <= (interval as int) * (SCALE as int))
                by (nonlinear_arith)
                requires
                    rem as int <= interval as int,
                    0 <= SCALE as int,
            ;
            lemma_div_is_ordered(
                (rem as int) * (SCALE as int),
                (interval as int) * (SCALE as int),
                interval as int,
            );
            lemma_div_multiples_vanish(SCALE as int, interval as int);
            assert(0 <= (rem as int) * (SCALE as int)) by (nonlinear_arith)
                requires
                    0 <= rem,
            ;
            lemma_div_is_ordered(0, (rem as int) * (SCALE as int), interval as int);
            assert((rem as u64) * SCALE <= 0xFFFF_FFFFu64 * SCALE) by (nonlinear_arith)
                requires
                    rem as int <= 0xFFFF_FFFF,
                    0 <= rem,
            ;
        }
        let alpha: u64 = ((rem as u64) * SCALE) / (interval as u64);
        let row: Vec<u64> = time_interpolate(
            &rows[fft_frame_counter],
            &rows[fft_frame_counter + 1],
            alpha,
        );
        Some(row)
    }
}

} // verus!
