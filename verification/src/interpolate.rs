//! Bar expansion and per-tick blending: mirroring a row into a symmetric
//! layout, inserting interpolated bars between neighbours, and blending two
//! adjacent analysis frames by a fractional position.

use vstd::prelude::*;

verus! {

use vstd::arithmetic::div_mod::{
    lemma_div_is_ordered,
    lemma_div_multiples_vanish,
    lemma_fundamental_div_mod_converse,
};
use crate::SCALE;
use crate::VAL_LIMIT;

/// Fixed-point blend of `a` and `b` at fraction `alpha / SCALE`:
/// `a` when `alpha` is 0, `b` when `alpha` is `SCALE`.
pub open spec fn lerp_val(a: int, b: int, alpha: int) -> int {
    (a * (SCALE as int - alpha) + b * alpha) / (SCALE as int)
}

/// The value inserted between adjacent bars `curr` and `next` at step `j`
/// of `k` inserted bars: `curr + (next - curr) * j / (k + 1)`, with the
/// division rounding toward `curr`.
pub open spec fn interp_between(curr: int, next: int, j: int, k: int) -> int {
    if next >= curr {
        curr + (next - curr) * j / (k + 1)
    } else {
        curr - (curr - next) * j / (k + 1)
    }
}

/// Length of a row of `n` bars after inserting `k` bars between every
/// adjacent pair.
pub open spec fn space_len(n: int, k: int) -> int {
    (n - 1) * (k + 1) + 1
}

/// The value at position `idx` of a row after spatial interpolation with
/// smoothing factor `k`: original bar `i` sits at `i * (k + 1)`, and the
/// `j`-th inserted bar between bars `i` and `i + 1` at `i * (k + 1) + j`.
pub open spec fn space_val(v: Seq<u64>, k: int, idx: int) -> int {
    let i = idx / (k + 1);
    let j = idx % (k + 1);
    if j == 0 {
        v[i] as int
    } else {
        interp_between(v[i] as int, v[i + 1] as int, j, k)
    }
}

/// Blend two rows of equal length elementwise: position `i` of the result
/// is `v1[i] * (1 - alpha/SCALE) + v2[i] * (alpha/SCALE)` in fixed point.
pub fn time_interpolate(v1: &Vec<u64>, v2: &Vec<u64>, alpha: u64) -> (r: Vec<u64>)
    requires
        v1@.len() == v2@.len(),
        alpha <= SCALE,
        forall|i: int| 0 <= i < v1@.len() ==> v1@[i] <= VAL_LIMIT,
        forall|i: int| 0 <= i < v2@.len() ==> v2@[i] <= VAL_LIMIT,
    ensures
        r@.len() == v1@.len(),
        forall|i: int| 0 <= i < r@.len() ==> r@[i] == lerp_val(
            v1@[i] as int,
            v2@[i] as int,
            alpha as int,
        ),
        forall|i: int| 0 <= i < r@.len() ==> r@[i] <= VAL_LIMIT,
{
    let mut r: Vec<u64> = Vec::new();
    let n: usize = v1.len();
    for idx in 0..n
        invariant
            n == v1@.len(),
            v1@.len() == v2@.len(),
            alpha <= SCALE,
            forall|i: int| 0 <= i < v1@.len() ==> v1@[i] <= VAL_LIMIT,
            forall|i: int| 0 <= i < v2@.len() ==> v2@[i] <= VAL_LIMIT,
            r@.len() == idx,
            forall|i: int| 0 <= i < idx ==> r@[i] == lerp_val(
                v1@[i] as int,
                v2@[i] as int,
                alpha as int,
            ),
            forall|i: int| 0 <= i < idx ==> r@[i] <= VAL_LIMIT,
    {
        let a: u64 = v1[idx];
        let b: u64 = v2[idx];
        let w: u64 = SCALE - alpha;
        assert(a * w <= VAL_LIMIT * SCALE && b * alpha <= VAL_LIMIT * SCALE)
            by (nonlinear_arith)
            requires
                a <= VAL_LIMIT,
                b <= VAL_LIMIT,
                w <= SCALE,
                alpha <= SCALE,
        ;
        let num: u64 = a * w + b * alpha;
        let q: u64 = num / SCALE;
        proof {
            let mx: int = if a >= b { a as int } else { b as int };
            assert(num <= mx * (SCALE as int)) by (nonlinear_arith)
                requires
                    num == a * w + b * alpha,
                    w == SCALE - alpha,
                    alpha <= SCALE,
                    a <= mx,
                    b <= mx,
            ;
            lemma_div_is_ordered(num as int, mx * (SCALE as int), SCALE as int);
            lemma_div_multiples_vanish(mx, SCALE as int);
            assert(mx * (SCALE as int) == (SCALE as int) * mx);
            assert(q <= mx);
        }
        r.push(q);
    }
    r
}

/// Law: blending at fraction 0 returns the first row exactly, and blending
/// at fraction `SCALE` (1.0) returns the second row exactly.
pub proof fn lemma_time_interpolate_endpoints(v1: Seq<u64>, v2: Seq<u64>)
    requires
        v1.len() == v2.len(),
    ensures
        forall|i: int| 0 <= i < v1.len() ==> lerp_val(v1[i] as int, v2[i] as int, 0) == v1[i],
        forall|i: int| 0 <= i < v1.len() ==> lerp_val(v1[i] as int, v2[i] as int, SCALE as int)
            == v2[i],
{
    assert forall|i: int| 0 <= i < v1.len() implies lerp_val(v1[i] as int, v2[i] as int, 0)
        == v1[i] by {
        let a = v1[i] as int;
        let b = v2[i] as int;
        assert(a * (SCALE as int) + b * 0 == (SCALE as int) * a) by (nonlinear_arith);
        lemma_div_multiples_vanish(a, SCALE as int);
    }
    assert forall|i: int| 0 <= i < v1.len() implies lerp_val(
        v1[i] as int,
        v2[i] as int,
        SCALE as int,
    ) == v2[i] by {
        let a = v1[i] as int;
        let b = v2[i] as int;
        assert(a * 0 + b * (SCALE as int) == (SCALE as int) * b) by (nonlinear_arith);
        lemma_div_multiples_vanish(b, SCALE as int);
    }
}

/// Law: for rows ordered `v1[i] <= v2[i]` everywhere, the blend is
/// monotonic in the fraction `alpha`.
pub proof fn lemma_time_interpolate_monotonic(v1: Seq<u64>, v2: Seq<u64>, alpha1: int, alpha2: int)
    requires
        v1.len() == v2.len(),
        forall|i: int| 0 <= i < v1.len() ==> v1[i] <= v2[i],
        0 <= alpha1 <= alpha2 <= SCALE,
    ensures
        forall|i: int| 0 <= i < v1.len() ==> lerp_val(v1[i] as int, v2[i] as int, alpha1)
            <= lerp_val(v1[i] as int, v2[i] as int, alpha2),
{
    assert forall|i: int| 0 <= i < v1.len() implies lerp_val(v1[i] as int, v2[i] as int, alpha1)
        <= lerp_val(v1[i] as int, v2[i] as int, alpha2) by {
        let a = v1[i] as int;
        let b = v2[i] as int;
        let n1 = a * (SCALE as int - alpha1) + b * alpha1;
        let n2 = a * (SCALE as int - alpha2) + b * alpha2;
        assert(n1 <= n2) by (nonlinear_arith)
            requires
                n1 == a * (SCALE as int - alpha1) + b * alpha1,
                n2 == a * (SCALE as int - alpha2) + b * alpha2,
                a <= b,
                alpha1 <= alpha2,
        ;
        lemma_div_is_ordered(n1, n2, SCALE as int);
    }
}

/// Insert `num_new_frames` linearly interpolated bars between every pair of
/// adjacent bars, keeping every original bar at its scaled position.
pub fn space_interpolate(v: &mut Vec<u64>, num_new_frames: u32)
    requires
        old(v)@.len() >= 1,
        num_new_frames <= 1000,
        old(v)@.len() * (num_new_frames + 1) <= usize::MAX,
        forall|i: int| 0 <= i < old(v)@.len() ==> old(v)@[i] <= VAL_LIMIT,
    ensures
        final(v)@.len() == space_len(old(v)@.len() as int, num_new_frames as int),
        forall|idx: int| 0 <= idx < final(v)@.len() ==> final(v)@[idx] == space_val(
            old(v)@,
            num_new_frames as int,
            idx,
        ),
        forall|i: int| 0 <= i < old(v)@.len() ==> final(v)@[i * (num_new_frames as int + 1)]
            == old(v)@[i],
        forall|idx: int| 0 <= idx < final(v)@.len() ==> final(v)@[idx] <= VAL_LIMIT,
{
    let ghost orig: Seq<u64> = v@;
    let n: usize = v.len();
    let k: usize = num_new_frames as usize;
    let step: usize = k + 1;
    let mut out: Vec<u64> = Vec::new();
    for i in 0..n - 1
        invariant
            v@ == orig,
            n == orig.len(),
            1 <= n,
            k == num_new_frames,
            step == k + 1,
            k <= 1000,
            n * step <= usize::MAX,
            forall|j: int| 0 <= j < orig.len() ==> orig[j] <= VAL_LIMIT,
            out@.len() == i * step,
            forall|idx: int| 0 <= idx < out@.len() ==> out@[idx] == space_val(
                orig,
                k as int,
                idx,
            ),
            forall|idx: int| 0 <= idx < out@.len() ==> out@[idx] <= VAL_LIMIT,
    {
        assert((i + 1) * step <= n * step && i * step + step == (i + 1) * step)
            by (nonlinear_arith)
            requires
                i + 1 <= n,
                step >= 1,
        ;
        let curr: u64 = v[i];
        let next: u64 = v[i + 1];
        proof {
            lemma_fundamental_div_mod_converse(
                i * step as int,
                step as int,
                i as int,
                0,
            );
        }
        out.push(curr);
        for j in 1..step
            invariant
                v@ == orig,
                n == orig.len(),
                i < n - 1,
                k == num_new_frames,
                step == k + 1,
                k <= 1000,
                n * step <= usize::MAX,
                curr == orig[i as int],
                next == orig[i as int + 1],
                forall|m: int| 0 <= m < orig.len() ==> orig[m] <= VAL_LIMIT,
                out@.len() == i * step + j,
                forall|idx: int| 0 <= idx < out@.len() ==> out@[idx] == space_val(
                    orig,
                    k as int,
                    idx,
                ),
                forall|idx: int| 0 <= idx < out@.len() ==> out@[idx] <= VAL_LIMIT,
        {
            let val: u64 = if next >= curr {
                let diff: u64 = next - curr;
                assert(diff * j <= VAL_LIMIT * 1001) by (nonlinear_arith)
                    requires
                        diff <= VAL_LIMIT,
                        j <= 1001,
                ;
                let inc: u64 = (diff * j as u64) / (step as u64);
                proof {
                    assert(diff * j as int <= diff * step as int) by (nonlinear_arith)
                        requires
                            j as int <= step as int,
                            0 <= diff,
                    ;
                    lemma_div_is_ordered(
                        diff * j as int,
                        diff * step as int,
                        step as int,
                    );
                    lemma_div_multiples_vanish(diff as int, step as int);
                    assert(diff * step as int == step as int * diff as int);
                    assert(inc <= diff);
                }
                curr + diff * j as u64 / (step as u64)
            } else {
                let diff: u64 = curr - next;
                assert(diff * j <= VAL_LIMIT * 1001) by (nonlinear_arith)
                    requires
                        diff <= VAL_LIMIT,
                        j <= 1001,
                ;
                let dec: u64 = (diff * j as u64) / (step as u64);
                proof {
                    assert(diff * j as int <= diff * step as int) by (nonlinear_arith)
                        requires
                            j as int <= step as int,
                            0 <= diff,
                    ;
                    lemma_div_is_ordered(
                        diff * j as int,
                        diff * step as int,
                        step as int,
                    );
                    lemma_div_multiples_vanish(diff as int, step as int);
                    assert(diff * step as int == step as int * diff as int);
                    assert(dec <= diff);
                }
                curr - dec
            };
            proof {
                lemma_fundamental_div_mod_converse(
                    i * step as int + j,
                    step as int,
                    i as int,
                    j as int,
                );
                assert(val == interp_between(curr as int, next as int, j as int, k as int));
            }
            out.push(val);
        }
    }
    assert((n - 1) * step + 1 == space_len(n as int, k as int));
    let last: u64 = v[n - 1];
    proof {
        lemma_fundamental_div_mod_converse(
            (n - 1) * step as int,
            step as int,
            n as int - 1,
            0,
        );
    }
    out.push(last);
    proof {
        assert forall|i: int| 0 <= i < orig.len() implies out@[i * (num_new_frames as int + 1)]
            == orig[i] by {
            lemma_fundamental_div_mod_converse(
                i * step as int,
                step as int,
                i,
                0,
            );
            assert(i * step as int <= (n as int - 1) * step as int) by (nonlinear_arith)
                requires
                    0 <= i <= n as int - 1,
                    step as int >= 1,
            ;
            assert(i * (num_new_frames as int + 1) == i * step as int);
        }
    }
    *v = out;
}

/// Law: spatial interpolation with smoothing factor 0 is the identity
/// transform on any nonempty row.
pub proof fn lemma_space_interpolate_identity(v: Seq<u64>)
    requires
        v.len() >= 1,
    ensures
        space_len(v.len() as int, 0) == v.len(),
        forall|idx: int| 0 <= idx < v.len() ==> space_val(v, 0, idx) == v[idx],
{
    assert((v.len() as int - 1) * 1 == v.len() as int - 1) by (nonlinear_arith);
    assert forall|idx: int| 0 <= idx < v.len() implies space_val(v, 0, idx) == v[idx] by {
        lemma_fundamental_div_mod_converse(idx, 1, idx, 0);
    }
}

/// Mirror a row: the result is `reverse(v) ++ v`, twice as long as `v`,
/// putting the lowest frequencies in the center of the bar layout.
pub fn mirror_row(v: &Vec<u64>) -> (r: Vec<u64>)
    ensures
        r@ == v@.reverse() + v@,
        r@.len() == 2 * v@.len(),
{
    let n: usize = v.len();
    let mut out: Vec<u64> = Vec::new();
    for i in 0..n
        invariant
            n == v@.len(),
            out@.len() == i,
            forall|idx: int| 0 <= idx < i ==> out@[idx] == v@[n - 1 - idx],
    {
        out.push(v[n - 1 - i]);
    }
    for i in 0..n
        invariant
            n == v@.len(),
            out@.len() == n + i,
            forall|idx: int| 0 <= idx < n ==> out@[idx] == v@[n - 1 - idx],
            forall|idx: int| 0 <= idx < i ==> out@[n + idx] == v@[idx],
    {
        out.push(v[i]);
    }
    assert(out@ =~= v@.reverse() + v@);
    out
}

} // verus!
