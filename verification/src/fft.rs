//! The spectral matrix and the frame extractor's arithmetic: window sizing,
//! frame advance, framing of the interleaved sample stream, downmix to mono,
//! and assembly of per-window spectra into a matrix with its global extrema.

use vstd::prelude::*;

verus! {

use vstd::arithmetic::power2::{
    is_pow2,
    is_pow2_equiv,
    is_pow2_exists,
    pow2,
    lemma_pow2_unfold,
    lemma2_to64,
};
use vstd::arithmetic::power::{pow, lemma_pow_positive};
use vstd::arithmetic::div_mod::{
    lemma_div_is_ordered,
    lemma_div_multiples_vanish,
    lemma_div_nonincreasing,
    lemma_fundamental_div_mod,
    lemma_fundamental_div_mod_converse,
    lemma_mod_multiples_basic,
};
use crate::VAL_LIMIT;

/// The spectral matrix: one row per analysis window, in temporal order,
/// with the global magnitude extrema recorded at extraction time.
#[derive(Debug, Clone)]
pub struct FFT {
    /// Rows of fixed-point magnitudes; row `i` is the spectrum of window `i`.
    pub fft: Vec<Vec<u64>>,
    /// Number of rows.
    pub num_frames: usize,
    /// Number of bars (spectral bins) in every row.
    pub num_bars: usize,
    /// Smallest magnitude over all rows at extraction time.
    pub min: u64,
    /// Largest magnitude over all rows at extraction time.
    pub max: u64,
}

/// Errors of matrix assembly and of the normalization pipeline.
#[derive(Debug, Clone, Copy, PartialEq, Eq, Structural)]
pub enum FFTError {
    /// No window could be produced: nothing to render.
    NoFrames,
    /// Windows produced no spectral bins: nothing to render.
    NoBars,
    /// Two rows differ in length.
    RaggedRows,
    /// A magnitude exceeds `VAL_LIMIT`.
    TooLarge,
}

/// `v` occurs in the matrix and no entry is below it.
pub open spec fn is_min_of(m: Seq<Vec<u64>>, v: u64) -> bool {
    &&& exists|i: int, j: int| 0 <= i < m.len() && 0 <= j < m[i]@.len() && m[i]@[j] == v
    &&& forall|i: int, j: int| 0 <= i < m.len() && 0 <= j < m[i]@.len() ==> v <= m[i]@[j]
}

/// `v` occurs in the matrix and no entry is above it.
pub open spec fn is_max_of(m: Seq<Vec<u64>>, v: u64) -> bool {
    &&& exists|i: int, j: int| 0 <= i < m.len() && 0 <= j < m[i]@.len() && m[i]@[j] == v
    &&& forall|i: int, j: int| 0 <= i < m.len() && 0 <= j < m[i]@.len() ==> m[i]@[j] <= v
}

impl FFT {
    /// Structural well-formedness: the counts describe the rows, every row
    /// has exactly `num_bars` entries, and every magnitude is in range.
    pub open spec fn wf(self) -> bool {
        &&& self.fft@.len() == self.num_frames
        &&& self.num_frames >= 1
        &&& forall|i: int| 0 <= i < self.fft@.len() ==> self.fft@[i]@.len() == self.num_bars
        &&& forall|i: int, j: int|
            0 <= i < self.fft@.len() && 0 <= j < self.fft@[i]@.len() ==> self.fft@[i]@[j]
                <= VAL_LIMIT
        &&& self.min <= self.max <= VAL_LIMIT
    }

    /// Every magnitude lies between the recorded extrema. Holds after
    /// assembly and is preserved by temporal smoothing.
    pub open spec fn in_range(self) -> bool {
        forall|i: int, j: int|
            0 <= i < self.fft@.len() && 0 <= j < self.fft@[i]@.len() ==> self.min <= #[trigger] self.fft@[i]@[j]
                <= self.max
    }
}

/// Window length for a chosen frequency resolution: the empirical base
/// `(256 / 107) * freq_res` rounded up to the next power of two, as the
/// transform needs a power-of-two input length.
pub fn window_size(freq_res: u32) -> (w: u64)
    requires
        1 <= freq_res <= 1_000_000,
    ensures
        is_pow2(w as int),
        (256int / 107) * freq_res <= w < 2 * ((256int / 107) * freq_res),
{
    let base: u64 = (256 / 107) * (freq_res as u64);
    let mut p: u64 = 1;
    let ghost mut e: nat = 0;
    proof {
        lemma2_to64();
    }
    while p < base
        invariant
            1 <= base <= 2_000_000,
            p == pow2(e),
            1 <= p,
            p == 1 || p / 2 < base,
            p <= base * 2,
        decreases base * 2 - p,
    {
        let p2: u64 = p * 2;
        proof {
            lemma_pow2_unfold((e + 1) as nat);
            e = e + 1;
            lemma_div_multiples_vanish(p as int, 2);
            assert(p2 as int == 2 * (p as int));
            assert(p2 / 2 == p);
        }
        p = p2;
    }
    proof {
        lemma_pow_positive(2, e);
        assert(pow(2, e) == p as int);
        assert(is_pow2_exists(p as int));
        is_pow2_equiv(p as int);
        if p != 1 {
            assert(e != 0) by {
                lemma2_to64();
            }
            lemma_pow2_unfold(e);
            lemma_mod_multiples_basic(pow2((e - 1) as nat) as int, 2);
            assert(p % 2 == 0);
            lemma_fundamental_div_mod(p as int, 2);
            assert(p == 2 * (p as int / 2));
            assert(p < 2 * base);
        } else {
            assert(base == 1);
        }
    }
    p
}

/// Frame advance between windows for the desired analysis rate:
/// `(sample_rate * n_channels) / fft_fps - window`, clamped at zero when
/// the windows would overlap (the stream never moves backward).
pub fn step_amount(sample_rate: u32, n_channels: u16, fft_fps: u32, window: u64) -> (s: u64)
    requires
        fft_fps >= 1,
    ensures
        s == if (sample_rate * n_channels) / (fft_fps as int) >= window {
            (sample_rate * n_channels) / (fft_fps as int) - window
        } else {
            0
        },
{
    proof {
        assert((sample_rate as int) * (n_channels as int) < 0x1_0000_0000_0000)
            by (nonlinear_arith)
            requires
                (sample_rate as int) < 0x1_0000_0000,
                (n_channels as int) < 0x1_0000,
        ;
    }
    let total: u64 = (sample_rate as u64 * n_channels as u64) / (fft_fps as u64);
    if total >= window {
        total - window
    } else {
        0
    }
}

/// Number of complete windows of length `w`, advancing by `w + s`, that fit
/// in a stream of `len` samples.
pub open spec fn frame_count(len: int, w: int, s: int) -> int {
    if len < w {
        0
    } else {
        (len - w) / (w + s) + 1
    }
}

/// Slice the interleaved sample stream into complete analysis windows:
/// window `i` holds the samples at positions `i * (w + s) .. i * (w + s) + w`.
/// A trailing stretch shorter than one window is discarded.
pub fn prepare_windows(samples: &Vec<i64>, window_len: usize, step: usize) -> (r: Vec<Vec<i64>>)
    requires
        window_len >= 1,
        samples@.len() + window_len + step < usize::MAX,
    ensures
        r@.len() == frame_count(samples@.len() as int, window_len as int, step as int),
        forall|i: int| 0 <= i < r@.len() ==> r@[i]@.len() == window_len,
        forall|i: int, j: int|
            0 <= i < r@.len() && 0 <= j < window_len ==> r@[i]@[j] == samples@[i * (
            window_len as int + step as int) + j],
{
    let len: usize = samples.len();
    let adv: usize = window_len + step;
    let mut out: Vec<Vec<i64>> = Vec::new();
    let mut pos: usize = 0;
    let mut i: usize = 0;
    while window_len <= len && pos <= len - window_len
        invariant
            len == samples@.len(),
            adv == window_len + step,
            window_len >= 1,
            len + window_len + step < usize::MAX,
            pos == i * adv,
            i <= pos,
            pos <= len + adv,
            out@.len() == i,
            i == 0 || (i - 1) * adv + window_len <= len,
            forall|m: int| 0 <= m < out@.len() ==> out@[m]@.len() == window_len,
            forall|m: int, j: int|
                0 <= m < out@.len() && 0 <= j < window_len ==> out@[m]@[j] == samples@[m * (
                adv as int) + j],
        decreases len + adv - pos,
    {
        let mut win: Vec<i64> = Vec::new();
        for t in 0..window_len
            invariant
                len == samples@.len(),
                pos + window_len <= len,
                win@.len() == t,
                forall|j: int| 0 <= j < t ==> win@[j] == samples@[pos + j],
        {
            win.push(samples[pos + t]);
        }
        out.push(win);
        proof {
            assert((i + 1) * adv as int == i * adv as int + adv as int) by (nonlinear_arith);
        }
        pos = pos + adv;
        i = i + 1;
    }
    proof {
        let w = window_len as int;
        let s = step as int;
        let l = len as int;
        if i == 0 {
            assert(l < w);
        } else {
            let q = i as int - 1;
            let rem = l - w - q * (w + s);
            assert(q * (w + s) + w <= l);
            assert(i as int * (w + s) == q * (w + s) + (w + s)) by (nonlinear_arith)
                requires
                    q == i as int - 1,
            ;
            assert(l - window_len < pos || l < window_len);
            assert(q * (w + s) >= 0) by (nonlinear_arith)
                requires
                    q >= 0,
                    w + s >= 0,
            ;
            assert(l >= w);
            assert(0 <= rem < w + s);
            lemma_fundamental_div_mod_converse(l - w, w + s, q, rem);
            assert(frame_count(l, w, s) == q + 1);
        }
    }
    out
}

/// One downmixed term: sample `x` scaled by the fixed gain 20 and divided
/// by the channel count, rounding toward zero.
pub open spec fn downmix_term(x: int, ch: int) -> int {
    if x >= 0 {
        x * 20 / ch
    } else {
        -((-x) * 20 / ch)
    }
}

/// Sum of the downmixed terms of the `cnt` samples starting at `start`.
pub open spec fn chunk_sum(frame: Seq<i64>, ch: int, start: int, cnt: int) -> int
    decreases cnt,
{
    if cnt <= 0 {
        0
    } else {
        chunk_sum(frame, ch, start, cnt - 1) + downmix_term(frame[start + cnt - 1] as int, ch)
    }
}

/// Number of samples in chunk `i` of a frame of `len` interleaved samples:
/// `ch` for every complete chunk, fewer for a trailing partial chunk.
pub open spec fn chunk_len(len: int, ch: int, i: int) -> int {
    if (i + 1) * ch <= len {
        ch
    } else {
        len - i * ch
    }
}

/// One executable downmix term: `x * 20 / ch`, rounding toward zero.
fn downmix_term_exec(x: i64, ch: u64) -> (r: i64)
    requires
        1 <= ch,
        -(VAL_LIMIT as int) <= x <= VAL_LIMIT,
    ensures
        r == downmix_term(x as int, ch as int),
        -(VAL_LIMIT as int * 20) <= r <= VAL_LIMIT as int * 20,
{
    if x >= 0 {
        let xu: u64 = x as u64;
        let qv: u64 = (xu * 20) / ch;
        proof {
            lemma_div_is_ordered(0, xu as int * 20, ch as int);
            lemma_div_nonincreasing(xu as int * 20, ch as int);
        }
        qv as i64
    } else {
        let xu: u64 = (-x) as u64;
        let qv: u64 = (xu * 20) / ch;
        proof {
            lemma_div_is_ordered(0, xu as int * 20, ch as int);
            lemma_div_nonincreasing(xu as int * 20, ch as int);
        }
        -(qv as i64)
    }
}

/// Downmix one interleaved window to mono: entry `i` of the result is the
/// sum over chunk `i` (one sample per channel) of `sample * 20 / ch`; the
/// tail beyond the last chunk stays zero, keeping the window length fixed.
pub fn downmix_window(frame: &Vec<i64>, n_channels: u16) -> (mono: Vec<i64>)
    requires
        n_channels >= 1,
        frame@.len() + n_channels < usize::MAX,
        forall|j: int| 0 <= j < frame@.len() ==> -(VAL_LIMIT as int) <= #[trigger] frame@[j] <= VAL_LIMIT,
    ensures
        mono@.len() == frame@.len(),
        forall|i: int|
            0 <= i < (frame@.len() + n_channels - 1) / (n_channels as int) ==> mono@[i]
                == chunk_sum(
                frame@,
                n_channels as int,
                i * (n_channels as int),
                chunk_len(frame@.len() as int, n_channels as int, i),
            ),
        forall|i: int|
            (frame@.len() + n_channels - 1) / (n_channels as int) <= i < mono@.len() ==> mono@[i]
                == 0,
        forall|i: int|
            0 <= i < mono@.len() ==> -(20 * (n_channels as int) * (VAL_LIMIT as int)) <= #[trigger] mono@[i]
                <= 20 * (n_channels as int) * (VAL_LIMIT as int),
{
    let len: usize = frame.len();
    let ch: usize = n_channels as usize;
    let ghost n_chunks: int = (len as int + ch as int - 1) / (ch as int);
    let mut mono: Vec<i64> = Vec::new();
    let mut filled: usize = 0;
    let mut start: usize = 0;
    let ghost mut chunk_idx: int = 0;
    while start < len
        invariant
            len == frame@.len(),
            ch == n_channels,
            ch >= 1,
            n_chunks == (len as int + ch as int - 1) / (ch as int),
            forall|j: int| 0 <= j < frame@.len() ==> -(VAL_LIMIT as int) <= #[trigger] frame@[j] <= VAL_LIMIT,
            len + ch < usize::MAX,
            start == chunk_idx * ch,
            0 <= chunk_idx <= len,
            filled <= start,
            start < len + ch,
            mono@.len() == chunk_idx,
            mono@.len() == filled,
            forall|i: int|
                0 <= i < chunk_idx ==> mono@[i] == chunk_sum(
                    frame@,
                    ch as int,
                    i * (ch as int),
                    chunk_len(len as int, ch as int, i),
                ),
            forall|i: int|
                0 <= i < mono@.len() ==> -(20 * (ch as int) * (VAL_LIMIT as int)) <= #[trigger] mono@[i]
                    <= 20 * (ch as int) * (VAL_LIMIT as int),
        decreases len + ch - start,
    {
        let cnt: usize = if start + ch <= len {
            ch
        } else {
            len - start
        };
        let mut acc: i64 = 0;
        let mut t: usize = 0;
        while t < cnt
            invariant
                len == frame@.len(),
                1 <= ch <= 65535,
                forall|j: int|
                    0 <= j < frame@.len() ==> -(VAL_LIMIT as int) <= #[trigger] frame@[j] <= VAL_LIMIT,
                start + cnt <= len,
                cnt <= ch,
                t <= cnt,
                acc == chunk_sum(frame@, ch as int, start as int, t as int),
                -((t as int) * (VAL_LIMIT as int * 20)) <= acc <= (t as int) * (
                VAL_LIMIT as int * 20),
            decreases cnt - t,
        {
            let x: i64 = frame[start + t];
            let term: i64 = downmix_term_exec(x, ch as u64);
            proof {
                assert((t as int + 1) * (VAL_LIMIT as int * 20) == t as int * (VAL_LIMIT as int
                    * 20) + VAL_LIMIT as int * 20) by (nonlinear_arith);
                assert(t as int * (VAL_LIMIT as int * 20) <= 65535 * (VAL_LIMIT as int * 20))
                    by (nonlinear_arith)
                    requires
                        0 <= t as int <= 65535,
                ;
                assert((t as int + 1) * (VAL_LIMIT as int * 20) <= 65536 * (VAL_LIMIT as int
                    * 20)) by (nonlinear_arith)
                    requires
                        0 <= t as int + 1 <= 65536,
                ;
            }
            acc = acc + term;
            t = t + 1;
        }
        proof {
            assert(chunk_len(len as int, ch as int, chunk_idx) == cnt as int) by {
                assert((chunk_idx + 1) * ch as int == chunk_idx * ch as int + ch as int)
                    by (nonlinear_arith);
            }
            assert(cnt as int * (VAL_LIMIT as int * 20) <= ch as int * (VAL_LIMIT as int * 20))
                by (nonlinear_arith)
                requires
                    cnt as int <= ch as int,
            ;
            assert(20 * (ch as int) * (VAL_LIMIT as int) == ch as int * (VAL_LIMIT as int * 20))
                by (nonlinear_arith);
        }
        mono.push(acc);
        proof {
            assert((chunk_idx + 1) * ch as int == chunk_idx * ch as int + ch as int)
                by (nonlinear_arith);
            assert(chunk_idx < len as int) by (nonlinear_arith)
                requires
                    chunk_idx * (ch as int) == start as int,
                    (start as int) < len as int,
                    ch as int >= 1,
                    chunk_idx >= 0,
            ;
            chunk_idx = chunk_idx + 1;
        }
        start = start + ch;
        filled = filled + 1;
    }
    proof {
        if len == 0 {
            assert(chunk_idx == 0) by (nonlinear_arith)
                requires
                    chunk_idx * (ch as int) == start as int,
                    (start as int) < ch as int,
                    chunk_idx >= 0,
                    ch as int >= 1,
            ;
            assert(n_chunks == 0) by {
                assert(0 * (ch as int) == 0) by (nonlinear_arith);
                assert((ch as int - 1) / (ch as int) == 0) by {
                    lemma_fundamental_div_mod_converse(ch as int - 1, ch as int, 0, ch as int - 1);
                }
            }
        } else {
            assert(chunk_idx == n_chunks) by {
                let q = chunk_idx - 1;
                let l = len as int;
                let c = ch as int;
                assert(q * c < l <= (q + 1) * c) by (nonlinear_arith)
                    requires
                        q + 1 == chunk_idx,
                        chunk_idx * c == start as int,
                        l <= (start as int) && (start as int) < l + c,
                ;
                let rem = l + c - 1 - q * c - c;
                assert((q + 1) * c == q * c + c) by (nonlinear_arith);
                assert(0 <= rem < c);
                assert(l + c - 1 == (q + 1) * c + rem) by (nonlinear_arith)
                    requires
                        rem == l + c - 1 - q * c - c,
                ;
                lemma_fundamental_div_mod_converse(l + c - 1, c, q + 1, rem);
            }
        }
    }
    let mut i: usize = filled;
    while i < len
        invariant
            len == frame@.len(),
            ch >= 1,
            mono@.len() == i,
            filled <= i <= len,
            0 <= n_chunks <= i,
            forall|m: int|
                0 <= m < n_chunks ==> mono@[m] == chunk_sum(
                    frame@,
                    ch as int,
                    m * (ch as int),
                    chunk_len(len as int, ch as int, m),
                ),
            forall|m: int| n_chunks <= m < mono@.len() ==> mono@[m] == 0,
            forall|m: int|
                0 <= m < mono@.len() ==> -(20 * (ch as int) * (VAL_LIMIT as int)) <= #[trigger] mono@[m]
                    <= 20 * (ch as int) * (VAL_LIMIT as int),
        decreases len - i,
    {
        mono.push(0);
        proof {
            assert forall|m: int| n_chunks <= m < mono@.len() implies mono@[m] == 0 by {
                if m == mono@.len() - 1 {
                    assert(mono@[m] == 0);
                } else {
                    assert(mono@[m] == 0);
                }
            }
        }
        i = i + 1;
    }
    mono
}

/// Assemble per-window spectra into a spectral matrix, validating the shape
/// and computing the global extrema in a single pass.
pub fn assemble_fft(rows: Vec<Vec<u64>>) -> (r: Result<FFT, FFTError>)
    ensures
        match r {
            Ok(fft) => {
                &&& rows@.len() >= 1
                &&& rows@[0]@.len() >= 1
                &&& forall|i: int| 0 <= i < rows@.len() ==> #[trigger] rows@[i]@.len() == rows@[0]@.len()
                &&& forall|i: int, j: int|
                    0 <= i < rows@.len() && 0 <= j < rows@[i]@.len() ==> rows@[i]@[j] <= VAL_LIMIT
                &&& fft.fft@ == rows@
                &&& fft.num_frames == rows@.len()
                &&& fft.num_bars == rows@[0]@.len()
                &&& is_min_of(rows@, fft.min)
                &&& is_max_of(rows@, fft.max)
                &&& fft.wf()
                &&& fft.in_range()
            },
            Err(FFTError::NoFrames) => rows@.len() == 0,
            Err(FFTError::NoBars) => rows@.len() >= 1 && rows@[0]@.len() == 0,
            Err(FFTError::RaggedRows) => {
                &&& rows@.len() >= 1
                &&& rows@[0]@.len() >= 1
                &&& exists|i: int| 0 <= i < rows@.len() && #[trigger] rows@[i]@.len() != rows@[0]@.len()
            },
            Err(FFTError::TooLarge) => {
                &&& rows@.len() >= 1
                &&& rows@[0]@.len() >= 1
                &&& forall|i: int| 0 <= i < rows@.len() ==> #[trigger] rows@[i]@.len() == rows@[0]@.len()
                &&& exists|i: int, j: int|
                    0 <= i < rows@.len() && 0 <= j < rows@[i]@.len() && rows@[i]@[j] > VAL_LIMIT
            },
        },
{
    let num_frames: usize = rows.len();
    if num_frames == 0 {
        return Err(FFTError::NoFrames);
    }
    let num_bars: usize = rows[0].len();
    if num_bars == 0 {
        return Err(FFTError::NoBars);
    }
    for i in 0..num_frames
        invariant
            num_frames == rows@.len(),
            num_bars == rows@[0]@.len(),
            num_frames >= 1,
            num_bars >= 1,
            forall|m: int| 0 <= m < i ==> rows@[m]@.len() == num_bars,
    {
        if rows[i].len() != num_bars {
            proof {
                assert(rows@[i as int]@.len() != rows@[0]@.len());
            }
            return Err(FFTError::RaggedRows);
        }
    }
    for i in 0..num_frames
        invariant
            num_frames == rows@.len(),
            num_bars == rows@[0]@.len(),
            num_frames >= 1,
            num_bars >= 1,
            forall|m: int| 0 <= m < num_frames ==> rows@[m]@.len() == num_bars,
            forall|m: int, j: int|
                0 <= m < i && 0 <= j < num_bars ==> rows@[m]@[j] <= VAL_LIMIT,
    {
        for j in 0..num_bars
            invariant
                num_frames == rows@.len(),
                num_bars == rows@[0]@.len(),
                num_frames >= 1,
                num_bars >= 1,
                i < num_frames,
                forall|m: int| 0 <= m < num_frames ==> rows@[m]@.len() == num_bars,
                forall|m: int, t: int|
                    0 <= m < i && 0 <= t < num_bars ==> rows@[m]@[t] <= VAL_LIMIT,
                forall|t: int| 0 <= t < j ==> rows@[i as int]@[t] <= VAL_LIMIT,
        {
            if rows[i][j] > VAL_LIMIT {
                return Err(FFTError::TooLarge);
            }
        }
    }
    let mut mn: u64 = rows[0][0];
    let mut mx: u64 = rows[0][0];
    let ghost mut wit_mn: (int, int) = (0int, 0int);
    let ghost mut wit_mx: (int, int) = (0int, 0int);
    for i in 0..num_frames
        invariant
            num_frames == rows@.len(),
            num_bars == rows@[0]@.len(),
            num_bars >= 1,
            forall|m: int| 0 <= m < num_frames ==> rows@[m]@.len() == num_bars,
            forall|m: int, t: int|
                0 <= m < num_frames && 0 <= t < num_bars ==> rows@[m]@[t] <= VAL_LIMIT,
            0 <= wit_mn.0 < num_frames && 0 <= wit_mn.1 < num_bars,
            0 <= wit_mx.0 < num_frames && 0 <= wit_mx.1 < num_bars,
            rows@[wit_mn.0]@[wit_mn.1] == mn,
            rows@[wit_mx.0]@[wit_mx.1] == mx,
            forall|m: int, t: int| 0 <= m < i && 0 <= t < num_bars ==> mn <= rows@[m]@[t],
            forall|m: int, t: int| 0 <= m < i && 0 <= t < num_bars ==> rows@[m]@[t] <= mx,
    {
        for j in 0..num_bars
            invariant
                num_frames == rows@.len(),
                num_bars == rows@[0]@.len(),
                num_bars >= 1,
                i < num_frames,
                forall|m: int| 0 <= m < num_frames ==> rows@[m]@.len() == num_bars,
                forall|m: int, t: int|
                    0 <= m < num_frames && 0 <= t < num_bars ==> rows@[m]@[t] <= VAL_LIMIT,
                0 <= wit_mn.0 < num_frames && 0 <= wit_mn.1 < num_bars,
                0 <= wit_mx.0 < num_frames && 0 <= wit_mx.1 < num_bars,
                rows@[wit_mn.0]@[wit_mn.1] == mn,
                rows@[wit_mx.0]@[wit_mx.1] == mx,
                forall|m: int, t: int| 0 <= m < i && 0 <= t < num_bars ==> mn <= rows@[m]@[t],
                forall|m: int, t: int| 0 <= m < i && 0 <= t < num_bars ==> rows@[m]@[t] <= mx,
                forall|t: int| 0 <= t < j ==> mn <= rows@[i as int]@[t],
                forall|t: int| 0 <= t < j ==> rows@[i as int]@[t] <= mx,
        {
            let val: u64 = rows[i][j];
            if val < mn {
                mn = val;
                proof {
                    wit_mn = (i as int, j as int);
                }
            }
            if val > mx {
                mx = val;
                proof {
                    wit_mx = (i as int, j as int);
                }
            }
        }
    }
    Ok(
        FFT {
            num_frames,
            num_bars,
            min: mn,
            max: mx,
            fft: rows,
        },
    )
}

} // verus!
