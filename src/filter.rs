//! Moving-average smoothing over a frame of signed samples, the mean absolute
//! amplitude of a frame, and the threshold decision made from it.
use vstd::prelude::*;

verus! {

/// Number of samples in one captured frame.
pub const FRAME_LEN: usize = 256;

/// Full width of the moving-average window over a frame.
pub const MOVING_AVERAGE_WINDOW: usize = 32;

/// Half of the moving-average window: taps on each side of the centre.
pub const HALF_WINDOW: usize = 16;

/// Amplitude above which sound counts as present.
pub const SOUND_THRESHOLD: i32 = 50;

/// Sum of `s[lo..hi]` as a mathematical integer.
pub open spec fn sum_range(s: Seq<i16>, lo: int, hi: int) -> int
    decreases hi - lo,
{
    if hi <= lo {
        0
    } else {
        sum_range(s, lo, hi - 1) + s[hi - 1] as int
    }
}

/// Division that truncates toward zero, as Rust's integer `/` does.
pub open spec fn trunc_div(a: int, b: int) -> int {
    if a >= 0 {
        a / b
    } else {
        -((-a) / b)
    }
}

/// First index of the truncated window centred on `i`.
pub open spec fn window_lo(i: int, half_window: int) -> int {
    if i >= half_window {
        i - half_window
    } else {
        0
    }
}

/// Last index (inclusive) of the truncated window centred on `i`.
pub open spec fn window_hi(len: int, i: int, half_window: int) -> int {
    if i + half_window <= len - 1 {
        i + half_window
    } else {
        len - 1
    }
}

/// Smoothed value at index `i`: the truncating average of the samples of the
/// window `[max(0, i - hw), min(len - 1, i + hw)]`.
pub open spec fn smooth_at(s: Seq<i16>, half_window: int, i: int) -> int {
    let lo = window_lo(i, half_window);
    let hi = window_hi(s.len() as int, i, half_window);
    trunc_div(sum_range(s, lo, hi + 1), hi + 1 - lo)
}

/// Sum of the absolute values of `s[0..n]`.
pub open spec fn abs_sum(s: Seq<i16>, n: int) -> int
    decreases n,
{
    if n <= 0 {
        0
    } else {
        abs_sum(s, n - 1) + if s[n - 1] < 0 {
            -(s[n - 1] as int)
        } else {
            s[n - 1] as int
        }
    }
}

/// Mean absolute value of the samples, truncated.
pub open spec fn amplitude_of(s: Seq<i16>) -> int {
    abs_sum(s, s.len() as int) / (s.len() as int)
}

proof fn lemma_trunc_div_bounds(a: int, n: int)
    requires
        n > 0,
        -32768 * n <= a <= 32767 * n,
    ensures
        -32768 <= trunc_div(a, n) <= 32767,
{
    if a >= 0 {
        assert(a / n <= 32767) by (nonlinear_arith)
            requires
                a <= 32767 * n,
                n > 0,
                a >= 0,
        ;
        assert(a / n >= 0) by (nonlinear_arith)
            requires
                n > 0,
                a >= 0,
        ;
    } else {
        let b = -a;
        assert(b / n <= 32768) by (nonlinear_arith)
            requires
                b <= 32768 * n,
                n > 0,
                b >= 0,
        ;
        assert(b / n >= 0) by (nonlinear_arith)
            requires
                n > 0,
                b >= 0,
        ;
    }
}

/// Truncating average over `frame[lo..=hi]`.
fn window_average(frame: &[i16], lo: usize, hi: usize) -> (r: i16)
    requires
        lo <= hi < frame@.len(),
        frame@.len() <= u32::MAX,
    ensures
        r as int == trunc_div(sum_range(frame@, lo as int, hi + 1), hi + 1 - lo),
{
    let mut sum: i64 = 0;
    let mut j: usize = lo;
    while j <= hi
        invariant
            lo <= j <= hi + 1,
            hi < frame@.len() <= u32::MAX,
            sum as int == sum_range(frame@, lo as int, j as int),
            -32768 * (j - lo) <= sum <= 32767 * (j - lo),
        decreases hi + 1 - j,
    {
        sum = sum + frame[j] as i64;
        j = j + 1;
    }
    let n: i64 = (hi - lo + 1) as i64;
    proof {
        lemma_trunc_div_bounds(sum as int, n as int);
    }
    if sum >= 0 {
        ((sum as u64) / (n as u64)) as i16
    } else {
        let q: u64 = ((-sum) as u64) / (n as u64);
        (-(q as i64)) as i16
    }
}

/// Smooths `frame` with a truncated moving-average window of `half_window`
/// taps on each side: output `i` is the truncating average of the samples
/// `[max(0, i - half_window), min(len - 1, i + half_window)]`.
pub fn smooth(frame: &[i16], half_window: usize) -> (r: Vec<i16>)
    requires
        frame@.len() <= u32::MAX,
    ensures
        r@.len() == frame@.len(),
        forall|i: int|
            0 <= i < frame@.len() ==> #[trigger] r@[i] as int == smooth_at(
                frame@,
                half_window as int,
                i,
            ),
{
    let len = frame.len();
    let mut out: Vec<i16> = Vec::with_capacity(len);
    let mut i: usize = 0;
    while i < len
        invariant
            len == frame@.len() <= u32::MAX,
            i <= len,
            out@.len() == i,
            forall|k: int|
                0 <= k < i ==> #[trigger] out@[k] as int == smooth_at(
                    frame@,
                    half_window as int,
                    k,
                ),
        decreases len - i,
    {
        let lo: usize = if i >= half_window {
            i - half_window
        } else {
            0
        };
        let hi: usize = if half_window <= len - 1 - i {
            i + half_window
        } else {
            len - 1
        };
        let v = window_average(frame, lo, hi);
        out.push(v);
        i = i + 1;
    }
    out
}

/// Smooths a captured frame with the fixed window of the pipeline.
pub fn moving_average(samples: &[i16]) -> (r: Vec<i16>)
    requires
        samples@.len() == FRAME_LEN,
    ensures
        r@.len() == FRAME_LEN,
        forall|i: int|
            0 <= i < FRAME_LEN ==> #[trigger] r@[i] as int == smooth_at(
                samples@,
                HALF_WINDOW as int,
                i,
            ),
{
    smooth(samples, HALF_WINDOW)
}

/// Mean of the absolute values of the samples, with truncating division by
/// the frame length.
pub fn amplitude(frame: &[i16]) -> (r: i32)
    requires
        0 < frame@.len() <= u32::MAX,
    ensures
        r as int == amplitude_of(frame@),
        r >= 0,
{
    let len = frame.len();
    let mut sum: u64 = 0;
    let mut i: usize = 0;
    while i < len
        invariant
            len == frame@.len() <= u32::MAX,
            i <= len,
            sum as int == abs_sum(frame@, i as int),
            sum <= 32768 * i,
        decreases len - i,
    {
        let s = frame[i];
        let a: u64 = if s < 0 {
            (-(s as i32)) as u64
        } else {
            s as u64
        };
        sum = sum + a;
        i = i + 1;
    }
    let q: u64 = sum / (len as u64);
    assert(q <= 32768) by (nonlinear_arith)
        requires
            q == sum / (len as u64),
            sum <= 32768 * len,
            len > 0,
    ;
    q as i32
}

/// Mean absolute amplitude of a captured frame.
pub fn calculate_average_amplitude(samples: &[i16]) -> (r: i32)
    requires
        samples@.len() == FRAME_LEN,
    ensures
        r as int == amplitude_of(samples@),
        r >= 0,
{
    amplitude(samples)
}

/// Outcome of the threshold test on a smoothed frame.
#[derive(Clone, Copy, Debug, PartialEq, Eq, Structural)]
pub struct Decision {
    /// Mean absolute amplitude of the smoothed frame; never negative.
    pub amplitude: i32,
    /// Whether the amplitude lies strictly above the threshold.
    pub active: bool,
}

/// Reduces a smoothed frame to its amplitude and compares that amplitude
/// with `threshold`.
pub fn decide(smoothed: &[i16], threshold: i32) -> (r: Decision)
    requires
        0 < smoothed@.len() <= u32::MAX,
    ensures
        r.amplitude as int == amplitude_of(smoothed@),
        r.amplitude >= 0,
        r.active == (r.amplitude > threshold),
{
    let a = amplitude(smoothed);
    Decision { amplitude: a, active: a > threshold }
}

/// The smoothed frame: `smooth_at` at every index, with the given half-window.
pub open spec fn smoothed(s: Seq<i16>, half_window: int) -> Seq<i16> {
    Seq::new(s.len(), |i: int| smooth_at(s, half_window, i) as i16)
}

/// Decision reached on a frame of samples: smoothing with the fixed window,
/// then the amplitude compared with `SOUND_THRESHOLD`.
pub open spec fn frame_decision(s: Seq<i16>) -> Decision {
    let a = amplitude_of(smoothed(s, HALF_WINDOW as int));
    Decision { amplitude: a as i32, active: a > SOUND_THRESHOLD }
}

/// The whole per-frame pipeline: smoothing with the fixed window, then the
/// threshold decision against the fixed sound threshold.
pub fn process_frame(samples: &[i16]) -> (r: Decision)
    requires
        samples@.len() == FRAME_LEN,
    ensures
        r == frame_decision(samples@),
        r.amplitude >= 0,
{
    let sm = moving_average(samples);
    assert(sm@ =~= smoothed(samples@, HALF_WINDOW as int));
    decide(&sm, SOUND_THRESHOLD)
}

proof fn lemma_sum_constant(s: Seq<i16>, lo: int, hi: int, v: i16)
    requires
        0 <= lo <= hi <= s.len(),
        forall|k: int| 0 <= k < s.len() ==> s[k] == v,
    ensures
        sum_range(s, lo, hi) == (v as int) * (hi - lo),
    decreases hi - lo,
{
    let w = v as int;
    if hi > lo {
        lemma_sum_constant(s, lo, hi - 1, v);
        assert(s[hi - 1] == v);
        assert(sum_range(s, lo, hi) == sum_range(s, lo, hi - 1) + w);
        assert(w * (hi - 1 - lo) + w == w * (hi - lo)) by (nonlinear_arith);
    } else {
        assert(w * (hi - lo) == 0) by (nonlinear_arith)
            requires
                hi == lo,
        ;
    }
}

proof fn lemma_trunc_div_multiple(v: int, n: int)
    requires
        n > 0,
    ensures
        trunc_div(v * n, n) == v,
{
    if v >= 0 {
        assert(v * n >= 0) by (nonlinear_arith)
            requires
                v >= 0,
                n > 0,
        ;
        assert((v * n) / n == v) by (nonlinear_arith)
            requires
                n > 0,
        ;
    } else {
        assert(v * n < 0) by (nonlinear_arith)
            requires
                v < 0,
                n > 0,
        ;
        assert(-(v * n) == (-v) * n) by (nonlinear_arith);
        assert(((-v) * n) / n == -v) by (nonlinear_arith)
            requires
                n > 0,
        ;
    }
}

/// Smoothing a constant frame gives the same constant at every index, for
/// every half-window.
pub proof fn lemma_smooth_constant(s: Seq<i16>, half_window: nat, v: i16)
    requires
        forall|k: int| 0 <= k < s.len() ==> s[k] == v,
    ensures
        forall|i: int| 0 <= i < s.len() ==> #[trigger] smooth_at(s, half_window as int, i) == v,
{
    assert forall|i: int| 0 <= i < s.len() implies #[trigger] smooth_at(
        s,
        half_window as int,
        i,
    ) == v by {
        let lo = window_lo(i, half_window as int);
        let hi = window_hi(s.len() as int, i, half_window as int);
        lemma_sum_constant(s, lo, hi + 1, v);
        lemma_trunc_div_multiple(v as int, hi + 1 - lo);
    }
}

/// With a frame of `FRAME_LEN` samples and a half-window of 16, an interior
/// output is the truncating average of the 33 samples centred on it, and the
/// first output is the truncating average of the first 17 samples.
pub proof fn lemma_smooth_interior(s: Seq<i16>)
    requires
        s.len() == FRAME_LEN,
    ensures
        forall|i: int|
            16 <= i <= 239 ==> #[trigger] smooth_at(s, HALF_WINDOW as int, i) == trunc_div(
                sum_range(s, i - 16, i + 17),
                33,
            ),
        smooth_at(s, HALF_WINDOW as int, 0) == trunc_div(sum_range(s, 0, 17), 17),
{
}

proof fn lemma_abs_sum_nonneg(s: Seq<i16>, n: int)
    ensures
        abs_sum(s, n) >= 0,
    decreases n,
{
    if n > 0 {
        lemma_abs_sum_nonneg(s, n - 1);
    }
}

proof fn lemma_abs_sum_zero(s: Seq<i16>, n: int)
    requires
        0 <= n <= s.len(),
        forall|k: int| 0 <= k < s.len() ==> s[k] == 0,
    ensures
        abs_sum(s, n) == 0,
    decreases n,
{
    if n > 0 {
        lemma_abs_sum_zero(s, n - 1);
    }
}

/// The amplitude of a frame is never negative, and it is zero exactly when
/// every sample is zero, for frames that are all zero or whose absolute
/// values add up to at least the frame length (below that, truncation also
/// gives zero for a frame with small nonzero samples).
pub proof fn lemma_amplitude_zero_iff_silent(s: Seq<i16>)
    requires
        s.len() > 0,
        (forall|k: int| 0 <= k < s.len() ==> s[k] == 0) || abs_sum(s, s.len() as int) >= s.len(),
    ensures
        amplitude_of(s) >= 0,
        amplitude_of(s) == 0 <==> (forall|k: int| 0 <= k < s.len() ==> s[k] == 0),
{
    let n = s.len() as int;
    let t = abs_sum(s, n);
    lemma_abs_sum_nonneg(s, n);
    assert(t / n >= 0) by (nonlinear_arith)
        requires
            t >= 0,
            n > 0,
    ;
    if forall|k: int| 0 <= k < s.len() ==> s[k] == 0 {
        lemma_abs_sum_zero(s, n);
    } else {
        assert(t / n >= 1) by (nonlinear_arith)
            requires
                t >= n,
                n > 0,
        ;
    }
}

/// The amplitude of any frame is never negative.
pub proof fn lemma_amplitude_nonneg(s: Seq<i16>)
    requires
        s.len() > 0,
    ensures
        amplitude_of(s) >= 0,
{
    let n = s.len() as int;
    let t = abs_sum(s, n);
    lemma_abs_sum_nonneg(s, n);
    assert(t / n >= 0) by (nonlinear_arith)
        requires
            t >= 0,
            n > 0,
    ;
}

} // verus!
