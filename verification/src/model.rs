//! The mathematical model of the pipeline: what a block of samples is, what
//! its two kinds of summary are, and what normalization does to a summary
//! sequence. Every executable function's contract is stated over these
//! definitions.

use vstd::prelude::*;

verus! {

/// Full scale of a normalized output: outputs of the magnitude pipeline lie
/// in `0 ..= WAVEFORM_SCALE`, outputs of the signed pipeline in
/// `-WAVEFORM_SCALE ..= WAVEFORM_SCALE`.
pub const WAVEFORM_SCALE: u64 = 1_000_000;

/// Fixed-point unit for per-block means: a mean of `m` is stored as
/// `floor(m * MEAN_ONE)`, so fractional means survive integer arithmetic.
pub const MEAN_ONE: u64 = 0x1_0000_0000;

/// The largest magnitude a decoded sample can have (`|i32::MIN|`).
pub const SAMPLE_MAGNITUDE_BOUND: u64 = 0x8000_0000;

/// Magnitude of a sample.
pub open spec fn abs_val(s: i32) -> int {
    if s < 0 {
        -(s as int)
    } else {
        s as int
    }
}

/// Sum of the magnitudes of `pcm[lo .. hi]`.
pub open spec fn sum_abs(pcm: Seq<i32>, lo: int, hi: int) -> int
    decreases hi - lo,
{
    if hi <= lo {
        0
    } else {
        sum_abs(pcm, lo, hi - 1) + abs_val(pcm[hi - 1])
    }
}

/// Mean magnitude of the block `pcm[lo .. hi]`, in fixed point: the exact
/// mean multiplied by `MEAN_ONE` and rounded down. An empty block has mean 0.
pub open spec fn block_mean_fp(pcm: Seq<i32>, lo: int, hi: int) -> int {
    if hi <= lo {
        0
    } else {
        (sum_abs(pcm, lo, hi) * (MEAN_ONE as int)) / (hi - lo)
    }
}

/// The sample of `pcm[lo .. hi]` with the greatest magnitude, keeping its
/// sign; on a tie the earliest such sample wins. An empty block yields 0.
pub open spec fn block_peak_val(pcm: Seq<i32>, lo: int, hi: int) -> i32
    decreases hi - lo,
{
    if hi <= lo {
        0
    } else if hi == lo + 1 {
        pcm[lo]
    } else {
        let p = block_peak_val(pcm, lo, hi - 1);
        if abs_val(pcm[hi - 1]) > abs_val(p) {
            pcm[hi - 1]
        } else {
            p
        }
    }
}

/// Number of output slots: `floor(duration * rate)` where the duration in
/// seconds is `frames / sample_rate`.
pub open spec fn target_count_int(frames: int, sample_rate: int, rate: int) -> int {
    (frames * rate) / sample_rate
}

/// `target_count_int` over the pipeline's machine types.
pub open spec fn target_count(frames: u64, sample_rate: u32, rate: u16) -> int {
    target_count_int(frames as int, sample_rate as int, rate as int)
}

/// Nominal width of a block, clamped to at least one sample.
pub open spec fn block_width(len: int, target: int) -> int {
    if len / target >= 1 {
        len / target
    } else {
        1
    }
}

/// Start of block `i` when `len` samples are split into `target` blocks.
pub open spec fn block_lo(len: int, target: int, i: int) -> int {
    let w = block_width(len, target);
    if i * w <= len {
        i * w
    } else {
        len
    }
}

/// End of block `i`: the last block absorbs the remainder, and a block that
/// would start past the end of the buffer is empty.
pub open spec fn block_hi(len: int, target: int, i: int) -> int {
    let w = block_width(len, target);
    if i == target - 1 {
        len
    } else if (i + 1) * w <= len {
        (i + 1) * w
    } else {
        len
    }
}

/// Greatest entry of a summary sequence (0 when the sequence is empty).
pub open spec fn seq_max(s: Seq<u64>) -> int
    decreases s.len(),
{
    if s.len() == 0 {
        0
    } else {
        let m = seq_max(s.drop_last());
        if (s.last() as int) > m {
            s.last() as int
        } else {
            m
        }
    }
}

/// Greatest magnitude among the entries of a signed summary sequence.
pub open spec fn seq_max_abs(s: Seq<i32>) -> int
    decreases s.len(),
{
    if s.len() == 0 {
        0
    } else {
        let m = seq_max_abs(s.drop_last());
        if abs_val(s.last()) > m {
            abs_val(s.last())
        } else {
            m
        }
    }
}

/// A summary rescaled by the global extremum `m`: `floor(v / m * WAVEFORM_SCALE)`.
pub open spec fn scaled_ratio(v: u64, m: int) -> int {
    ((v as int) * (WAVEFORM_SCALE as int)) / m
}

/// A signed summary rescaled by the global extremum of magnitudes,
/// rounding its magnitude down so the sign is never flipped.
pub open spec fn scaled_signed_ratio(v: i32, m: int) -> int {
    if v >= 0 {
        ((v as int) * (WAVEFORM_SCALE as int)) / m
    } else {
        -((abs_val(v) * (WAVEFORM_SCALE as int)) / m)
    }
}

/// The output rate used when the caller does not choose one.
pub const DEFAULT_SAMPLES_PER_SECOND: u16 = 100;

/// The output rate a call with an optional rate parameter runs at.
pub open spec fn resolved_rate(samples_per_second: Option<u16>) -> u16 {
    match samples_per_second {
        Some(r) => r,
        None => DEFAULT_SAMPLES_PER_SECOND,
    }
}

/// `i * w <= len` exactly when `i <= len / w`: lets a block start be compared
/// against the buffer length before the product is formed.
pub proof fn lemma_mul_le_iff_div(i: int, w: int, len: int)
    requires
        w >= 1,
        i >= 0,
        len >= 0,
    ensures
        i * w <= len <==> i <= len / w,
{
    vstd::arithmetic::div_mod::lemma_fundamental_div_mod(len, w);
    vstd::arithmetic::div_mod::lemma_mod_division_less_than_divisor(len, w);
    if i <= len / w {
        vstd::arithmetic::mul::lemma_mul_inequality(i, len / w, w);
        assert(w * (len / w) == (len / w) * w) by (nonlinear_arith);
    }
    if i * w <= len {
        vstd::arithmetic::div_mod::lemma_div_is_ordered(i * w, len, w);
        vstd::arithmetic::div_mod::lemma_div_multiples_vanish(i, w);
        assert(w * i == i * w) by (nonlinear_arith);
    }
}

/// Every block of a partition into `target` blocks is a well-formed range
/// within the buffer.
pub proof fn lemma_block_range(len: int, target: int, i: int)
    requires
        len >= 0,
        target >= 1,
        0 <= i < target,
    ensures
        0 <= block_lo(len, target, i) <= block_hi(len, target, i) <= len,
{
    let w = block_width(len, target);
    vstd::arithmetic::div_mod::lemma_div_pos_is_pos(len, target);
    vstd::arithmetic::mul::lemma_mul_nonnegative(i, w);
    vstd::arithmetic::mul::lemma_mul_inequality(i, i + 1, w);
}

/// A sum of magnitudes is non-negative and at most the block's width times
/// the largest possible magnitude.
pub proof fn lemma_sum_abs_bounds(pcm: Seq<i32>, lo: int, hi: int)
    requires
        lo <= hi,
    ensures
        0 <= sum_abs(pcm, lo, hi) <= (hi - lo) * (SAMPLE_MAGNITUDE_BOUND as int),
    decreases hi - lo,
{
    if hi > lo {
        lemma_sum_abs_bounds(pcm, lo, hi - 1);
        assert((hi - lo) * (SAMPLE_MAGNITUDE_BOUND as int) == (hi - 1 - lo) * (
        SAMPLE_MAGNITUDE_BOUND as int) + SAMPLE_MAGNITUDE_BOUND) by (nonlinear_arith);
    }
}

/// A fixed-point block mean lies between 0 and full scale times the
/// fixed-point unit, so it always fits in 64 bits.
pub proof fn lemma_block_mean_fp_bounds(pcm: Seq<i32>, lo: int, hi: int)
    requires
        lo <= hi,
    ensures
        0 <= block_mean_fp(pcm, lo, hi) <= (SAMPLE_MAGNITUDE_BOUND as int) * (MEAN_ONE as int),
{
    if hi > lo {
        let n = hi - lo;
        let s = sum_abs(pcm, lo, hi);
        lemma_sum_abs_bounds(pcm, lo, hi);
        vstd::arithmetic::div_mod::lemma_div_pos_is_pos(s * (MEAN_ONE as int), n);
        assert(s * (MEAN_ONE as int) <= n * ((SAMPLE_MAGNITUDE_BOUND as int) * (MEAN_ONE as int)))
            by (nonlinear_arith)
            requires s <= n * (SAMPLE_MAGNITUDE_BOUND as int);
        vstd::arithmetic::div_mod::lemma_multiply_divide_le(
            s * (MEAN_ONE as int),
            n,
            (SAMPLE_MAGNITUDE_BOUND as int) * (MEAN_ONE as int),
        );
    }
}

/// The block peak is one of the block's samples.
pub proof fn lemma_block_peak_in_block(pcm: Seq<i32>, lo: int, hi: int)
    requires
        lo < hi,
    ensures
        exists|j: int| lo <= j < hi && pcm[j] == block_peak_val(pcm, lo, hi),
    decreases hi - lo,
{
    if hi == lo + 1 {
        assert(pcm[lo] == block_peak_val(pcm, lo, hi));
    } else {
        lemma_block_peak_in_block(pcm, lo, hi - 1);
        if abs_val(pcm[hi - 1]) > abs_val(block_peak_val(pcm, lo, hi - 1)) {
            assert(pcm[hi - 1] == block_peak_val(pcm, lo, hi));
        }
    }
}

/// No entry of a sequence exceeds its maximum, and the maximum is never
/// negative.
pub proof fn lemma_seq_max_ge(s: Seq<u64>, i: int)
    requires
        0 <= i < s.len(),
    ensures
        s[i] as int <= seq_max(s),
        0 <= seq_max(s),
    decreases s.len(),
{
    if i < s.len() - 1 {
        lemma_seq_max_ge(s.drop_last(), i);
    } else if s.len() > 1 {
        lemma_seq_max_ge(s.drop_last(), 0);
    }
}

/// A non-empty sequence attains its maximum at some index.
pub proof fn lemma_seq_max_attained(s: Seq<u64>)
    requires
        s.len() > 0,
    ensures
        exists|i: int| 0 <= i < s.len() && s[i] as int == seq_max(s),
    decreases s.len(),
{
    if s.len() == 1 || (s.last() as int) > seq_max(s.drop_last()) {
        if s.len() == 1 {
            assert(seq_max(s.drop_last()) == 0);
            lemma_seq_max_ge(s, 0);
        }
        assert(s[s.len() - 1] as int == seq_max(s));
    } else {
        lemma_seq_max_attained(s.drop_last());
        let j = choose|i: int|
            0 <= i < s.drop_last().len() && s.drop_last()[i] as int == seq_max(s.drop_last());
        assert(s[j] as int == seq_max(s));
    }
}

/// No entry's magnitude exceeds the sequence's maximum magnitude.
pub proof fn lemma_seq_max_abs_ge(s: Seq<i32>, i: int)
    requires
        0 <= i < s.len(),
    ensures
        abs_val(s[i]) <= seq_max_abs(s),
        0 <= seq_max_abs(s),
    decreases s.len(),
{
    if i < s.len() - 1 {
        lemma_seq_max_abs_ge(s.drop_last(), i);
    } else if s.len() > 1 {
        lemma_seq_max_abs_ge(s.drop_last(), 0);
    }
}

/// A non-empty signed sequence attains its maximum magnitude at some index.
pub proof fn lemma_seq_max_abs_attained(s: Seq<i32>)
    requires
        s.len() > 0,
    ensures
        exists|i: int| 0 <= i < s.len() && abs_val(s[i]) == seq_max_abs(s),
    decreases s.len(),
{
    if s.len() == 1 || abs_val(s.last()) > seq_max_abs(s.drop_last()) {
        if s.len() == 1 {
            assert(seq_max_abs(s.drop_last()) == 0);
            lemma_seq_max_abs_ge(s, 0);
        }
        assert(abs_val(s[s.len() - 1]) == seq_max_abs(s));
    } else {
        lemma_seq_max_abs_attained(s.drop_last());
        let j = choose|i: int|
            0 <= i < s.drop_last().len() && abs_val(s.drop_last()[i]) == seq_max_abs(
                s.drop_last(),
            );
        assert(abs_val(s[j]) == seq_max_abs(s));
    }
}

/// Rescaling a summary that does not exceed the extremum keeps it within
/// full scale, and the extremum itself lands exactly on full scale.
pub proof fn lemma_scaled_ratio_bounds(v: u64, m: int)
    requires
        1 <= m,
        v as int <= m,
    ensures
        0 <= scaled_ratio(v, m) <= WAVEFORM_SCALE as int,
        v as int == m ==> scaled_ratio(v, m) == WAVEFORM_SCALE as int,
{
    let scale = WAVEFORM_SCALE as int;
    vstd::arithmetic::div_mod::lemma_div_pos_is_pos((v as int) * scale, m);
    vstd::arithmetic::mul::lemma_mul_inequality(v as int, m, scale);
    assert(m * scale == scale * m) by (nonlinear_arith);
    vstd::arithmetic::div_mod::lemma_multiply_divide_le((v as int) * scale, m, scale);
    if v as int == m {
        vstd::arithmetic::div_mod::lemma_div_multiples_vanish(scale, m);
        assert((v as int) * scale == m * scale) by (nonlinear_arith)
            requires v as int == m;
    }
}

/// The signed counterpart of `lemma_scaled_ratio_bounds`: magnitudes stay
/// within full scale, the extremum's magnitude lands exactly on it, and the
/// sign of the input is kept (or the output is zero).
pub proof fn lemma_scaled_signed_ratio_bounds(v: i32, m: int)
    requires
        1 <= m,
        abs_val(v) <= m,
    ensures
        -(WAVEFORM_SCALE as int) <= scaled_signed_ratio(v, m) <= WAVEFORM_SCALE as int,
        abs_val(v) == m ==> scaled_signed_ratio(v, m) == if v >= 0 {
            WAVEFORM_SCALE as int
        } else {
            -(WAVEFORM_SCALE as int)
        },
        v > 0 ==> scaled_signed_ratio(v, m) >= 0,
        v < 0 ==> scaled_signed_ratio(v, m) <= 0,
        v == 0 ==> scaled_signed_ratio(v, m) == 0,
{
    let scale = WAVEFORM_SCALE as int;
    let a = abs_val(v);
    vstd::arithmetic::div_mod::lemma_div_pos_is_pos(a * scale, m);
    vstd::arithmetic::mul::lemma_mul_inequality(a, m, scale);
    assert(m * scale == scale * m) by (nonlinear_arith);
    vstd::arithmetic::div_mod::lemma_multiply_divide_le(a * scale, m, scale);
    if a == m {
        vstd::arithmetic::div_mod::lemma_div_multiples_vanish(scale, m);
        assert(a * scale == m * scale) by (nonlinear_arith)
            requires a == m;
    }
    if v == 0 {
        assert(a * scale == 0) by (nonlinear_arith)
            requires a == 0;
        vstd::arithmetic::div_mod::lemma_div_of0(m);
    }
}

} // verus!
