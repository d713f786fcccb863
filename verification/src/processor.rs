//! The summarization stages: splitting the PCM buffer into blocks, reducing
//! each block to one scalar (mean magnitude or signed peak), and normalizing
//! the scalars by the sequence's extremum. Block reduction is farmed out to
//! a thread pool; every per-block value is computed by a verified function
//! and written back at its own index, so the output order is deterministic.

use vstd::prelude::*;

use rayon::iter::IntoParallelRefIterator;
use rayon::iter::ParallelIterator;

use crate::decode::WaveformError;
use crate::model;
use crate::model::MEAN_ONE;
use crate::model::SAMPLE_MAGNITUDE_BOUND;
use crate::model::WAVEFORM_SCALE;

verus! {

/// Magnitude of one sample, exact even for `i32::MIN`.
fn sample_abs(s: i32) -> (r: u64)
    ensures
        r as int == model::abs_val(s),
{
    if s < 0 {
        (-(s as i64)) as u64
    } else {
        s as u64
    }
}

/// Mean magnitude of `pcm[lo .. hi]` in fixed point
/// (`floor(mean * MEAN_ONE)`); 0 for an empty block.
pub fn block_mean(pcm: &Vec<i32>, lo: usize, hi: usize) -> (r: u64)
    requires
        lo <= hi <= pcm@.len(),
    ensures
        r as int == model::block_mean_fp(pcm@, lo as int, hi as int),
{
    if hi == lo {
        return 0u64;
    }
    let mut sum: u128 = 0;
    let mut j: usize = lo;
    while j < hi
        invariant
            lo <= j <= hi <= pcm@.len(),
            sum == model::sum_abs(pcm@, lo as int, j as int),
            sum <= (j - lo) * (SAMPLE_MAGNITUDE_BOUND as int),
        decreases hi - j,
    {
        let a = sample_abs(pcm[j]);
        proof {
            assert((j + 1 - lo) * (SAMPLE_MAGNITUDE_BOUND as int) == (j - lo) * (
            SAMPLE_MAGNITUDE_BOUND as int) + SAMPLE_MAGNITUDE_BOUND) by (nonlinear_arith);
        }
        sum = sum + a as u128;
        j = j + 1;
    }
    let count = (hi - lo) as u128;
    proof {
        assert(sum * (MEAN_ONE as int) <= u128::MAX as int) by (nonlinear_arith)
            requires
                sum <= ((hi - lo) as int) * (SAMPLE_MAGNITUDE_BOUND as int) && (hi - lo) as int
                    <= u64::MAX as int;
    }
    let mean = sum * (MEAN_ONE as u128) / count;
    proof {
        let n = hi as int - lo as int;
        let s = model::sum_abs(pcm@, lo as int, hi as int);
        model::lemma_block_mean_fp_bounds(pcm@, lo as int, hi as int);
        vstd::arithmetic::div_mod::lemma_div_pos_is_pos(s * (MEAN_ONE as int), n);
        assert(s * (MEAN_ONE as int) <= n * ((SAMPLE_MAGNITUDE_BOUND as int) * (MEAN_ONE as int)))
            by (nonlinear_arith)
            requires s <= n * (SAMPLE_MAGNITUDE_BOUND as int), n >= 1;
        vstd::arithmetic::div_mod::lemma_multiply_divide_le(
            s * (MEAN_ONE as int),
            n,
            (SAMPLE_MAGNITUDE_BOUND as int) * (MEAN_ONE as int),
        );
    }
    mean as u64
}

/// The sample of `pcm[lo .. hi]` with the greatest magnitude, keeping its
/// sign; the earliest on a tie, 0 for an empty block.
pub fn block_peak(pcm: &Vec<i32>, lo: usize, hi: usize) -> (r: i32)
    requires
        lo <= hi <= pcm@.len(),
    ensures
        r == model::block_peak_val(pcm@, lo as int, hi as int),
{
    if hi == lo {
        return 0i32;
    }
    let mut cur = pcm[lo];
    let mut j: usize = lo + 1;
    while j < hi
        invariant
            lo < j <= hi <= pcm@.len(),
            cur == model::block_peak_val(pcm@, lo as int, j as int),
        decreases hi - j,
    {
        let c = pcm[j];
        if sample_abs(c) > sample_abs(cur) {
            cur = c;
        }
        j = j + 1;
    }
    cur
}

/// The `(start, end)` index pair of every block: `target` contiguous,
/// non-overlapping ranges that cover `0 .. len`, the last one absorbing the
/// remainder, and ranges past the end of the buffer empty.
fn block_bounds(len: usize, target: usize) -> (r: Vec<(usize, usize)>)
    requires
        1 <= target,
    ensures
        r@.len() == target,
        forall|k: int|
            0 <= k < target ==> (#[trigger] r@[k]).0 as int == model::block_lo(
                len as int,
                target as int,
                k,
            ) && r@[k].1 as int == model::block_hi(len as int, target as int, k) && r@[k].0
                <= r@[k].1 <= len,
{
    let w: usize = if len / target >= 1 {
        len / target
    } else {
        1
    };
    let q = len / w;
    let mut bounds: Vec<(usize, usize)> = Vec::new();
    let mut i: usize = 0;
    while i < target
        invariant
            1 <= target,
            1 <= w,
            w as int == model::block_width(len as int, target as int),
            q == len as int / w as int,
            bounds@.len() == i,
            i <= target,
            forall|k: int|
                0 <= k < i ==> (#[trigger] bounds@[k]).0 as int == model::block_lo(
                    len as int,
                    target as int,
                    k,
                ) && bounds@[k].1 as int == model::block_hi(len as int, target as int, k)
                    && bounds@[k].0 <= bounds@[k].1 <= len,
        decreases target - i,
    {
        proof {
            model::lemma_mul_le_iff_div(i as int, w as int, len as int);
            model::lemma_mul_le_iff_div(i as int + 1, w as int, len as int);
            vstd::arithmetic::mul::lemma_mul_inequality(i as int, i as int + 1, w as int);
        }
        let start: usize = if i <= q {
            i * w
        } else {
            len
        };
        let stop: usize = if i == target - 1 {
            len
        } else if i + 1 <= q {
            (i + 1) * w
        } else {
            len
        };
        bounds.push((start, stop));
        i = i + 1;
    }
    bounds
}

/// Relies on rayon: `par_iter().map(f).collect()` on a `Vec` yields one
/// output per input, in input order, each the closure's result on the entry
/// at the same index. The closure is the verified `block_mean`, so the
/// contract restates that function's postcondition entry-wise.
#[verifier::external_body]
fn par_block_means(pcm: &Vec<i32>, bounds: &Vec<(usize, usize)>) -> (r: Vec<u64>)
    requires
        forall|k: int|
            0 <= k < bounds@.len() ==> (#[trigger] bounds@[k]).0 <= bounds@[k].1 <= pcm@.len(),
    ensures
        r@.len() == bounds@.len(),
        forall|k: int|
            0 <= k < bounds@.len() ==> (#[trigger] r@[k]) as int == model::block_mean_fp(
                pcm@,
                bounds@[k].0 as int,
                bounds@[k].1 as int,
            ),
{
    bounds.par_iter().map(|&(lo, hi)| block_mean(pcm, lo, hi)).collect()
}

/// Relies on rayon: `par_iter().map(f).collect()` on a `Vec` yields one
/// output per input, in input order, each the closure's result on the entry
/// at the same index. The closure is the verified `block_peak`, so the
/// contract restates that function's postcondition entry-wise.
#[verifier::external_body]
fn par_block_peaks(pcm: &Vec<i32>, bounds: &Vec<(usize, usize)>) -> (r: Vec<i32>)
    requires
        forall|k: int|
            0 <= k < bounds@.len() ==> (#[trigger] bounds@[k]).0 <= bounds@[k].1 <= pcm@.len(),
    ensures
        r@.len() == bounds@.len(),
        forall|k: int|
            0 <= k < bounds@.len() ==> (#[trigger] r@[k]) == model::block_peak_val(
                pcm@,
                bounds@[k].0 as int,
                bounds@[k].1 as int,
            ),
{
    bounds.par_iter().map(|&(lo, hi)| block_peak(pcm, lo, hi)).collect()
}

/// Reduces the PCM buffer to one fixed-point mean magnitude per output slot.
/// The number of slots is `floor(duration * rate)` where the duration in
/// seconds is `frames / sample_rate`.
pub fn filter_data(
    audio_buffer: &Vec<i32>,
    frames: u64,
    sample_rate: u32,
    samples_per_second: Option<u16>,
) -> (r: Vec<u64>)
    requires
        1 <= sample_rate,
        model::target_count(frames, sample_rate, model::resolved_rate(samples_per_second))
            <= usize::MAX as int,
    ensures
        r@.len() == model::target_count(
            frames,
            sample_rate,
            model::resolved_rate(samples_per_second),
        ),
        forall|k: int|
            0 <= k < r@.len() ==> (#[trigger] r@[k]) as int == model::block_mean_fp(
                audio_buffer@,
                model::block_lo(audio_buffer@.len() as int, r@.len() as int, k),
                model::block_hi(audio_buffer@.len() as int, r@.len() as int, k),
            ),
{
    let rate: u16 = match samples_per_second {
        Some(r) => r,
        None => model::DEFAULT_SAMPLES_PER_SECOND,
    };
    proof {
        assert((frames as int) * (rate as int) <= u128::MAX as int) by (nonlinear_arith)
            requires
                frames <= u64::MAX && rate <= u16::MAX;
    }
    let target128: u128 = (frames as u128) * (rate as u128) / (sample_rate as u128);
    let target = target128 as usize;
    if target == 0 {
        return Vec::new();
    }
    let bounds = block_bounds(audio_buffer.len(), target);
    par_block_means(audio_buffer, &bounds)
}

/// Reduces the PCM buffer to one signed peak sample per output slot, under
/// the same partition as `filter_data`.
pub fn filter_data_v2(
    audio_buffer: &Vec<i32>,
    frames: u64,
    sample_rate: u32,
    samples_per_second: Option<u16>,
) -> (r: Vec<i32>)
    requires
        1 <= sample_rate,
        model::target_count(frames, sample_rate, model::resolved_rate(samples_per_second))
            <= usize::MAX as int,
    ensures
        r@.len() == model::target_count(
            frames,
            sample_rate,
            model::resolved_rate(samples_per_second),
        ),
        forall|k: int|
            0 <= k < r@.len() ==> (#[trigger] r@[k]) == model::block_peak_val(
                audio_buffer@,
                model::block_lo(audio_buffer@.len() as int, r@.len() as int, k),
                model::block_hi(audio_buffer@.len() as int, r@.len() as int, k),
            ),
{
    let rate: u16 = match samples_per_second {
        Some(r) => r,
        None => model::DEFAULT_SAMPLES_PER_SECOND,
    };
    proof {
        assert((frames as int) * (rate as int) <= u128::MAX as int) by (nonlinear_arith)
            requires
                frames <= u64::MAX && rate <= u16::MAX;
    }
    let target128: u128 = (frames as u128) * (rate as u128) / (sample_rate as u128);
    let target = target128 as usize;
    if target == 0 {
        return Vec::new();
    }
    let bounds = block_bounds(audio_buffer.len(), target);
    par_block_peaks(audio_buffer, &bounds)
}

/// Rescales a non-negative summary sequence by its maximum: every output is
/// `floor(v / max * WAVEFORM_SCALE)`, so all outputs lie in
/// `0 ..= WAVEFORM_SCALE` and some output is exactly full scale — unless the
/// input is all zero, in which case it is returned unchanged.
pub fn normalize_data(filtered_data: &Vec<u64>) -> (r: Vec<u64>)
    ensures
        r@.len() == filtered_data@.len(),
        model::seq_max(filtered_data@) == 0 ==> r@ == filtered_data@,
        model::seq_max(filtered_data@) != 0 ==> forall|k: int|
            0 <= k < r@.len() ==> (#[trigger] r@[k]) as int == model::scaled_ratio(
                filtered_data@[k],
                model::seq_max(filtered_data@),
            ),
        forall|k: int| 0 <= k < r@.len() ==> (#[trigger] r@[k]) <= WAVEFORM_SCALE,
        model::seq_max(filtered_data@) != 0 ==> exists|k: int|
            0 <= k < r@.len() && r@[k] == WAVEFORM_SCALE,
{
    let n = filtered_data.len();
    let mut m: u64 = 0;
    let mut j: usize = 0;
    while j < n
        invariant
            j <= n == filtered_data@.len(),
            m as int == model::seq_max(filtered_data@.take(j as int)),
        decreases n - j,
    {
        proof {
            assert(filtered_data@.take(j as int + 1).drop_last() =~= filtered_data@.take(
                j as int,
            ));
        }
        let v = filtered_data[j];
        if v > m {
            m = v;
        }
        j = j + 1;
    }
    proof {
        assert(filtered_data@.take(n as int) =~= filtered_data@);
    }
    let mut out: Vec<u64> = Vec::new();
    let mut j: usize = 0;
    if m == 0 {
        while j < n
            invariant
                j <= n == filtered_data@.len(),
                out@ =~= filtered_data@.take(j as int),
                model::seq_max(filtered_data@) == 0,
            decreases n - j,
        {
            out.push(filtered_data[j]);
            j = j + 1;
        }
        proof {
            assert(out@ =~= filtered_data@);
            assert forall|k: int| 0 <= k < out@.len() implies (#[trigger] out@[k])
                <= WAVEFORM_SCALE by {
                model::lemma_seq_max_ge(filtered_data@, k);
            }
        }
        return out;
    }
    while j < n
        invariant
            j <= n == filtered_data@.len(),
            out@.len() == j,
            1 <= m,
            m as int == model::seq_max(filtered_data@),
            forall|k: int|
                0 <= k < j ==> (#[trigger] out@[k]) as int == model::scaled_ratio(
                    filtered_data@[k],
                    m as int,
                ) && out@[k] <= WAVEFORM_SCALE,
        decreases n - j,
    {
        let v = filtered_data[j];
        proof {
            model::lemma_seq_max_ge(filtered_data@, j as int);
            model::lemma_scaled_ratio_bounds(v, m as int);
            assert((v as int) * (WAVEFORM_SCALE as int) <= u128::MAX as int) by (nonlinear_arith)
                requires
                    v <= u64::MAX;
        }
        let scaled = ((v as u128) * (WAVEFORM_SCALE as u128) / (m as u128)) as u64;
        out.push(scaled);
        j = j + 1;
    }
    proof {
        model::lemma_seq_max_attained(filtered_data@);
        let k = choose|k: int|
            0 <= k < filtered_data@.len() && filtered_data@[k] as int == model::seq_max(
                filtered_data@,
            );
        model::lemma_scaled_ratio_bounds(filtered_data@[k], m as int);
        assert(out@[k] == WAVEFORM_SCALE);
    }
    out
}

/// Rescales a signed summary sequence by its greatest magnitude: every
/// output magnitude is `floor(|v| / max * WAVEFORM_SCALE)` with the input's
/// sign kept, so all outputs lie in `-WAVEFORM_SCALE ..= WAVEFORM_SCALE` and
/// some output hits full scale in magnitude — unless the input is all zero,
/// in which case the zeros are returned unchanged.
pub fn normalize_data_v2(filtered_data: &Vec<i32>) -> (r: Vec<i64>)
    ensures
        r@.len() == filtered_data@.len(),
        model::seq_max_abs(filtered_data@) == 0 ==> forall|k: int|
            0 <= k < r@.len() ==> (#[trigger] r@[k]) == filtered_data@[k] as i64,
        model::seq_max_abs(filtered_data@) != 0 ==> forall|k: int|
            0 <= k < r@.len() ==> (#[trigger] r@[k]) as int == model::scaled_signed_ratio(
                filtered_data@[k],
                model::seq_max_abs(filtered_data@),
            ),
        forall|k: int|
            0 <= k < r@.len() ==> -(WAVEFORM_SCALE as int) <= (#[trigger] r@[k]) as int
                <= WAVEFORM_SCALE as int,
        forall|k: int|
            0 <= k < r@.len() ==> ((filtered_data@[k] > 0 ==> (#[trigger] r@[k]) >= 0) && (
            filtered_data@[k] < 0 ==> r@[k] <= 0) && (filtered_data@[k] == 0 ==> r@[k] == 0)),
        model::seq_max_abs(filtered_data@) != 0 ==> exists|k: int|
            0 <= k < r@.len() && (r@[k] == WAVEFORM_SCALE as i64 || r@[k] == -(
            WAVEFORM_SCALE as i64)),
{
    let n = filtered_data.len();
    let mut m: u64 = 0;
    let mut j: usize = 0;
    while j < n
        invariant
            j <= n == filtered_data@.len(),
            m as int == model::seq_max_abs(filtered_data@.take(j as int)),
        decreases n - j,
    {
        proof {
            assert(filtered_data@.take(j as int + 1).drop_last() =~= filtered_data@.take(
                j as int,
            ));
        }
        let a = sample_abs(filtered_data[j]);
        if a > m {
            m = a;
        }
        j = j + 1;
    }
    proof {
        assert(filtered_data@.take(n as int) =~= filtered_data@);
    }
    let mut out: Vec<i64> = Vec::new();
    let mut j: usize = 0;
    if m == 0 {
        while j < n
            invariant
                j <= n == filtered_data@.len(),
                out@.len() == j,
                model::seq_max_abs(filtered_data@) == 0,
                forall|k: int| 0 <= k < j ==> (#[trigger] out@[k]) == filtered_data@[k] as i64,
                forall|k: int| 0 <= k < j ==> (#[trigger] out@[k]) == 0,
            decreases n - j,
        {
            proof {
                model::lemma_seq_max_abs_ge(filtered_data@, j as int);
            }
            out.push(filtered_data[j] as i64);
            j = j + 1;
        }
        return out;
    }
    while j < n
        invariant
            j <= n == filtered_data@.len(),
            out@.len() == j,
            1 <= m,
            m as int == model::seq_max_abs(filtered_data@),
            forall|k: int|
                0 <= k < j ==> (#[trigger] out@[k]) as int == model::scaled_signed_ratio(
                    filtered_data@[k],
                    m as int,
                ),
            forall|k: int|
                0 <= k < j ==> -(WAVEFORM_SCALE as int) <= (#[trigger] out@[k]) as int
                    <= WAVEFORM_SCALE as int,
            forall|k: int|
                0 <= k < j ==> ((filtered_data@[k] > 0 ==> (#[trigger] out@[k]) >= 0) && (
                filtered_data@[k] < 0 ==> out@[k] <= 0) && (filtered_data@[k] == 0 ==> out@[k]
                    == 0)),
        decreases n - j,
    {
        let v = filtered_data[j];
        let a = sample_abs(v);
        proof {
            model::lemma_seq_max_abs_ge(filtered_data@, j as int);
            model::lemma_scaled_signed_ratio_bounds(v, m as int);
            assert((a as int) * (WAVEFORM_SCALE as int) <= u128::MAX as int) by (nonlinear_arith)
                requires
                    a <= u64::MAX;
        }
        let mag = ((a as u128) * (WAVEFORM_SCALE as u128) / (m as u128)) as u64;
        let scaled: i64 = if v >= 0 {
            mag as i64
        } else {
            -(mag as i64)
        };
        out.push(scaled);
        j = j + 1;
    }
    proof {
        model::lemma_seq_max_abs_attained(filtered_data@);
        let k = choose|k: int|
            0 <= k < filtered_data@.len() && model::abs_val(filtered_data@[k])
                == model::seq_max_abs(filtered_data@);
        model::lemma_scaled_signed_ratio_bounds(filtered_data@[k], m as int);
        assert(out@[k] == WAVEFORM_SCALE as i64 || out@[k] == -(WAVEFORM_SCALE as i64));
    }
    out
}

/// The per-block summaries of the magnitude pipeline, as a sequence.
pub open spec fn summaries_v1(pcm: Seq<i32>, target: int) -> Seq<u64> {
    Seq::new(
        if target >= 0 {
            target as nat
        } else {
            0
        },
        |i: int|
            model::block_mean_fp(
                pcm,
                model::block_lo(pcm.len() as int, target, i),
                model::block_hi(pcm.len() as int, target, i),
            ) as u64,
    )
}

/// What normalizing a magnitude summary sequence yields.
pub open spec fn normalized_v1(s: Seq<u64>) -> Seq<u64> {
    if model::seq_max(s) == 0 {
        s
    } else {
        Seq::new(s.len(), |i: int| model::scaled_ratio(s[i], model::seq_max(s)) as u64)
    }
}

/// The whole magnitude pipeline's output as a function of the input bytes
/// and the requested rate, over the named decode result.
pub open spec fn waveform_v1(data: Seq<u8>, samples_per_second: Option<u16>) -> Seq<u64> {
    normalized_v1(
        summaries_v1(
            crate::decode::decoded_pcm(data),
            model::target_count_int(
                crate::decode::decoded_frames(data),
                crate::decode::decoded_rate(data) as int,
                model::resolved_rate(samples_per_second) as int,
            ),
        ),
    )
}

/// The per-block summaries of the signed pipeline, as a sequence.
pub open spec fn summaries_v2(pcm: Seq<i32>, target: int) -> Seq<i32> {
    Seq::new(
        if target >= 0 {
            target as nat
        } else {
            0
        },
        |i: int|
            model::block_peak_val(
                pcm,
                model::block_lo(pcm.len() as int, target, i),
                model::block_hi(pcm.len() as int, target, i),
            ),
    )
}

/// What normalizing a signed summary sequence yields.
pub open spec fn normalized_v2(s: Seq<i32>) -> Seq<i64> {
    if model::seq_max_abs(s) == 0 {
        Seq::new(s.len(), |i: int| s[i] as i64)
    } else {
        Seq::new(s.len(), |i: int| model::scaled_signed_ratio(s[i], model::seq_max_abs(s)) as i64)
    }
}

/// The whole signed pipeline's output as a function of the input bytes and
/// the requested rate, over the named decode result.
pub open spec fn waveform_v2(data: Seq<u8>, samples_per_second: Option<u16>) -> Seq<i64> {
    normalized_v2(
        summaries_v2(
            crate::decode::decoded_pcm(data),
            model::target_count_int(
                crate::decode::decoded_frames(data),
                crate::decode::decoded_rate(data) as int,
                model::resolved_rate(samples_per_second) as int,
            ),
        ),
    )
}

/// The number of output slots the decoded stream asks for.
pub open spec fn requested_slots(data: Seq<u8>, samples_per_second: Option<u16>) -> int {
    model::target_count_int(
        crate::decode::decoded_frames(data),
        crate::decode::decoded_rate(data) as int,
        model::resolved_rate(samples_per_second) as int,
    )
}

/// When an entry point returns this error on these inputs: each failure
/// comes exactly from its own cause in the decoded stream's model, with one
/// machine limit on top — an output that would not fit the address space.
pub open spec fn entry_error_matches(
    data: Seq<u8>,
    samples_per_second: Option<u16>,
    e: WaveformError,
) -> bool {
    match e {
        WaveformError::UnsupportedFormat(_) => crate::decode::decode_model(data)
            is NoFormat,
        WaveformError::NoDecodableTrack => crate::decode::decode_model(data) is NoTrack,
        WaveformError::DecoderCreation(_) => crate::decode::decode_model(data) is BadParams,
        WaveformError::UnsupportedChannelLayout => crate::decode::decode_model(data)
            is TooManyChannels,
        WaveformError::ResetRequired => crate::decode::decode_model(data) is Reset,
        WaveformError::PacketRead(_) => crate::decode::decode_model(data) is ReadFault,
        WaveformError::DecodeFailed(_) => crate::decode::decode_model(data) is DecodeFault,
        WaveformError::OutputTooLong => crate::decode::decode_model(data) is TooLong || (
        crate::decode::decode_ok(data) && requested_slots(data, samples_per_second)
            > usize::MAX as int),
    }
}

/// Converts audio data to a waveform normalized to `0 ..= WAVEFORM_SCALE`.
/// On success the output is exactly `waveform_v1` of the decoded stream, so
/// every output is within full scale and, unless the decoded audio is total
/// silence, some output is exactly full scale; success is owed whenever the
/// bytes decode and the output fits the address space, and each error comes
/// exactly from its own cause.
/// data: The audio data to convert.
/// samples_per_second: The number of output samples per second, the default
/// is 100.
pub fn audio_to_waveform(data: Vec<u8>, samples_per_second: Option<u16>) -> (r: Result<
    Vec<u64>,
    WaveformError,
>)
    ensures
        r matches Ok(out) ==> crate::decode::decode_ok(data@) && out@ == waveform_v1(
            data@,
            samples_per_second,
        ),
        r matches Ok(out) ==> out@.len() == requested_slots(data@, samples_per_second),
        crate::decode::decode_ok(data@) && requested_slots(data@, samples_per_second)
            <= usize::MAX as int ==> r is Ok,
        r matches Err(e) ==> entry_error_matches(data@, samples_per_second, e),
        r matches Ok(out) ==> forall|k: int|
            0 <= k < out@.len() ==> (#[trigger] out@[k]) <= WAVEFORM_SCALE,
        r matches Ok(out) ==> ((exists|k: int| 0 <= k < out@.len() && out@[k] == WAVEFORM_SCALE)
            || (forall|k: int| 0 <= k < out@.len() ==> (#[trigger] out@[k]) == 0)),
{
    let ghost data_view = data@;
    let (audio_buffer, frames, sample_rate) = match crate::decode::read_sample(data) {
        Ok(t) => t,
        Err(e) => return Err(e),
    };
    let rate: u16 = match samples_per_second {
        Some(r) => r,
        None => model::DEFAULT_SAMPLES_PER_SECOND,
    };
    proof {
        assert((frames as int) * (rate as int) <= u128::MAX as int) by (nonlinear_arith)
            requires
                frames <= u64::MAX && rate <= u16::MAX;
    }
    let target128: u128 = (frames as u128) * (rate as u128) / (sample_rate as u128);
    if target128 > usize::MAX as u128 {
        return Err(WaveformError::OutputTooLong);
    }
    let filtered = filter_data(&audio_buffer, frames, sample_rate, samples_per_second);
    let normalized = normalize_data(&filtered);
    proof {
        let t = model::target_count(frames, sample_rate, model::resolved_rate(samples_per_second));
        assert forall|k: int| 0 <= k < t implies filtered@[k] == summaries_v1(audio_buffer@, t)[k] by {
            model::lemma_block_range(audio_buffer@.len() as int, t, k);
            model::lemma_block_mean_fp_bounds(
                audio_buffer@,
                model::block_lo(audio_buffer@.len() as int, t, k),
                model::block_hi(audio_buffer@.len() as int, t, k),
            );
        }
        assert(filtered@ =~= summaries_v1(audio_buffer@, t));
        if model::seq_max(filtered@) != 0 {
            assert forall|k: int| 0 <= k < filtered@.len() implies normalized@[k] == normalized_v1(
                filtered@,
            )[k] by {
                model::lemma_seq_max_ge(filtered@, k);
                model::lemma_scaled_ratio_bounds(filtered@[k], model::seq_max(filtered@));
            }
        }
        assert(normalized@ =~= normalized_v1(filtered@));
        if model::seq_max(filtered@) == 0 {
            assert forall|k: int| 0 <= k < normalized@.len() implies (#[trigger] normalized@[k])
                == 0 by {
                model::lemma_seq_max_ge(filtered@, k);
            }
        }
    }
    Ok(normalized)
}

/// Converts audio data to a waveform normalized to
/// `-WAVEFORM_SCALE ..= WAVEFORM_SCALE`. On success the output is exactly
/// `waveform_v2` of the decoded stream, so every output is within full
/// scale and, unless the decoded audio is total silence, some output
/// reaches full scale in magnitude; success is owed whenever the bytes
/// decode and the output fits the address space, and each error comes
/// exactly from its own cause.
/// data: The audio data to convert.
/// samples_per_second: The number of output samples per second, the default
/// is 100.
pub fn audio_to_waveform_v2(data: Vec<u8>, samples_per_second: Option<u16>) -> (r: Result<
    Vec<i64>,
    WaveformError,
>)
    ensures
        r matches Ok(out) ==> crate::decode::decode_ok(data@) && out@ == waveform_v2(
            data@,
            samples_per_second,
        ),
        r matches Ok(out) ==> out@.len() == requested_slots(data@, samples_per_second),
        crate::decode::decode_ok(data@) && requested_slots(data@, samples_per_second)
            <= usize::MAX as int ==> r is Ok,
        r matches Err(e) ==> entry_error_matches(data@, samples_per_second, e),
        r matches Ok(out) ==> forall|k: int|
            0 <= k < out@.len() ==> -(WAVEFORM_SCALE as int) <= (#[trigger] out@[k]) as int
                <= WAVEFORM_SCALE as int,
        r matches Ok(out) ==> ((exists|k: int|
            0 <= k < out@.len() && (out@[k] == WAVEFORM_SCALE as i64 || out@[k] == -(
            WAVEFORM_SCALE as i64))) || (forall|k: int|
            0 <= k < out@.len() ==> (#[trigger] out@[k]) == 0)),
{
    let ghost data_view = data@;
    let (audio_buffer, frames, sample_rate) = match crate::decode::read_sample(data) {
        Ok(t) => t,
        Err(e) => return Err(e),
    };
    let rate: u16 = match samples_per_second {
        Some(r) => r,
        None => model::DEFAULT_SAMPLES_PER_SECOND,
    };
    proof {
        assert((frames as int) * (rate as int) <= u128::MAX as int) by (nonlinear_arith)
            requires
                frames <= u64::MAX && rate <= u16::MAX;
    }
    let target128: u128 = (frames as u128) * (rate as u128) / (sample_rate as u128);
    if target128 > usize::MAX as u128 {
        return Err(WaveformError::OutputTooLong);
    }
    let filtered = filter_data_v2(&audio_buffer, frames, sample_rate, samples_per_second);
    let normalized = normalize_data_v2(&filtered);
    proof {
        let t = model::target_count(frames, sample_rate, model::resolved_rate(samples_per_second));
        assert(filtered@ =~= summaries_v2(audio_buffer@, t));
        if model::seq_max_abs(filtered@) != 0 {
            assert forall|k: int| 0 <= k < filtered@.len() implies normalized@[k] == normalized_v2(
                filtered@,
            )[k] by {
                model::lemma_seq_max_abs_ge(filtered@, k);
                model::lemma_scaled_signed_ratio_bounds(
                    filtered@[k],
                    model::seq_max_abs(filtered@),
                );
            }
        }
        assert(normalized@ =~= normalized_v2(filtered@));
        if model::seq_max_abs(filtered@) == 0 {
            assert forall|k: int| 0 <= k < normalized@.len() implies (#[trigger] normalized@[k])
                == 0 by {
                model::lemma_seq_max_abs_ge(filtered@, k);
            }
        }
    }
    Ok(normalized)
}

/// Identical bytes and an identical rate force identical results: any two
/// outcomes meeting `audio_to_waveform`'s contract have the same success or
/// failure, and equal output vectors on success. This is the end-to-end
/// determinism the named decode model makes stateable; the message strings
/// carried inside an `Err` come from the decoding library's display and are
/// not pinned.
pub proof fn lemma_waveform_call_deterministic(
    data: Seq<u8>,
    samples_per_second: Option<u16>,
    r1: Result<Vec<u64>, WaveformError>,
    r2: Result<Vec<u64>, WaveformError>,
)
    requires
        r1 matches Ok(out) ==> crate::decode::decode_ok(data) && out@ == waveform_v1(
            data,
            samples_per_second,
        ),
        crate::decode::decode_ok(data) && requested_slots(data, samples_per_second)
            <= usize::MAX as int ==> r1 is Ok,
        r2 matches Ok(out) ==> crate::decode::decode_ok(data) && out@ == waveform_v1(
            data,
            samples_per_second,
        ),
        crate::decode::decode_ok(data) && requested_slots(data, samples_per_second)
            <= usize::MAX as int ==> r2 is Ok,
    ensures
        r1 is Ok <==> r2 is Ok,
        match (r1, r2) {
            (Ok(o1), Ok(o2)) => o1@ == o2@,
            _ => true,
        },
{
    let t = requested_slots(data, samples_per_second);
    match r1 {
        Ok(o1) => {
            vstd::std_specs::vec::axiom_spec_len(&o1);
            if t >= 0 {
                assert(o1@.len() == t);
            }
            assert(t <= usize::MAX as int);
            match r2 {
                Ok(o2) => {
                    assert(o1@ == waveform_v1(data, samples_per_second));
                    assert(o2@ == waveform_v1(data, samples_per_second));
                    assert(o1@ == o2@);
                },
                Err(_) => {},
            }
        },
        Err(_) => {
            match r2 {
                Ok(o2) => {
                    vstd::std_specs::vec::axiom_spec_len(&o2);
                    if t >= 0 {
                        assert(o2@.len() == t);
                    }
                    assert(t <= usize::MAX as int);
                },
                Err(_) => {},
            }
        },
    }
}

/// The signed counterpart of `lemma_waveform_call_deterministic`, over
/// `audio_to_waveform_v2`'s contract.
pub proof fn lemma_waveform_v2_call_deterministic(
    data: Seq<u8>,
    samples_per_second: Option<u16>,
    r1: Result<Vec<i64>, WaveformError>,
    r2: Result<Vec<i64>, WaveformError>,
)
    requires
        r1 matches Ok(out) ==> crate::decode::decode_ok(data) && out@ == waveform_v2(
            data,
            samples_per_second,
        ),
        crate::decode::decode_ok(data) && requested_slots(data, samples_per_second)
            <= usize::MAX as int ==> r1 is Ok,
        r2 matches Ok(out) ==> crate::decode::decode_ok(data) && out@ == waveform_v2(
            data,
            samples_per_second,
        ),
        crate::decode::decode_ok(data) && requested_slots(data, samples_per_second)
            <= usize::MAX as int ==> r2 is Ok,
    ensures
        r1 is Ok <==> r2 is Ok,
        match (r1, r2) {
            (Ok(o1), Ok(o2)) => o1@ == o2@,
            _ => true,
        },
{
    let t = requested_slots(data, samples_per_second);
    match r1 {
        Ok(o1) => {
            vstd::std_specs::vec::axiom_spec_len(&o1);
            if t >= 0 {
                assert(o1@.len() == t);
            }
            assert(t <= usize::MAX as int);
            match r2 {
                Ok(o2) => {
                    assert(o1@ == waveform_v2(data, samples_per_second));
                    assert(o2@ == waveform_v2(data, samples_per_second));
                    assert(o1@ == o2@);
                },
                Err(_) => {},
            }
        },
        Err(_) => {
            match r2 {
                Ok(o2) => {
                    vstd::std_specs::vec::axiom_spec_len(&o2);
                    if t >= 0 {
                        assert(o2@.len() == t);
                    }
                    assert(t <= usize::MAX as int);
                },
                Err(_) => {},
            }
        },
    }
}

} // verus!
