//! Exercises the summarization stages on synthetic PCM buffers with exact
//! expected values, and the whole pipeline on handwritten WAV, AIFF and
//! FLAC byte streams.

use waveform::decode::WaveformError;
use waveform::processor::audio_to_waveform;
use waveform::processor::audio_to_waveform_v2;
use waveform::processor::block_mean;
use waveform::processor::block_peak;
use waveform::processor::filter_data;
use waveform::processor::filter_data_v2;
use waveform::processor::normalize_data;
use waveform::processor::normalize_data_v2;

const SCALE: u64 = 1_000_000;

/// A minimal RIFF/WAVE byte stream holding 16-bit integer PCM.
fn wav_bytes_i16(sample_rate: u32, channels: u16, samples: &[i16]) -> Vec<u8> {
    let data_len = (samples.len() * 2) as u32;
    let mut out: Vec<u8> = Vec::new();
    out.extend_from_slice(b"RIFF");
    out.extend_from_slice(&(36 + data_len).to_le_bytes());
    out.extend_from_slice(b"WAVE");
    out.extend_from_slice(b"fmt ");
    out.extend_from_slice(&16u32.to_le_bytes());
    out.extend_from_slice(&1u16.to_le_bytes());
    out.extend_from_slice(&channels.to_le_bytes());
    out.extend_from_slice(&sample_rate.to_le_bytes());
    out.extend_from_slice(&(sample_rate * channels as u32 * 2).to_le_bytes());
    out.extend_from_slice(&(channels * 2).to_le_bytes());
    out.extend_from_slice(&16u16.to_le_bytes());
    out.extend_from_slice(b"data");
    out.extend_from_slice(&data_len.to_le_bytes());
    for s in samples {
        out.extend_from_slice(&s.to_le_bytes());
    }
    out
}

/// One second of audible mono audio at 8 kHz.
fn mono_second() -> Vec<i16> {
    let mut samples: Vec<i16> = Vec::new();
    for i in 0..8000usize {
        samples.push(((i % 100) as i16 - 50) * 100);
    }
    samples
}

/// All values within [0, 1] of full scale, and at least one exactly at it.
fn res_is_ok(res: Vec<u64>) {
    assert!(res.iter().all(|&x| x <= SCALE));
    assert!(res.iter().any(|&x| x == SCALE));
}

/// All values within [-1, 1] of full scale, at least one at full magnitude.
fn res_is_ok_v2(res: Vec<i64>) {
    assert!(res.iter().all(|&x| x.unsigned_abs() <= SCALE));
    assert!(res.iter().any(|&x| x.unsigned_abs() == SCALE));
}

#[test]
fn test_audio_to_waveform_works_with_wav() {
    let data = wav_bytes_i16(8000, 1, &mono_second());
    let res = audio_to_waveform(data, None).expect("audio_to_waveform");
    res_is_ok(res);
}

#[test]
fn test_audio_to_waveform_v2_works_with_wav() {
    let data = wav_bytes_i16(8000, 1, &mono_second());
    let res = audio_to_waveform_v2(data, None).expect("audio_to_waveform_v2");
    res_is_ok_v2(res);
}

/// A minimal FORM/AIFF byte stream holding 16-bit big-endian PCM.
fn aiff_bytes_i16(sample_rate_ext: [u8; 10], channels: u16, samples: &[i16]) -> Vec<u8> {
    let frames = (samples.len() / channels as usize) as u32;
    let ssnd_len = (8 + samples.len() * 2) as u32;
    let form_len = 4 + 8 + 18 + 8 + ssnd_len;
    let mut out: Vec<u8> = Vec::new();
    out.extend_from_slice(b"FORM");
    out.extend_from_slice(&form_len.to_be_bytes());
    out.extend_from_slice(b"AIFF");
    out.extend_from_slice(b"COMM");
    out.extend_from_slice(&18u32.to_be_bytes());
    out.extend_from_slice(&(channels as i16).to_be_bytes());
    out.extend_from_slice(&frames.to_be_bytes());
    out.extend_from_slice(&16i16.to_be_bytes());
    out.extend_from_slice(&sample_rate_ext);
    out.extend_from_slice(b"SSND");
    out.extend_from_slice(&ssnd_len.to_be_bytes());
    out.extend_from_slice(&0u32.to_be_bytes());
    out.extend_from_slice(&0u32.to_be_bytes());
    for s in samples {
        out.extend_from_slice(&s.to_be_bytes());
    }
    out
}

/// 8000 Hz as an 80-bit extended float, big-endian.
fn rate_8000_ext() -> [u8; 10] {
    [0x40, 0x0C, 0xFA, 0x00, 0x00, 0x00, 0x00, 0x00, 0x00, 0x00]
}

#[test]
fn test_audio_to_waveform_works_with_aif() {
    let data = aiff_bytes_i16(rate_8000_ext(), 1, &mono_second());
    let res = audio_to_waveform(data, None).expect("audio_to_waveform");
    res_is_ok(res);
}

#[test]
fn test_audio_to_waveform_v2_works_with_aif() {
    let data = aiff_bytes_i16(rate_8000_ext(), 1, &mono_second());
    let res = audio_to_waveform_v2(data, None).expect("audio_to_waveform_v2");
    res_is_ok_v2(res);
}

/// CRC-8 with polynomial 0x07, as FLAC frame headers use.
fn crc8(data: &[u8]) -> u8 {
    let mut crc: u8 = 0;
    for &b in data {
        crc ^= b;
        for _ in 0..8 {
            crc = if crc & 0x80 != 0 { (crc << 1) ^ 0x07 } else { crc << 1 };
        }
    }
    crc
}

/// CRC-16 with polynomial 0x8005, as FLAC frame footers use.
fn crc16(data: &[u8]) -> u16 {
    let mut crc: u16 = 0;
    for &b in data {
        crc ^= (b as u16) << 8;
        for _ in 0..8 {
            crc = if crc & 0x8000 != 0 { (crc << 1) ^ 0x8005 } else { crc << 1 };
        }
    }
    crc
}

/// One fixed-strategy FLAC frame: mono, 16-bit, one constant subframe.
fn flac_frame(frame_no: u8, block_size: u16, value: i16) -> Vec<u8> {
    let mut f: Vec<u8> = Vec::new();
    f.push(0xFF);
    f.push(0xF8);
    f.push(0x70);
    f.push(0x08);
    f.push(frame_no);
    f.extend_from_slice(&(block_size - 1).to_be_bytes());
    let header_crc = crc8(&f);
    f.push(header_crc);
    f.push(0x00);
    f.extend_from_slice(&value.to_be_bytes());
    let frame_crc = crc16(&f);
    f.extend_from_slice(&frame_crc.to_be_bytes());
    f
}

/// A minimal FLAC byte stream: a STREAMINFO block and constant frames.
fn flac_bytes(sample_rate: u32, frames: &[(u16, i16)]) -> Vec<u8> {
    let total: u64 = frames.iter().map(|&(n, _)| n as u64).sum();
    let min_bs = frames.iter().map(|&(n, _)| n).min().unwrap();
    let max_bs = frames.iter().map(|&(n, _)| n).max().unwrap();
    let mut out: Vec<u8> = Vec::new();
    out.extend_from_slice(b"fLaC");
    out.push(0x80);
    out.extend_from_slice(&[0, 0, 34]);
    out.extend_from_slice(&min_bs.to_be_bytes());
    out.extend_from_slice(&max_bs.to_be_bytes());
    out.extend_from_slice(&[0, 0, 0]);
    out.extend_from_slice(&[0, 0, 0]);
    let packed: u64 = ((sample_rate as u64) << 44) | (15u64 << 36) | total;
    out.extend_from_slice(&packed.to_be_bytes());
    out.extend_from_slice(&[0u8; 16]);
    let mut frame_no: u8 = 0;
    for &(n, v) in frames {
        out.extend_from_slice(&flac_frame(frame_no, n, v));
        frame_no += 1;
    }
    out
}

#[test]
fn test_audio_to_waveform_works_with_flac() {
    let data = flac_bytes(8000, &[(2000, 100), (2000, -500), (2000, 300), (2000, 50)]);
    let res = audio_to_waveform(data, None).expect("audio_to_waveform");
    res_is_ok(res);
}

#[test]
fn test_audio_to_waveform_v2_works_with_flac() {
    let data = flac_bytes(8000, &[(2000, 100), (2000, -500), (2000, 300), (2000, 50)]);
    let res = audio_to_waveform_v2(data, None).expect("audio_to_waveform_v2");
    res_is_ok_v2(res);
}

#[test]
fn test_stereo_wav_is_accepted() {
    let mut samples: Vec<i16> = Vec::new();
    for i in 0..4000usize {
        let v = ((i % 50) as i16 - 25) * 100;
        samples.push(v);
        samples.push(-v);
    }
    let data = wav_bytes_i16(8000, 2, &samples);
    res_is_ok(audio_to_waveform(data, None).expect("audio_to_waveform"));
}

#[test]
fn test_three_channel_stream_fails_with_channel_layout() {
    let samples = vec![1000i16; 300];
    let data = wav_bytes_i16(8000, 3, &samples);
    let res = audio_to_waveform(data, None);
    assert!(matches!(res, Err(WaveformError::UnsupportedChannelLayout)));
    let data = wav_bytes_i16(8000, 3, &samples);
    let res = audio_to_waveform_v2(data, None);
    assert!(matches!(res, Err(WaveformError::UnsupportedChannelLayout)));
}

#[test]
fn test_unrecognized_bytes_fail_with_unsupported_format() {
    let res = audio_to_waveform(vec![0u8; 64], None);
    assert!(matches!(res, Err(WaveformError::UnsupportedFormat(_))));
}

#[test]
fn test_decoding_is_deterministic() {
    let data = wav_bytes_i16(8000, 1, &mono_second());
    let first = audio_to_waveform(data.clone(), Some(25)).expect("audio_to_waveform");
    let second = audio_to_waveform(data.clone(), Some(25)).expect("audio_to_waveform");
    assert_eq!(first, second);
    let first = audio_to_waveform_v2(data.clone(), Some(25)).expect("audio_to_waveform_v2");
    let second = audio_to_waveform_v2(data, Some(25)).expect("audio_to_waveform_v2");
    assert_eq!(first, second);
}

#[test]
fn test_end_to_end_output_length() {
    // 8000 frames arrive as 7 packets; the decoder reports each packet's
    // capacity of 1152 frames, so the duration numerator is 8064 and the
    // default rate of 100 gives floor(8064 * 100 / 8000) = 100 outputs.
    let data = wav_bytes_i16(8000, 1, &mono_second());
    let res = audio_to_waveform(data, None).expect("audio_to_waveform");
    assert_eq!(res.len(), 100);
}

#[test]
fn test_silence_yields_all_zero_outputs() {
    let pcm = vec![0i32; 100];
    let filtered = filter_data(&pcm, 100, 100, Some(10));
    let normalized = normalize_data(&filtered);
    assert_eq!(normalized, vec![0u64; 10]);
    let filtered = filter_data_v2(&pcm, 100, 100, Some(10));
    let normalized = normalize_data_v2(&filtered);
    assert_eq!(normalized, vec![0i64; 10]);
}

#[test]
fn test_peak_block_dominates_and_hits_full_scale() {
    let mut pcm = vec![100i32; 100];
    pcm[35] = 500;
    let filtered = filter_data(&pcm, 100, 100, Some(10));
    assert_eq!(filtered.len(), 10);
    assert_eq!(filtered[0], 429496729600);
    assert_eq!(filtered[3], 601295421440);
    let normalized = normalize_data(&filtered);
    assert_eq!(normalized[3], SCALE);
    for (k, &v) in normalized.iter().enumerate() {
        if k != 3 {
            assert_eq!(v, 714285);
            assert!(v < normalized[3]);
        }
    }
}

#[test]
fn test_negative_peak_keeps_its_sign() {
    let mut pcm = vec![100i32; 100];
    pcm[35] = -500;
    let filtered = filter_data_v2(&pcm, 100, 100, Some(10));
    assert_eq!(filtered[3], -500);
    let normalized = normalize_data_v2(&filtered);
    assert_eq!(normalized[3], -(SCALE as i64));
    for (k, &v) in normalized.iter().enumerate() {
        if k != 3 {
            assert_eq!(v, 200000);
        }
        assert!(v.unsigned_abs() <= SCALE);
    }
}

#[test]
fn test_rate_one_yields_one_block_spanning_the_buffer() {
    let pcm: Vec<i32> = (1..=10).collect();
    let filtered = filter_data(&pcm, 10, 10, Some(1));
    assert_eq!(filtered, vec![23622320128u64]);
    assert_eq!(normalize_data(&filtered), vec![SCALE]);
}

#[test]
fn test_rate_beyond_sample_count_does_not_panic() {
    let pcm: Vec<i32> = (1..=10).collect();
    let filtered = filter_data(&pcm, 10, 10, Some(20));
    assert_eq!(filtered.len(), 20);
    let normalized = normalize_data(&filtered);
    let mut expected: Vec<u64> = (1..=10u64).map(|v| v * 100000).collect();
    expected.extend(vec![0u64; 10]);
    assert_eq!(normalized, expected);
}

#[test]
fn test_filter_data_splits_and_averages() {
    let pcm: Vec<i32> = (1..=10).collect();
    let filtered = filter_data(&pcm, 10, 10, Some(2));
    assert_eq!(filtered, vec![12884901888u64, 34359738368u64]);
    assert_eq!(normalize_data(&filtered), vec![375000u64, SCALE]);
}

#[test]
fn test_block_mean_is_fixed_point_mean_of_magnitudes() {
    let pcm = vec![2i32, -4];
    assert_eq!(block_mean(&pcm, 0, 2), 12884901888);
    assert_eq!(block_mean(&pcm, 0, 0), 0);
}

#[test]
fn test_block_peak_takes_first_greatest_magnitude() {
    assert_eq!(block_peak(&vec![3i32, -3], 0, 2), 3);
    assert_eq!(block_peak(&vec![-3i32, 3], 0, 2), -3);
    assert_eq!(block_peak(&vec![1i32, -7, 5], 0, 3), -7);
    assert_eq!(block_peak(&vec![1i32, -7, 5], 1, 1), 0);
}

#[test]
fn test_extreme_samples_normalize_within_scale() {
    assert_eq!(block_peak(&vec![i32::MIN, i32::MAX], 0, 2), i32::MIN);
    let normalized = normalize_data_v2(&vec![i32::MIN, i32::MAX]);
    assert_eq!(normalized[0], -(SCALE as i64));
    assert!(normalized[1] < SCALE as i64 && normalized[1] > 0);
}

#[test]
fn test_normalize_data_scales_by_the_maximum() {
    assert_eq!(normalize_data(&vec![1u64, 2, 4]), vec![250000u64, 500000, SCALE]);
    assert_eq!(normalize_data(&vec![0u64, 0]), vec![0u64, 0]);
}

#[test]
fn test_normalize_data_v2_scales_by_the_greatest_magnitude() {
    assert_eq!(normalize_data_v2(&vec![2i32, -4]), vec![500000i64, -(SCALE as i64)]);
    assert_eq!(normalize_data_v2(&vec![0i32]), vec![0i64]);
}
