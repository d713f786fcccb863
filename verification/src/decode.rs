//! The decoder adapter: probes a byte buffer for a container format, picks
//! the first track with a recognized codec, and decodes its packets into one
//! flat interleaved buffer of 32-bit integer samples. The calls into the
//! decoding library stand behind trusted wrappers; the selection loop, the
//! channel-layout guard and the stream-termination policy are verified.
//!
//! Decoding an in-memory buffer is deterministic: the library's results are
//! functions of the input bytes alone. The names below (`probe_ok`,
//! `stream_tracks`, `packet_step`, `decode_step`, `decoder_buildable`) stand
//! for those results; the trusted wrappers tie their outputs to the names,
//! and `decode_model` composes the names into the whole adapter's outcome,
//! which `read_sample`'s contract states case by case.

use vstd::prelude::*;

verus! {

use std::io::Cursor;

#[verifier::external_type_specification]
#[verifier::external_body]
pub struct ExProbeResult(symphonia::core::probe::ProbeResult);

#[verifier::external_type_specification]
#[verifier::external_body]
pub struct ExPacket(symphonia::core::formats::Packet);

/// Why a conversion failed; each variant corresponds to one failure the
/// pipeline can hit, with the underlying library's message where one exists.
#[derive(Debug)]
pub enum WaveformError {
    /// Probing could not identify any container or codec.
    UnsupportedFormat(String),
    /// Every track uses an unrecognized codec.
    NoDecodableTrack,
    /// The codec was recognized but a decoder could not be built for the
    /// track's parameters (or the track declares no usable sample rate).
    DecoderCreation(String),
    /// A decoded frame reported more than two channels.
    UnsupportedChannelLayout,
    /// The decoder signalled a mid-stream parameter change, which is not
    /// supported.
    ResetRequired,
    /// A codec-level failure on a packet.
    DecodeFailed(String),
    /// A format-level failure while reading a packet.
    PacketRead(String),
    /// The decoded stream is so long that a count or the output could not
    /// be represented.
    OutputTooLong,
}

/// What one entry of the reader's track list looks like to the pipeline.
#[derive(Clone, Copy)]
pub struct TrackDesc {
    pub id: u32,
    /// Whether the track's codec is recognized (not the null marker).
    pub decodable: bool,
    pub sample_rate: Option<u32>,
}

/// Whether probing recognizes a container in the bytes. Stands for the
/// success of symphonia's `Probe::format` on this buffer, which depends on
/// the bytes alone.
pub uninterp spec fn probe_ok(data: Seq<u8>) -> bool;

/// The track list of the probed container, one descriptor per track in the
/// reader's order. Stands for symphonia's `FormatReader::tracks`.
pub uninterp spec fn stream_tracks(data: Seq<u8>) -> Seq<TrackDesc>;

/// Whether a decoder can be built for the track at this position. Stands
/// for the success of symphonia's `CodecRegistry::make`.
pub uninterp spec fn decoder_buildable(data: Seq<u8>, track_index: int) -> bool;

/// What the k-th `next_packet` call on the probed reader yields.
pub ghost enum PacketStep {
    /// A packet belonging to the track with this id.
    Next { track: u32 },
    /// An I/O failure: the end of the stream.
    EndOfStream,
    /// The reader demands a decoder reset.
    ResetRequired,
    /// Any other read failure.
    ReadFailed,
}

/// The k-th packet-read outcome of the probed reader. Stands for
/// symphonia's `FormatReader::next_packet`, whose k-th result on an
/// in-memory buffer depends on the bytes and the call position alone.
pub uninterp spec fn packet_step(data: Seq<u8>, k: int) -> PacketStep;

/// What decoding one more packet yields, as a function of the input bytes,
/// the track the decoder was built for, and the positions of every packet
/// fed to it so far (the new one last).
pub ghost enum DecodeStep {
    /// A frame: its channel count, its capacity (the duration unit), and
    /// its interleaved 32-bit integer samples.
    Frame { channels: u32, capacity: u64, samples: Seq<i32> },
    /// An I/O failure: the end of the stream.
    EndOfStream,
    /// Any other decode failure.
    Failed,
}

/// The outcome of one `Decoder::decode` call. Stands for symphonia's
/// decoders, which are deterministic: the outcome depends on the bytes, the
/// track, and the decoder's packet history alone.
pub uninterp spec fn decode_step(data: Seq<u8>, track_index: int, fed: Seq<int>) -> DecodeStep;

/// Position of the first recognized-codec track at or after `i`.
pub open spec fn first_decodable_from(tracks: Seq<TrackDesc>, i: int) -> Option<int>
    decreases tracks.len() - i when 0 <= i <= tracks.len()
{
    if i >= tracks.len() {
        None
    } else if tracks[i].decodable {
        Some(i)
    } else {
        first_decodable_from(tracks, i + 1)
    }
}

/// How the packet loop ends, given where it stands.
pub ghost enum DriveOutcome {
    /// End of stream (or the iteration bound ran out): the accumulated
    /// buffer and frame count are the result.
    Finished { pcm: Seq<i32>, frames: int },
    /// A frame reported more than two channels.
    TooManyChannels,
    /// The frame count would not fit the counter.
    FramesOverflow,
    /// The reader demanded a decoder reset.
    Reset,
    /// A non-I/O packet read failure.
    ReadFault,
    /// A non-I/O decode failure.
    DecodeFault,
}

/// The packet loop over the named per-call outcomes: read the packet at
/// position `k`, skip it unless it belongs to the selected track, decode,
/// guard the channel count and the frame counter, and accumulate. `fuel`
/// bounds the iteration count; running out ends the stream as reading its
/// end would.
pub open spec fn drive(
    data: Seq<u8>,
    track_index: int,
    track_id: u32,
    k: int,
    fed: Seq<int>,
    acc_pcm: Seq<i32>,
    acc_frames: int,
    fuel: nat,
) -> DriveOutcome
    decreases fuel,
{
    if fuel == 0 {
        DriveOutcome::Finished { pcm: acc_pcm, frames: acc_frames }
    } else {
        match packet_step(data, k) {
            PacketStep::Next { track } => {
                if track != track_id {
                    drive(data, track_index, track_id, k + 1, fed, acc_pcm, acc_frames, (fuel
                        - 1) as nat)
                } else {
                    match decode_step(data, track_index, fed.push(k)) {
                        DecodeStep::Frame { channels, capacity, samples } => {
                            if channels > 2 {
                                DriveOutcome::TooManyChannels
                            } else if acc_frames + capacity > u64::MAX {
                                DriveOutcome::FramesOverflow
                            } else {
                                drive(
                                    data,
                                    track_index,
                                    track_id,
                                    k + 1,
                                    fed.push(k),
                                    acc_pcm + samples,
                                    acc_frames + capacity,
                                    (fuel - 1) as nat,
                                )
                            }
                        },
                        DecodeStep::EndOfStream => DriveOutcome::Finished {
                            pcm: acc_pcm,
                            frames: acc_frames,
                        },
                        DecodeStep::Failed => DriveOutcome::DecodeFault,
                    }
                }
            },
            PacketStep::EndOfStream => DriveOutcome::Finished {
                pcm: acc_pcm,
                frames: acc_frames,
            },
            PacketStep::ResetRequired => DriveOutcome::Reset,
            PacketStep::ReadFailed => DriveOutcome::ReadFault,
        }
    }
}

/// The whole decoder adapter's outcome on a byte buffer, composed from the
/// named library results: exactly one variant holds of any input.
pub ghost enum DecodeModel {
    /// Probing recognized nothing.
    NoFormat,
    /// Every track's codec is the null marker.
    NoTrack,
    /// The selected track declares no usable sample rate, or no decoder
    /// could be built for it.
    BadParams,
    /// Some decoded frame of the selected track has more than two channels.
    TooManyChannels,
    /// The frame count would not fit its counter.
    TooLong,
    /// The reader demanded a decoder reset.
    Reset,
    /// A non-I/O packet read failure.
    ReadFault,
    /// A non-I/O decode failure.
    DecodeFault,
    /// Success: the interleaved samples of the selected track's frames in
    /// stream order, the summed frame capacities, and the declared rate.
    Decoded { pcm: Seq<i32>, frames: int, rate: u32 },
}

/// The adapter's outcome as a function of the input bytes.
pub open spec fn decode_model(data: Seq<u8>) -> DecodeModel {
    if !probe_ok(data) {
        DecodeModel::NoFormat
    } else {
        match first_decodable_from(stream_tracks(data), 0) {
            None => DecodeModel::NoTrack,
            Some(i) => {
                match stream_tracks(data)[i].sample_rate {
                    None => DecodeModel::BadParams,
                    Some(sr) => {
                        if sr == 0 || !decoder_buildable(data, i) {
                            DecodeModel::BadParams
                        } else {
                            match drive(
                                data,
                                i,
                                stream_tracks(data)[i].id,
                                0,
                                Seq::<int>::empty(),
                                Seq::<i32>::empty(),
                                0,
                                u64::MAX as nat,
                            ) {
                                DriveOutcome::Finished { pcm, frames } => DecodeModel::Decoded {
                                    pcm,
                                    frames,
                                    rate: sr,
                                },
                                DriveOutcome::TooManyChannels => DecodeModel::TooManyChannels,
                                DriveOutcome::FramesOverflow => DecodeModel::TooLong,
                                DriveOutcome::Reset => DecodeModel::Reset,
                                DriveOutcome::ReadFault => DecodeModel::ReadFault,
                                DriveOutcome::DecodeFault => DecodeModel::DecodeFault,
                            }
                        }
                    },
                }
            },
        }
    }
}

/// Whether decoding the bytes succeeds.
pub open spec fn decode_ok(data: Seq<u8>) -> bool {
    decode_model(data) is Decoded
}

/// The decoded interleaved sample buffer (empty unless decoding succeeds).
pub open spec fn decoded_pcm(data: Seq<u8>) -> Seq<i32> {
    match decode_model(data) {
        DecodeModel::Decoded { pcm, .. } => pcm,
        _ => Seq::empty(),
    }
}

/// The summed frame capacities, the numerator of the stream's duration.
pub open spec fn decoded_frames(data: Seq<u8>) -> int {
    match decode_model(data) {
        DecodeModel::Decoded { frames, .. } => frames,
        _ => 0,
    }
}

/// The selected track's declared sample rate, the duration's denominator.
pub open spec fn decoded_rate(data: Seq<u8>) -> u32 {
    match decode_model(data) {
        DecodeModel::Decoded { rate, .. } => rate,
        _ => 1,
    }
}

/// What `read_sample` returns on `data`: each result kind exactly when the
/// adapter's model takes the matching outcome.
pub open spec fn read_sample_result_matches(
    data: Seq<u8>,
    r: Result<(Vec<i32>, u64, u32), WaveformError>,
) -> bool {
    match r {
        Ok(out) => decode_model(data) matches DecodeModel::Decoded { pcm, frames, rate }
            && out.0@ == pcm && out.1 == frames && out.2 == rate,
        Err(e) => match e {
            WaveformError::UnsupportedFormat(_) => decode_model(data) is NoFormat,
            WaveformError::NoDecodableTrack => decode_model(data) is NoTrack,
            WaveformError::DecoderCreation(_) => decode_model(data) is BadParams,
            WaveformError::UnsupportedChannelLayout => decode_model(data) is TooManyChannels,
            WaveformError::ResetRequired => decode_model(data) is Reset,
            WaveformError::PacketRead(_) => decode_model(data) is ReadFault,
            WaveformError::DecodeFailed(_) => decode_model(data) is DecodeFault,
            WaveformError::OutputTooLong => decode_model(data) is TooLong,
        },
    }
}

/// The probed format reader, together with the bytes it reads and how many
/// packets it has handed out — the state the named per-call outcomes are
/// indexed by. The fields are private: only this module's verified code
/// builds these values, and it sets the ghost bookkeeping from the actual
/// input, which is what entitles the wrappers' contracts to read it.
struct AudioReader {
    probed: symphonia::core::probe::ProbeResult,
    source: Ghost<Seq<u8>>,
    pos: Ghost<int>,
}

/// One packet, tagged with the bytes it came from and its position in the
/// packet stream (set by the caller of `next_packet_event`, which knows the
/// reader's position).
struct StreamPacket {
    inner: symphonia::core::formats::Packet,
    source: Ghost<Seq<u8>>,
    index: Ghost<int>,
}

/// Holds the decoding library's stateful codec decoder. The decoder is a
/// trait object, which the verifier cannot take a declaration of, so the
/// holder is opaque and only the trusted wrappers touch it.
#[verifier::external_body]
struct DecoderHandle {
    inner: Box<dyn symphonia::core::codecs::Decoder>,
}

/// A decoder for one track, together with the bytes it decodes and the
/// positions of every packet fed to it, in order.
struct AudioDecoder {
    handle: DecoderHandle,
    source: Ghost<Seq<u8>>,
    track: Ghost<int>,
    fed: Ghost<Seq<int>>,
}

/// Relies on symphonia's probe (`get_probe().format`): on success the byte
/// stream was recognized and a reader over its container is returned, on
/// failure the error's message; probing an in-memory buffer is
/// deterministic, so success is a function of the bytes (`probe_ok`).
#[verifier::external_body]
fn probe_bytes(data: Vec<u8>) -> (r: Result<symphonia::core::probe::ProbeResult, String>)
    ensures
        r matches Ok(_) ==> probe_ok(data@),
        r matches Err(_) ==> !probe_ok(data@),
{
    let mss = symphonia::core::io::MediaSourceStream::new(
        Box::new(Cursor::new(data)),
        Default::default(),
    );
    let mut hint = symphonia::core::probe::Hint::new();
    hint.with_extension("audio");
    let fmt_opts = Default::default();
    let meta_opts: symphonia::core::meta::MetadataOptions = Default::default();
    symphonia::default::get_probe()
        .format(&hint, mss, &fmt_opts, &meta_opts)
        .map_err(|e| format!("Error while probing format: {}", e))
}

/// Relies on symphonia's `FormatReader::tracks`: one descriptor per track,
/// in the reader's order, carrying the track's id, whether its codec is a
/// recognized one (not the null codec marker), and its declared sample
/// rate — the list `stream_tracks` names.
#[verifier::external_body]
fn track_descs(reader: &AudioReader) -> (r: Vec<TrackDesc>)
    ensures
        r@ == stream_tracks(reader.source@),
{
    reader
        .probed
        .format
        .tracks()
        .iter()
        .map(|t| TrackDesc {
            id: t.id,
            decodable: t.codec_params.codec != symphonia::core::codecs::CODEC_TYPE_NULL,
            sample_rate: t.codec_params.sample_rate,
        })
        .collect()
}

/// Relies on symphonia's codec registry (`get_codecs().make`): builds a
/// decoder for the track at the given position of the reader's track list
/// (success is `decoder_buildable`, a function of the bytes and the
/// position), or returns the failure's message.
#[verifier::external_body]
fn make_decoder(reader: &AudioReader, track_index: usize) -> (r: Result<DecoderHandle, String>)
    ensures
        r matches Ok(_) ==> decoder_buildable(reader.source@, track_index as int),
        r matches Err(_) ==> !decoder_buildable(reader.source@, track_index as int),
{
    let track = match reader.probed.format.tracks().get(track_index) {
        Some(t) => t,
        None => return Err("no such track".to_owned()),
    };
    symphonia::default::get_codecs()
        .make(&track.codec_params, &symphonia::core::codecs::DecoderOptions::default())
        .map(|d| DecoderHandle { inner: d })
        .map_err(|e| format!("Error while creating decoder: {}", e))
}

/// The outcome of asking the format reader for its next packet.
enum PacketEvent {
    /// A packet, tagged with the id of the track it belongs to.
    Next(u32, symphonia::core::formats::Packet),
    /// An I/O failure, treated as the end of the stream.
    EndOfStream,
    /// The reader demands a decoder reset.
    ResetRequired,
    /// Any other read failure, with its message.
    ReadFailed(String),
}

/// One decoded frame, already converted to interleaved integer samples.
struct FrameData {
    /// Channel count the frame reports.
    pub channels: u32,
    /// The frame's per-channel sample capacity, the unit the original
    /// stream's duration is counted in.
    pub capacity: u64,
    pub samples: Vec<i32>,
}

/// The outcome of decoding one packet.
enum DecodeOutcome {
    Frame(FrameData),
    /// An I/O failure, treated as the end of the stream.
    EndOfStream,
    /// Any other decode failure, with its message.
    Failed(String),
}

/// Relies on symphonia's `FormatReader::next_packet`, telling its error
/// cases apart one arm each: a packet with its track id, end of stream on
/// an I/O error, the reset signal, or any other error's message. On an
/// in-memory buffer the k-th call's outcome is a function of the bytes and
/// of k (`packet_step`).
#[verifier::external_body]
fn next_packet_event(reader: &mut AudioReader) -> (r: PacketEvent)
    ensures
        final(reader).source@ == old(reader).source@,
        final(reader).pos@ == old(reader).pos@ + 1,
        match r {
            PacketEvent::Next(id, _) => packet_step(old(reader).source@, old(reader).pos@)
                == (PacketStep::Next { track: id }),
            PacketEvent::EndOfStream => packet_step(old(reader).source@, old(reader).pos@)
                is EndOfStream,
            PacketEvent::ResetRequired => packet_step(old(reader).source@, old(reader).pos@)
                is ResetRequired,
            PacketEvent::ReadFailed(_) => packet_step(old(reader).source@, old(reader).pos@)
                is ReadFailed,
        },
{
    match reader.probed.format.next_packet() {
        Ok(packet) => {
            let id = packet.track_id();
            PacketEvent::Next(id, packet)
        }
        Err(symphonia::core::errors::Error::ResetRequired) => PacketEvent::ResetRequired,
        Err(symphonia::core::errors::Error::IoError(_)) => PacketEvent::EndOfStream,
        Err(e) => PacketEvent::ReadFailed(format!("Error reading packet: {}", e)),
    }
}

/// Relies on symphonia's `Decoder::decode` and `SampleBuffer`: a decoded
/// frame is converted to interleaved 32-bit integer samples (symphonia's
/// own sample conversions) and reported with its channel count and
/// capacity; an I/O error means end of stream; any other failure yields its
/// message. The decoders are deterministic, so the outcome is a function of
/// the bytes, the track, and the packets fed so far (`decode_step`). A
/// frame reporting no channels cannot be converted.
#[verifier::external_body]
fn decode_packet(decoder: &mut AudioDecoder, packet: &StreamPacket) -> (r: DecodeOutcome)
    requires
        packet.source@ == old(decoder).source@,
    ensures
        final(decoder).source@ == old(decoder).source@,
        final(decoder).track@ == old(decoder).track@,
        final(decoder).fed@ == old(decoder).fed@.push(packet.index@),
        match r {
            DecodeOutcome::Frame(f) => decode_step(
                old(decoder).source@,
                old(decoder).track@,
                old(decoder).fed@.push(packet.index@),
            ) == (DecodeStep::Frame { channels: f.channels, capacity: f.capacity, samples: f.samples@ }),
            DecodeOutcome::EndOfStream => decode_step(
                old(decoder).source@,
                old(decoder).track@,
                old(decoder).fed@.push(packet.index@),
            ) is EndOfStream,
            DecodeOutcome::Failed(_) => decode_step(
                old(decoder).source@,
                old(decoder).track@,
                old(decoder).fed@.push(packet.index@),
            ) is Failed,
        },
{
    match decoder.handle.inner.decode(&packet.inner) {
        Ok(buf) => {
            let channels = buf.spec().channels.count() as u32;
            let capacity = buf.capacity() as u64;
            if channels == 0 {
                return DecodeOutcome::Failed("Error decoding packet: no channels".to_owned());
            }
            let mut samples =
                symphonia::core::audio::SampleBuffer::<i32>::new(capacity, *buf.spec());
            samples.copy_interleaved_ref(buf);
            DecodeOutcome::Frame(FrameData { channels, capacity, samples: samples.samples().to_vec() })
        }
        Err(symphonia::core::errors::Error::IoError(_)) => DecodeOutcome::EndOfStream,
        Err(e) => DecodeOutcome::Failed(format!("Error decoding packet: {}", e)),
    }
}

/// Position of the first track whose codec is recognized, if any.
fn find_decodable(tracks: &Vec<TrackDesc>) -> (r: Option<usize>)
    ensures
        match r {
            Some(i) => i < tracks@.len() && tracks@[i as int].decodable && forall|k: int|
                0 <= k < i ==> !(#[trigger] tracks@[k]).decodable,
            None => forall|k: int| 0 <= k < tracks@.len() ==> !(#[trigger] tracks@[k]).decodable,
        },
        r matches Some(i) ==> first_decodable_from(tracks@, 0) == Some(i as int),
        r is None ==> first_decodable_from(tracks@, 0) is None,
{
    let mut i: usize = 0;
    while i < tracks.len()
        invariant
            i <= tracks@.len(),
            forall|k: int| 0 <= k < i ==> !(#[trigger] tracks@[k]).decodable,
            first_decodable_from(tracks@, 0) == first_decodable_from(tracks@, i as int),
        decreases tracks@.len() - i,
    {
        if tracks[i].decodable {
            return Some(i);
        }
        i = i + 1;
    }
    None
}

/// Decodes a complete audio file held in memory into its interleaved sample
/// buffer, the total frame capacity it decoded (the numerator of the
/// stream's duration in seconds), and the track's declared sample rate (the
/// denominator, always positive).
///
/// The contract states the adapter's whole behaviour over `decode_model`:
/// on success the buffer is the selected track's frames concatenated in
/// stream order and the frame count sums their capacities; each error comes
/// exactly from its own cause — unrecognized bytes, no recognized codec, no
/// usable decoder, a frame with more than two channels, a demanded reset, a
/// non-I/O read or decode failure, or a frame count past its counter. An
/// I/O failure while reading or decoding ends the stream normally, keeping
/// what was accumulated.
#[verifier::loop_isolation(false)]
pub fn read_sample(data: Vec<u8>) -> (r: Result<(Vec<i32>, u64, u32), WaveformError>)
    ensures
        read_sample_result_matches(data@, r),
        r matches Ok(out) ==> out.2 >= 1,
{
    let ghost source = data@;
    let mut reader = match probe_bytes(data) {
        Ok(p) => AudioReader { probed: p, source: Ghost(source), pos: Ghost(0) },
        Err(msg) => return Err(WaveformError::UnsupportedFormat(msg)),
    };
    let tracks = track_descs(&reader);
    let index = match find_decodable(&tracks) {
        Some(i) => i,
        None => return Err(WaveformError::NoDecodableTrack),
    };
    let track = tracks[index];
    let sample_rate = match track.sample_rate {
        Some(sr) => sr,
        None => return Err(WaveformError::DecoderCreation("no sample rate declared".to_owned())),
    };
    if sample_rate == 0 {
        return Err(WaveformError::DecoderCreation("sample rate of zero declared".to_owned()));
    }
    let mut decoder = match make_decoder(&reader, index) {
        Ok(h) => AudioDecoder {
            handle: h,
            source: Ghost(source),
            track: Ghost(index as int),
            fed: Ghost(Seq::<int>::empty()),
        },
        Err(msg) => return Err(WaveformError::DecoderCreation(msg)),
    };
    let mut audio_buffer: Vec<i32> = Vec::new();
    let mut sample_count: u64 = 0;
    // The packet loop needs a termination measure, and the reader alone
    // gives none; a stream with this many packets could not exist, and the
    // model treats an exhausted measure as the stream's end.
    let mut budget: u64 = u64::MAX;
    while budget > 0
        invariant
            reader.source@ == source,
            decoder.source@ == source,
            decoder.track@ == index as int,
            drive(
                source,
                index as int,
                track.id,
                reader.pos@,
                decoder.fed@,
                audio_buffer@,
                sample_count as int,
                budget as nat,
            ) == drive(
                source,
                index as int,
                track.id,
                0,
                Seq::<int>::empty(),
                Seq::<i32>::empty(),
                0,
                u64::MAX as nat,
            ),
        decreases budget,
    {
        budget = budget - 1;
        let ghost position = reader.pos@;
        let packet = match next_packet_event(&mut reader) {
            PacketEvent::Next(id, raw) => {
                if id != track.id {
                    continue ;
                }
                StreamPacket { inner: raw, source: Ghost(source), index: Ghost(position) }
            },
            PacketEvent::EndOfStream => { break ; },
            PacketEvent::ResetRequired => return Err(WaveformError::ResetRequired),
            PacketEvent::ReadFailed(msg) => return Err(WaveformError::PacketRead(msg)),
        };
        match decode_packet(&mut decoder, &packet) {
            DecodeOutcome::Frame(frame) => {
                if frame.channels > 2 {
                    return Err(WaveformError::UnsupportedChannelLayout);
                }
                if frame.capacity > u64::MAX - sample_count {
                    return Err(WaveformError::OutputTooLong);
                }
                sample_count = sample_count + frame.capacity;
                let mut samples = frame.samples;
                audio_buffer.append(&mut samples);
            },
            DecodeOutcome::EndOfStream => { break ; },
            DecodeOutcome::Failed(msg) => return Err(WaveformError::DecodeFailed(msg)),
        }
    }
    Ok((audio_buffer, sample_count, sample_rate))
}

} // verus!
