//! Decoding a stream: the decisions between the demuxer, the decoder and whoever wants the
//! audio.
//!
//! The demuxer hands over packets and the decoder turns each into frames. What is skipped, what
//! ends the stream and what fails it is decided here, on what the two reported.

use vstd::prelude::*;

use crate::output::{played, PlayError, PlayErrorView};
use crate::text::concat;
use crate::track::Codec;

verus! {

/// A seekable input, with its length measured once when it was opened: a fragmented stream does
/// not otherwise say where it ends.
pub struct SeekableInput<R> {
    pub inner: R,
    pub byte_len: Option<u64>,
}

impl<R> SeekableInput<R> {
    /// An input that stood at `start` when it was opened and ends at `end`.
    pub fn new(inner: R, start: u64, end: u64) -> (input: SeekableInput<R>)
        ensures
            input.inner == inner,
            input.byte_len == Some(
                if end >= start {
                    (end - start) as u64
                } else {
                    0
                },
            ),
    {
        SeekableInput {
            inner,
            byte_len: Some(
                if end >= start {
                    end - start
                } else {
                    0
                },
            ),
        }
    }

    pub fn is_seekable(&self) -> (seekable: bool)
        ensures
            seekable,
    {
        true
    }

    pub fn byte_len(&self) -> (len: Option<u64>)
        ensures
            len == self.byte_len,
    {
        self.byte_len
    }
}

/// What the demuxer handed over.
#[derive(Debug, PartialEq, Eq)]
pub enum Packet {
    /// A packet of this track.
    Of(u32),
    /// The stream ended.
    End,
    /// The set of tracks changed, in these words.
    Reset(String),
    /// Reading failed, in these words.
    Failed(String),
}

/// What the decoder made of a packet.
#[derive(Debug, PartialEq, Eq)]
pub enum Decoded {
    Audio { rate: u32, channels: u16, frames: u64 },
    /// The packet's bits are damaged.
    Damaged(String),
    /// The packet could not be read.
    Unreadable(String),
    /// Decoding failed for another reason.
    Failed(String),
}

/// What to do with what the demuxer handed over.
#[derive(Debug, Clone, Copy, PartialEq, Eq, Structural)]
pub enum Handle {
    Decode,
    Skip,
    Finish,
}

/// Why a stream could not be opened.
#[derive(Debug, PartialEq, Eq)]
pub enum OpenFault {
    /// No format matched, in these words.
    Probe(String),
    NoTrack,
    NoParams,
    /// No decoder for the codec, in these words.
    NoDecoder(String),
}

impl OpenFault {
    /// The error a playback fails with.
    pub open spec fn error(self) -> PlayErrorView {
        PlayErrorView::Decode(
            match self {
                OpenFault::Probe(e) => "probe: "@ + e@,
                OpenFault::NoTrack => "no audio track"@,
                OpenFault::NoParams => "no codec params"@,
                OpenFault::NoDecoder(e) => "no decoder: "@ + e@,
            },
        )
    }

    pub fn into_error(self) -> (e: PlayError)
        ensures
            e@ == self.error(),
    {
        PlayError::Decode(
            match self {
                OpenFault::Probe(e) => concat("probe: ", e.as_str()),
                OpenFault::NoTrack => "no audio track".to_owned(),
                OpenFault::NoParams => "no codec params".to_owned(),
                OpenFault::NoDecoder(e) => concat("no decoder: ", e.as_str()),
            },
        )
    }
}

/// What to do with a packet while the first frames are still awaited: a stream that ends or
/// changes before them has no audio.
pub open spec fn first_packet_handled(track: u32, packet: Packet) -> Result<Handle, PlayErrorView> {
    match packet {
        Packet::Of(of) => Ok(
            if of == track {
                Handle::Decode
            } else {
                Handle::Skip
            },
        ),
        Packet::End => Err(PlayErrorView::Decode("stream had no audio"@)),
        Packet::Reset(e) => Err(PlayErrorView::Decode("demux: "@ + e@)),
        Packet::Failed(e) => Err(PlayErrorView::Decode("demux: "@ + e@)),
    }
}

/// What the first frames say of the stream: its rate and channels, nothing yet if the packet was
/// damaged, or why it cannot be played.
pub open spec fn first_frames_read(decoded: Decoded) -> Result<Option<(u32, u16)>, PlayErrorView> {
    match decoded {
        Decoded::Audio { rate, channels, .. } => if rate == 0 || channels == 0 {
            Err(PlayErrorView::Decode("stream reported no rate/channels"@))
        } else {
            Ok(Some((rate, channels)))
        },
        Decoded::Damaged(_) => Ok(None),
        Decoded::Unreadable(e) => Err(PlayErrorView::Decode("decode: "@ + e@)),
        Decoded::Failed(e) => Err(PlayErrorView::Decode("decode: "@ + e@)),
    }
}

/// What to do with a packet once the stream plays: a change of tracks ends it.
pub open spec fn packet_handled(track: u32, packet: Packet) -> Result<Handle, PlayErrorView> {
    match packet {
        Packet::Of(of) => Ok(
            if of == track {
                Handle::Decode
            } else {
                Handle::Skip
            },
        ),
        Packet::End => Ok(Handle::Finish),
        Packet::Reset(_) => Ok(Handle::Finish),
        Packet::Failed(e) => Err(PlayErrorView::Decode("demux: "@ + e@)),
    }
}

/// Whether what was decoded is to be played: a packet that is damaged or unreadable is skipped.
pub open spec fn frames_read(decoded: Decoded) -> Result<bool, PlayErrorView> {
    match decoded {
        Decoded::Audio { .. } => Ok(true),
        Decoded::Damaged(_) => Ok(false),
        Decoded::Unreadable(_) => Ok(false),
        Decoded::Failed(e) => Err(PlayErrorView::Decode("decode: "@ + e@)),
    }
}

/// What to do with a packet while the first frames of `track` are still awaited.
pub fn first_packet(track: u32, packet: Packet) -> (handle: Result<Handle, PlayError>)
    ensures
        played(handle) == first_packet_handled(track, packet),
{
    match packet {
        Packet::Of(of) => {
            if of == track {
                Ok(Handle::Decode)
            } else {
                Ok(Handle::Skip)
            }
        },
        Packet::End => Err(PlayError::Decode("stream had no audio".to_owned())),
        Packet::Reset(e) => Err(PlayError::Decode(concat("demux: ", e.as_str()))),
        Packet::Failed(e) => Err(PlayError::Decode(concat("demux: ", e.as_str()))),
    }
}

/// What the first frames say of the stream.
pub fn first_frames(decoded: Decoded) -> (format: Result<Option<(u32, u16)>, PlayError>)
    ensures
        played(format) == first_frames_read(decoded),
{
    match decoded {
        Decoded::Audio { rate, channels, .. } => {
            if rate == 0 || channels == 0 {
                Err(PlayError::Decode("stream reported no rate/channels".to_owned()))
            } else {
                Ok(Some((rate, channels)))
            }
        },
        Decoded::Damaged(_) => Ok(None),
        Decoded::Unreadable(e) => Err(PlayError::Decode(concat("decode: ", e.as_str()))),
        Decoded::Failed(e) => Err(PlayError::Decode(concat("decode: ", e.as_str()))),
    }
}

/// What to do with a packet of a stream that plays `track`.
pub fn next_packet(track: u32, packet: Packet) -> (handle: Result<Handle, PlayError>)
    ensures
        played(handle) == packet_handled(track, packet),
{
    match packet {
        Packet::Of(of) => {
            if of == track {
                Ok(Handle::Decode)
            } else {
                Ok(Handle::Skip)
            }
        },
        Packet::End => Ok(Handle::Finish),
        Packet::Reset(_) => Ok(Handle::Finish),
        Packet::Failed(e) => Err(PlayError::Decode(concat("demux: ", e.as_str()))),
    }
}

/// Whether what was decoded is to be played.
pub fn next_frames(decoded: Decoded) -> (play: Result<bool, PlayError>)
    ensures
        played(play) == frames_read(decoded),
{
    match decoded {
        Decoded::Audio { .. } => Ok(true),
        Decoded::Damaged(_) => Ok(false),
        Decoded::Unreadable(_) => Ok(false),
        Decoded::Failed(e) => Err(PlayError::Decode(concat("decode: ", e.as_str()))),
    }
}

/// What a run over a whole stream found.
#[derive(Debug, Clone, Copy, PartialEq, Eq, Structural)]
pub struct DecodeSummary {
    /// The codec the container advertised for the track.
    pub codec: Codec,
    /// Frames a second, as the container advertised or the decoder found it.
    pub sample_rate: u32,
    /// Likewise the number of channels.
    pub channels: u16,
    /// Bits per sample as advertised, if they were.
    pub bit_depth: Option<u8>,
    /// Frames decoded across every packet.
    pub frames_decoded: u64,
    /// Packets of the track.
    pub packets: u64,
    /// Packets that were skipped because they could not be decoded.
    pub decode_errors: u64,
}

/// What went wrong in a run over a whole stream.
#[derive(Debug, PartialEq, Eq)]
pub enum DecodeError {
    /// The input could not be measured.
    Io(String),
    /// No format matched the stream.
    Probe(String),
    /// The container has no audio track.
    NoAudioTrack,
    /// The track has no codec parameters to build a decoder from.
    MissingCodecParams,
    /// There is no decoder for the codec.
    UnsupportedCodec(String),
    /// The stream could not be read on.
    Demux(String),
}

impl DecodeError {
    /// The error in words.
    pub open spec fn text(self) -> Seq<char> {
        match self {
            DecodeError::Io(e) => "io error preparing media source: "@ + e@,
            DecodeError::Probe(e) => "format probe failed: "@ + e@,
            DecodeError::NoAudioTrack => "no audio track in container"@,
            DecodeError::MissingCodecParams => "audio track missing codec parameters"@,
            DecodeError::UnsupportedCodec(e) => "no decoder for codec: "@ + e@,
            DecodeError::Demux(e) => "fatal demux error: "@ + e@,
        }
    }

    pub fn message(&self) -> (text: String)
        ensures
            text@ == self.text(),
    {
        match self {
            DecodeError::Io(e) => concat("io error preparing media source: ", e.as_str()),
            DecodeError::Probe(e) => concat("format probe failed: ", e.as_str()),
            DecodeError::NoAudioTrack => "no audio track in container".to_owned(),
            DecodeError::MissingCodecParams => "audio track missing codec parameters".to_owned(),
            DecodeError::UnsupportedCodec(e) => concat("no decoder for codec: ", e.as_str()),
            DecodeError::Demux(e) => concat("fatal demux error: ", e.as_str()),
        }
    }
}

/// What the container advertised of a track.
#[derive(Debug, Clone, Copy, PartialEq, Eq, Structural)]
pub struct TrackParams {
    pub track: u32,
    pub codec: Codec,
    pub bits_per_sample: Option<u32>,
    pub sample_rate: Option<u32>,
    pub channels: Option<u16>,
}

/// A run over a whole stream.
#[derive(Debug, Clone, Copy, PartialEq, Eq, Structural)]
pub struct Tally {
    /// The track being decoded.
    pub track: u32,
    /// What it has come to so far.
    pub summary: DecodeSummary,
}

impl Tally {
    /// The run before its first packet. A depth beyond 255 bits counts as 255, a rate or channel
    /// count that was not advertised as zero.
    pub open spec fn begun(params: TrackParams) -> Tally {
        Tally {
            track: params.track,
            summary: DecodeSummary {
                codec: params.codec,
                sample_rate: match params.sample_rate {
                    Some(rate) => rate,
                    None => 0,
                },
                channels: match params.channels {
                    Some(channels) => channels,
                    None => 0,
                },
                bit_depth: match params.bits_per_sample {
                    Some(bits) => Some(
                        if bits > 255 {
                            255
                        } else {
                            bits as u8
                        },
                    ),
                    None => None,
                },
                frames_decoded: 0,
                packets: 0,
                decode_errors: 0,
            },
        }
    }

    /// The summary after one more packet was decoded into `decoded`.
    pub open spec fn with(self, decoded: Decoded) -> DecodeSummary {
        let counted = DecodeSummary {
            packets: (self.summary.packets + 1) as u64,
            ..self.summary
        };
        match decoded {
            Decoded::Audio { rate, channels, frames } => DecodeSummary {
                sample_rate: if counted.sample_rate == 0 {
                    rate
                } else {
                    counted.sample_rate
                },
                channels: if counted.channels == 0 {
                    channels
                } else {
                    counted.channels
                },
                frames_decoded: (counted.frames_decoded + frames) as u64,
                ..counted
            },
            Decoded::Damaged(_) | Decoded::Unreadable(_) => DecodeSummary {
                decode_errors: (counted.decode_errors + 1) as u64,
                ..counted
            },
            Decoded::Failed(_) => counted,
        }
    }

    pub fn new(params: TrackParams) -> (tally: Tally)
        ensures
            tally == Tally::begun(params),
    {
        let sample_rate: u32 = match params.sample_rate {
            Some(rate) => rate,
            None => 0,
        };
        let channels: u16 = match params.channels {
            Some(channels) => channels,
            None => 0,
        };
        let bit_depth: Option<u8> = match params.bits_per_sample {
            Some(bits) => if bits > 255 {
                Some(255)
            } else {
                Some(bits as u8)
            },
            None => None,
        };
        Tally {
            track: params.track,
            summary: DecodeSummary {
                codec: params.codec,
                sample_rate,
                channels,
                bit_depth,
                frames_decoded: 0,
                packets: 0,
                decode_errors: 0,
            },
        }
    }

    /// What to do with a packet: decode it if it is of the track, stop at the end of the stream
    /// or where its tracks change, fail where it cannot be read on.
    pub fn packet(&self, packet: Packet) -> (handle: Result<Handle, DecodeError>)
        ensures
            match (packet, handle) {
                (Packet::Of(of), Ok(handle)) => handle == if of == self.track {
                    Handle::Decode
                } else {
                    Handle::Skip
                },
                (Packet::End, Ok(handle)) => handle == Handle::Finish,
                (Packet::Reset(_), Ok(handle)) => handle == Handle::Finish,
                (Packet::Failed(why), Err(e)) => e == DecodeError::Demux(why),
                _ => false,
            },
    {
        match packet {
            Packet::Of(of) => {
                if of == self.track {
                    Ok(Handle::Decode)
                } else {
                    Ok(Handle::Skip)
                }
            },
            Packet::End => Ok(Handle::Finish),
            Packet::Reset(_) => Ok(Handle::Finish),
            Packet::Failed(why) => Err(DecodeError::Demux(why)),
        }
    }

    /// Count a packet of the track and what it was decoded into.
    pub fn decoded(&mut self, decoded: Decoded) -> (result: Result<(), DecodeError>)
        requires
            old(self).summary.packets < u64::MAX,
            old(self).summary.decode_errors < u64::MAX,
            decoded matches Decoded::Audio { frames, .. } ==> old(self).summary.frames_decoded
                + frames <= u64::MAX,
        ensures
            final(self).track == old(self).track,
            final(self).summary == old(self).with(decoded),
            match (decoded, result) {
                (Decoded::Failed(why), Err(e)) => e == DecodeError::Demux(why),
                (Decoded::Failed(_), Ok(_)) => false,
                (_, result) => result is Ok,
            },
    {
        self.summary.packets = self.summary.packets + 1;
        match decoded {
            Decoded::Audio { rate, channels, frames } => {
                if self.summary.sample_rate == 0 {
                    self.summary.sample_rate = rate;
                }
                if self.summary.channels == 0 {
                    self.summary.channels = channels;
                }
                self.summary.frames_decoded = self.summary.frames_decoded + frames;
                Ok(())
            },
            Decoded::Damaged(_) | Decoded::Unreadable(_) => {
                self.summary.decode_errors = self.summary.decode_errors + 1;
                Ok(())
            },
            Decoded::Failed(why) => Err(DecodeError::Demux(why)),
        }
    }
}

/// Every packet of the track is counted, and counted as skipped exactly when it was damaged or
/// unreadable: a clean run has no errors.
pub proof fn a_clean_packet_is_no_error(tally: Tally, decoded: Decoded)
    requires
        tally.summary.packets < u64::MAX,
        tally.summary.decode_errors < u64::MAX,
    ensures
        tally.with(decoded).packets == tally.summary.packets + 1,
        tally.with(decoded).decode_errors == tally.summary.decode_errors + if decoded is Damaged
            || decoded is Unreadable {
            1int
        } else {
            0int
        },
        tally.with(decoded).codec == tally.summary.codec,
        tally.with(decoded).bit_depth == tally.summary.bit_depth,
        tally.summary.sample_rate != 0 ==> tally.with(decoded).sample_rate
            == tally.summary.sample_rate,
{
}

/// Packets of the track are decoded and those of another passed over, whether the stream has begun
/// or not. Before anything was heard its end is an error; later it is the end.
pub proof fn packets_of_the_track_are_decoded(track: u32, of: u32, why: String)
    ensures
        of == track ==> first_packet_handled(track, Packet::Of(of)) == Ok::<Handle, PlayErrorView>(
            Handle::Decode,
        ) && packet_handled(track, Packet::Of(of)) == Ok::<Handle, PlayErrorView>(Handle::Decode),
        of != track ==> first_packet_handled(track, Packet::Of(of)) == Ok::<Handle, PlayErrorView>(
            Handle::Skip,
        ) && packet_handled(track, Packet::Of(of)) == Ok::<Handle, PlayErrorView>(Handle::Skip),
        first_packet_handled(track, Packet::End) is Err,
        first_packet_handled(track, Packet::Reset(why)) is Err,
        first_packet_handled(track, Packet::Failed(why)) is Err,
        packet_handled(track, Packet::End) == Ok::<Handle, PlayErrorView>(Handle::Finish),
        packet_handled(track, Packet::Reset(why)) == Ok::<Handle, PlayErrorView>(Handle::Finish),
        packet_handled(track, Packet::Failed(why)) is Err,
{
}

/// The first frames give the stream its format; a damaged packet before them is waited out, and
/// later one costs its sound. What the decoder cannot read fails a stream that has not begun, and
/// what it fails on fails any.
pub proof fn damage_costs_only_its_packet(rate: u32, channels: u16, frames: u64, why: String)
    ensures
        rate > 0 && channels > 0 ==> first_frames_read(
            Decoded::Audio { rate, channels, frames },
        ) == Ok::<Option<(u32, u16)>, PlayErrorView>(Some((rate, channels))),
        rate == 0 || channels == 0 ==> first_frames_read(
            Decoded::Audio { rate, channels, frames },
        ) is Err,
        first_frames_read(Decoded::Damaged(why)) == Ok::<Option<(u32, u16)>, PlayErrorView>(None),
        first_frames_read(Decoded::Unreadable(why)) is Err,
        first_frames_read(Decoded::Failed(why)) is Err,
        frames_read(Decoded::Audio { rate, channels, frames }) == Ok::<bool, PlayErrorView>(true),
        frames_read(Decoded::Damaged(why)) == Ok::<bool, PlayErrorView>(false),
        frames_read(Decoded::Unreadable(why)) == Ok::<bool, PlayErrorView>(false),
        frames_read(Decoded::Failed(why)) is Err,
{
}

/// A tally begins with what the container says and counts the frames that are decoded; what the
/// container left out is taken from the first frames.
pub proof fn a_tally_counts_what_is_decoded(
    params: TrackParams,
    tally: Tally,
    rate: u32,
    channels: u16,
    frames: u64,
)
    requires
        tally.summary.frames_decoded + frames <= u64::MAX,
    ensures
        ({
            let begun = Tally::begun(params);
            &&& begun.track == params.track
            &&& begun.summary.codec == params.codec
            &&& params.sample_rate is Some ==> begun.summary.sample_rate == params.sample_rate->0
            &&& params.channels is Some ==> begun.summary.channels == params.channels->0
            &&& params.bits_per_sample is Some && params.bits_per_sample->0 <= 255
                ==> begun.summary.bit_depth == Some(params.bits_per_sample->0 as u8)
            &&& params.bits_per_sample is None ==> begun.summary.bit_depth is None
            &&& begun.summary.frames_decoded == 0 && begun.summary.packets == 0
                && begun.summary.decode_errors == 0
        }),
        ({
            let after = tally.with(Decoded::Audio { rate, channels, frames });
            &&& after.frames_decoded == tally.summary.frames_decoded + frames
            &&& tally.summary.sample_rate == 0 ==> after.sample_rate == rate
            &&& tally.summary.channels == 0 ==> after.channels == channels
            &&& tally.summary.channels != 0 ==> after.channels == tally.summary.channels
        }),
{
}

} // verus!
