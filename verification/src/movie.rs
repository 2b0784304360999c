//! Movies in pieces: budgets, timelines and the order of pictures and sound.
//!
//! The codecs run outside. They hand out samples as single-precision numbers and
//! give no promise on malformed files.

use vstd::prelude::*;

use crate::float::Float32;
use crate::text;
use crate::yuv::YuvFrame;

verus! {

/// Why a movie cannot be decoded.
#[derive(Debug, Clone, Copy, PartialEq, Eq, Structural)]
pub enum FvpMovieDecodeError {
    Unsupported,
    Decode,
    Budget,
    Timeline,
}

impl FvpMovieDecodeError {
    pub open spec fn line(self) -> Seq<char> {
        match self {
            FvpMovieDecodeError::Unsupported => "ASTRA_FVP_MOVIE_CODEC_UNSUPPORTED"@,
            FvpMovieDecodeError::Decode => "ASTRA_FVP_MOVIE_DECODE"@,
            FvpMovieDecodeError::Budget => "ASTRA_FVP_MOVIE_BUDGET"@,
            FvpMovieDecodeError::Timeline => "ASTRA_FVP_MOVIE_TIMELINE"@,
        }
    }

    pub fn to_text(self) -> (r: &'static str)
        ensures
            r@ == self.line(),
    {
        match self {
            FvpMovieDecodeError::Unsupported => "ASTRA_FVP_MOVIE_CODEC_UNSUPPORTED",
            FvpMovieDecodeError::Decode => "ASTRA_FVP_MOVIE_DECODE",
            FvpMovieDecodeError::Budget => "ASTRA_FVP_MOVIE_BUDGET",
            FvpMovieDecodeError::Timeline => "ASTRA_FVP_MOVIE_TIMELINE",
        }
    }
}

// ------------------------------------------------------------------ recognition

/// Who can decode a movie.
#[derive(Debug, Clone, Copy, PartialEq, Eq, Structural)]
pub enum FvpMovieCompatibility {
    Native,
    PlatformProviderRequired,
    Unsupported,
}

/// The codec of a movie file.
#[derive(Debug, Clone, Copy, PartialEq, Eq, Structural)]
pub enum MovieCodec {
    Wmv,
    Mpeg,
}

/// A text without the dots at its start.
pub open spec fn without_dots(s: Seq<char>) -> Seq<char>
    decreases s.len(),
{
    if s.len() > 0 && s[0] == '.' {
        without_dots(s.subrange(1, s.len() as int))
    } else {
        s
    }
}

/// A file extension in its plain form.
pub open spec fn plain_extension(extension: Seq<char>) -> Seq<char> {
    text::lower(without_dots(extension))
}

/// The codec behind a file extension.
pub open spec fn codec_of(extension: Seq<char>) -> Option<MovieCodec> {
    let plain = plain_extension(extension);
    if plain == "wmv"@ || plain == "asf"@ {
        Some(MovieCodec::Wmv)
    } else if plain == "mpg"@ || plain == "mpeg"@ {
        Some(MovieCodec::Mpeg)
    } else {
        None
    }
}

/// Who can decode a movie with the extension, where `platform` tells that the host's
/// platform decodes the family's own containers.
pub open spec fn compatibility_of(extension: Seq<char>, platform: bool) -> FvpMovieCompatibility {
    let plain = plain_extension(extension);
    if codec_of(extension) is Some {
        if platform {
            FvpMovieCompatibility::PlatformProviderRequired
        } else {
            FvpMovieCompatibility::Native
        }
    } else if plain == "mp4"@ || plain == "m4v"@ {
        FvpMovieCompatibility::PlatformProviderRequired
    } else {
        FvpMovieCompatibility::Unsupported
    }
}

fn plain(extension: &str) -> (r: String)
    ensures
        r@ == plain_extension(extension@),
{
    let v = text::chars_of(extension);
    let mut start: usize = 0;
    assert(v@.subrange(0, v@.len() as int) =~= v@);
    while start < v.len() && v[start] == '.'
        invariant
            start <= v@.len(),
            without_dots(v@) == without_dots(v@.subrange(start as int, v@.len() as int)),
        decreases v@.len() - start,
    {
        assert(v@.subrange(start as int, v@.len() as int).subrange(
            1,
            v@.len() - start,
        ) =~= v@.subrange(start + 1, v@.len() as int));
        start = start + 1;
    }
    let rest = text::slice_chars(&v, start, v.len());
    text::string_of(&text::to_lower(&rest))
}

fn codec(name: &str) -> (r: Option<MovieCodec>)
    ensures
        r == if name@ == "wmv"@ || name@ == "asf"@ {
            Some(MovieCodec::Wmv)
        } else if name@ == "mpg"@ || name@ == "mpeg"@ {
            Some(MovieCodec::Mpeg)
        } else {
            None
        },
{
    if text::same_text(name, "wmv") || text::same_text(name, "asf") {
        Some(MovieCodec::Wmv)
    } else if text::same_text(name, "mpg") || text::same_text(name, "mpeg") {
        Some(MovieCodec::Mpeg)
    } else {
        None
    }
}

/// Who can decode a movie. On a host whose platform decodes the family's own
/// containers, they are handed to the platform.
pub fn fvp_movie_compatibility(extension: &str, platform: bool) -> (r: FvpMovieCompatibility)
    ensures
        r == compatibility_of(extension@, platform),
{
    let name = plain(extension);
    match codec(name.as_str()) {
        Some(_) => if platform {
            FvpMovieCompatibility::PlatformProviderRequired
        } else {
            FvpMovieCompatibility::Native
        },
        None => if text::same_text(name.as_str(), "mp4") || text::same_text(name.as_str(), "m4v") {
            FvpMovieCompatibility::PlatformProviderRequired
        } else {
            FvpMovieCompatibility::Unsupported
        },
    }
}

// ----------------------------------------------------------------------- packets

/// A picture of a movie.
#[derive(Debug)]
pub struct FvpMovieFrame {
    pub pts_ms: u64,
    pub width: u32,
    pub height: u32,
    pub rgba8: Vec<u8>,
}

/// The sound of a whole movie.
#[derive(Debug)]
pub struct FvpMovieAudio {
    pub sample_rate: u32,
    pub channels: u16,
    pub samples: Vec<Float32>,
}

/// A piece of the sound of a movie.
#[derive(Debug)]
pub struct FvpMovieAudioChunk {
    pub pts_ms: u64,
    pub sample_rate: u32,
    pub channels: u16,
    pub samples: Vec<Float32>,
}

#[derive(Debug)]
pub enum FvpMoviePacket {
    Video(FvpMovieFrame),
    Audio(FvpMovieAudioChunk),
    End,
}

/// A movie that is decoded piece by piece, with its budgets.
#[derive(Debug, Clone, Copy, PartialEq, Eq)]
pub struct FvpMovieStreamDecoder {
    pub max_frames: usize,
    pub max_decoded_bytes: usize,
    pub max_audio_samples: usize,
    pub frame_count: usize,
    pub decoded_bytes: usize,
    pub audio_samples: usize,
    pub previous_video_pts: Option<u64>,
    pub audio_format: Option<(u32, u16)>,
    pub ended: bool,
}

/// What `used` and `more` are together, if it stays within `budget`.
fn within(used: usize, more: usize, budget: usize) -> (r: Option<usize>)
    ensures
        r == if used + more <= budget {
            Some((used + more) as usize)
        } else {
            None
        },
{
    match used.checked_add(more) {
        None => None,
        Some(total) => if total <= budget {
            Some(total)
        } else {
            None
        },
    }
}

/// A decoder that has handed out nothing yet.
pub open spec fn fresh_decoder(frames: usize, bytes: usize, samples: usize) -> FvpMovieStreamDecoder {
    FvpMovieStreamDecoder {
        max_frames: frames,
        max_decoded_bytes: bytes,
        max_audio_samples: samples,
        frame_count: 0,
        decoded_bytes: 0,
        audio_samples: 0,
        previous_video_pts: None,
        audio_format: None,
        ended: false,
    }
}

impl FvpMovieStreamDecoder {
    /// The budgets hold for what was handed out.
    pub open spec fn wf(&self) -> bool {
        &&& self.frame_count <= self.max_frames
        &&& self.decoded_bytes <= self.max_decoded_bytes
        &&& self.audio_samples <= self.max_audio_samples
    }

    /// The decoder after a picture, and the failure.
    pub open spec fn after_video(self, frame: FvpMovieFrame) -> (
        FvpMovieStreamDecoder,
        Option<FvpMovieDecodeError>,
    ) {
        let bytes = self.decoded_bytes + frame.rgba8@.len();
        let counted = FvpMovieStreamDecoder { frame_count: (self.frame_count + 1) as usize, ..self };
        if frame.width == 0 || frame.height == 0 || (self.previous_video_pts is Some
            && frame.pts_ms < self.previous_video_pts->0) {
            (self, Some(FvpMovieDecodeError::Timeline))
        } else if self.frame_count + 1 > self.max_frames {
            (self, Some(FvpMovieDecodeError::Budget))
        } else if bytes > self.max_decoded_bytes {
            (counted, Some(FvpMovieDecodeError::Budget))
        } else {
            (
                FvpMovieStreamDecoder {
                    decoded_bytes: bytes as usize,
                    previous_video_pts: Some(frame.pts_ms),
                    ..counted
                },
                None,
            )
        }
    }

    /// The decoder after a piece of sound, and the failure.
    pub open spec fn after_audio(self, chunk: FvpMovieAudioChunk) -> (
        FvpMovieStreamDecoder,
        Option<FvpMovieDecodeError>,
    ) {
        let format = (chunk.sample_rate, chunk.channels);
        let samples = self.audio_samples + chunk.samples@.len();
        let known = FvpMovieStreamDecoder { audio_format: Some(format), ..self };
        if chunk.sample_rate == 0 || chunk.channels == 0 || chunk.samples@.len() == 0
            || chunk.samples@.len() % (chunk.channels as nat) != 0 {
            (self, Some(FvpMovieDecodeError::Decode))
        } else if self.audio_format is Some && self.audio_format->0 != format {
            (self, Some(FvpMovieDecodeError::Decode))
        } else if samples > self.max_audio_samples {
            (known, Some(FvpMovieDecodeError::Budget))
        } else {
            (FvpMovieStreamDecoder { audio_samples: samples as usize, ..known }, None)
        }
    }

    /// The decoder after a packet, and the failure.
    pub open spec fn after_packet(self, packet: FvpMoviePacket) -> (
        FvpMovieStreamDecoder,
        Option<FvpMovieDecodeError>,
    ) {
        match packet {
            FvpMoviePacket::Video(frame) => self.after_video(frame),
            FvpMoviePacket::Audio(chunk) => self.after_audio(chunk),
            FvpMoviePacket::End => (
                FvpMovieStreamDecoder { ended: true, ..self },
                if self.frame_count == 0 {
                    Some(FvpMovieDecodeError::Decode)
                } else {
                    None
                },
            ),
        }
    }

    /// Whether the codec is asked for another packet.
    pub fn wants_packet(&self) -> (r: bool)
        ensures
            r == !self.ended,
    {
        !self.ended
    }

    fn take_video(&mut self, frame: &FvpMovieFrame) -> (r: Result<(), FvpMovieDecodeError>)
        ensures
            *final(self) == old(self).after_video(*frame).0,
            match old(self).after_video(*frame).1 {
                None => r is Ok,
                Some(e) => r is Err && r->Err_0 == e,
            },
    {
        let backwards = match self.previous_video_pts {
            Some(previous) => frame.pts_ms < previous,
            None => false,
        };
        if frame.width == 0 || frame.height == 0 || backwards {
            return Err(FvpMovieDecodeError::Timeline);
        }
        self.frame_count = match within(self.frame_count, 1, self.max_frames) {
            Some(count) => count,
            None => return Err(FvpMovieDecodeError::Budget),
        };
        self.decoded_bytes = match within(
            self.decoded_bytes,
            frame.rgba8.len(),
            self.max_decoded_bytes,
        ) {
            Some(bytes) => bytes,
            None => return Err(FvpMovieDecodeError::Budget),
        };
        self.previous_video_pts = Some(frame.pts_ms);
        Ok(())
    }

    fn take_audio(&mut self, chunk: &FvpMovieAudioChunk) -> (r: Result<(), FvpMovieDecodeError>)
        ensures
            *final(self) == old(self).after_audio(*chunk).0,
            match old(self).after_audio(*chunk).1 {
                None => r is Ok,
                Some(e) => r is Err && r->Err_0 == e,
            },
    {
        if chunk.sample_rate == 0 || chunk.channels == 0 || chunk.samples.len() == 0 {
            return Err(FvpMovieDecodeError::Decode);
        }
        if chunk.samples.len() % (chunk.channels as usize) != 0 {
            return Err(FvpMovieDecodeError::Decode);
        }
        match self.audio_format {
            Some(format) => {
                if format.0 != chunk.sample_rate || format.1 != chunk.channels {
                    return Err(FvpMovieDecodeError::Decode);
                }
            },
            None => {},
        }
        self.audio_format = Some((chunk.sample_rate, chunk.channels));
        self.audio_samples = match within(
            self.audio_samples,
            chunk.samples.len(),
            self.max_audio_samples,
        ) {
            Some(samples) => samples,
            None => return Err(FvpMovieDecodeError::Budget),
        };
        Ok(())
    }

    /// Takes the next packet of the codec, or its failure. Behind the end there is
    /// only the end.
    pub fn next_packet(&mut self, packet: Result<FvpMoviePacket, FvpMovieDecodeError>) -> (r: Result<
        FvpMoviePacket,
        FvpMovieDecodeError,
    >)
        ensures
            if old(self).ended {
                &&& r is Ok && r->Ok_0 is End
                &&& *final(self) == *old(self)
            } else {
                match packet {
                    Err(e) => r is Err && r->Err_0 == e && *final(self) == *old(self),
                    Ok(p) => {
                        let after = old(self).after_packet(p);
                        &&& *final(self) == after.0
                        &&& match after.1 {
                            None => r is Ok && r->Ok_0 == p,
                            Some(e) => r is Err && r->Err_0 == e,
                        }
                    },
                }
            },
    {
        if self.ended {
            return Ok(FvpMoviePacket::End);
        }
        let packet = match packet {
            Ok(v) => v,
            Err(e) => return Err(e),
        };
        let outcome = match &packet {
            FvpMoviePacket::Video(frame) => self.take_video(frame),
            FvpMoviePacket::Audio(chunk) => self.take_audio(chunk),
            FvpMoviePacket::End => {
                self.ended = true;
                if self.frame_count == 0 {
                    Err(FvpMovieDecodeError::Decode)
                } else {
                    Ok(())
                }
            },
        };
        match outcome {
            Ok(_) => Ok(packet),
            Err(e) => Err(e),
        }
    }
}

/// Opens a movie: the codec that has to run, and the decoder with its budgets.
pub fn open_fvp_movie_stream(
    extension: &str,
    byte_len: usize,
    max_frames: usize,
    max_decoded_bytes: usize,
    max_audio_samples: usize,
) -> (r: Result<(MovieCodec, FvpMovieStreamDecoder), FvpMovieDecodeError>)
    ensures
        if byte_len == 0 || max_frames == 0 || max_decoded_bytes == 0 || max_audio_samples == 0 {
            r is Err && r->Err_0 == FvpMovieDecodeError::Budget
        } else {
            match codec_of(extension@) {
                None => r is Err && r->Err_0 == FvpMovieDecodeError::Unsupported,
                Some(codec) => r is Ok && r->Ok_0 == (
                    codec,
                    fresh_decoder(max_frames, max_decoded_bytes, max_audio_samples),
                ),
            }
        },
{
    if byte_len == 0 || max_frames == 0 || max_decoded_bytes == 0 || max_audio_samples == 0 {
        return Err(FvpMovieDecodeError::Budget);
    }
    let name = plain(extension);
    match codec(name.as_str()) {
        None => Err(FvpMovieDecodeError::Unsupported),
        Some(codec) => Ok(
            (
                codec,
                FvpMovieStreamDecoder {
                    max_frames,
                    max_decoded_bytes,
                    max_audio_samples,
                    frame_count: 0,
                    decoded_bytes: 0,
                    audio_samples: 0,
                    previous_video_pts: None,
                    audio_format: None,
                    ended: false,
                },
            ),
        ),
    }
}

// ------------------------------------------------------------------- WMV streams

/// What became of opening the sound of a movie.
#[derive(Debug, Clone, Copy, PartialEq, Eq, Structural)]
pub enum AudioOpening {
    Opened,
    /// The movie has no sound that the codec knows.
    Unsupported,
    Failed,
}

/// What the interleaving asks of the codecs next.
#[derive(Debug, Clone, Copy, PartialEq, Eq, Structural)]
pub enum WmvRequest {
    Video,
    Audio,
    /// Nothing: a packet can be taken.
    Ready,
}

/// Pictures and sound of one movie, put in order of time.
#[derive(Debug)]
pub struct WmvInterleave {
    pub has_audio: bool,
    pub pending_video: Option<FvpMovieFrame>,
    pub pending_audio: Option<FvpMovieAudioChunk>,
    pub video_eof: bool,
    pub audio_eof: bool,
}

impl WmvInterleave {
    /// The codecs were opened, or were not.
    pub fn open(video_opened: bool, audio: AudioOpening) -> (r: Result<Self, FvpMovieDecodeError>)
        ensures
            if !video_opened || audio == AudioOpening::Failed {
                r is Err && r->Err_0 == FvpMovieDecodeError::Decode
            } else {
                r is Ok && r->Ok_0 == (WmvInterleave {
                    has_audio: audio == AudioOpening::Opened,
                    pending_video: None,
                    pending_audio: None,
                    video_eof: false,
                    audio_eof: false,
                })
            },
    {
        let has_audio = match audio {
            AudioOpening::Opened => true,
            AudioOpening::Unsupported => false,
            AudioOpening::Failed => return Err(FvpMovieDecodeError::Decode),
        };
        if !video_opened {
            return Err(FvpMovieDecodeError::Decode);
        }
        Ok(
            WmvInterleave {
                has_audio,
                pending_video: None,
                pending_audio: None,
                video_eof: false,
                audio_eof: false,
            },
        )
    }

    /// What is missing before a packet can be taken: the next picture, then the next
    /// piece of sound.
    pub open spec fn missing(&self) -> WmvRequest {
        if self.pending_video is None && !self.video_eof {
            WmvRequest::Video
        } else if self.pending_audio is None && !self.audio_eof && self.has_audio {
            WmvRequest::Audio
        } else {
            WmvRequest::Ready
        }
    }

    pub fn request(&self) -> (r: WmvRequest)
        ensures
            r == self.missing(),
    {
        if self.pending_video.is_none() && !self.video_eof {
            WmvRequest::Video
        } else if self.pending_audio.is_none() && !self.audio_eof && self.has_audio {
            WmvRequest::Audio
        } else {
            WmvRequest::Ready
        }
    }

    /// Takes the next picture of the codec: a picture with its time, the end, or a
    /// failure.
    pub fn accept_video(&mut self, reply: Result<Option<(u32, YuvFrame)>, FvpMovieDecodeError>) -> (r:
        Result<(), FvpMovieDecodeError>)
        requires
            old(self).missing() == WmvRequest::Video,
        ensures
            match reply {
                Err(_) => {
                    &&& r is Err && r->Err_0 == FvpMovieDecodeError::Decode
                    &&& *final(self) == *old(self)
                },
                Ok(None) => {
                    &&& r is Ok
                    &&& *final(self) == (WmvInterleave { video_eof: true, ..*old(self) })
                },
                Ok(Some(picture)) => match crate::yuv::picture_fault(picture.1) {
                    Some(e) => r is Err && r->Err_0 == e && *final(self) == *old(self),
                    None => {
                        &&& r is Ok
                        &&& final(self).pending_video matches Some(frame)
                        &&& frame.pts_ms == picture.0
                        &&& frame.width == picture.1.width
                        &&& frame.height == picture.1.height
                        &&& frame.rgba8@.len() == 4 * (picture.1.width * picture.1.height)
                        &&& forall|p: int|
                            0 <= p < picture.1.width * picture.1.height
                                ==> #[trigger] crate::yuv::holds_pixel(
                                frame.rgba8@,
                                picture.1,
                                p,
                            )
                        &&& *final(self) == (WmvInterleave {
                            pending_video: Some(frame),
                            ..*old(self)
                        })
                    },
                },
            },
    {
        match reply {
            Err(_) => Err(FvpMovieDecodeError::Decode),
            Ok(None) => {
                self.video_eof = true;
                Ok(())
            },
            Ok(Some((pts_ms, picture))) => match crate::yuv::yuv420_to_rgba(&picture) {
                Err(e) => Err(e),
                Ok(rgba8) => {
                    self.pending_video = Some(
                        FvpMovieFrame {
                            pts_ms: pts_ms as u64,
                            width: picture.width,
                            height: picture.height,
                            rgba8,
                        },
                    );
                    Ok(())
                },
            },
        }
    }

    /// Takes the next piece of sound of the codec, its end, or its failure.
    pub fn accept_audio(&mut self, reply: Result<Option<FvpMovieAudioChunk>, FvpMovieDecodeError>) -> (r:
        Result<(), FvpMovieDecodeError>)
        requires
            old(self).missing() == WmvRequest::Audio,
        ensures
            match reply {
                Err(_) => {
                    &&& r is Err && r->Err_0 == FvpMovieDecodeError::Decode
                    &&& *final(self) == *old(self)
                },
                Ok(chunk) => {
                    &&& r is Ok
                    &&& *final(self) == (WmvInterleave {
                        pending_audio: chunk,
                        audio_eof: chunk is None,
                        ..*old(self)
                    })
                },
            },
    {
        match reply {
            Err(_) => Err(FvpMovieDecodeError::Decode),
            Ok(chunk) => {
                self.audio_eof = chunk.is_none();
                self.pending_audio = chunk;
                Ok(())
            },
        }
    }

    /// Takes the earlier of the pending picture and the pending piece of sound. A
    /// picture comes before sound of the same time.
    pub fn take(&mut self) -> (r: FvpMoviePacket)
        requires
            old(self).missing() == WmvRequest::Ready,
        ensures
            match (old(self).pending_video, old(self).pending_audio) {
                (Some(video), Some(audio)) => if audio.pts_ms < video.pts_ms {
                    &&& r == FvpMoviePacket::Audio(audio)
                    &&& *final(self) == (WmvInterleave { pending_audio: None, ..*old(self) })
                } else {
                    &&& r == FvpMoviePacket::Video(video)
                    &&& *final(self) == (WmvInterleave { pending_video: None, ..*old(self) })
                },
                (Some(video), None) => {
                    &&& r == FvpMoviePacket::Video(video)
                    &&& *final(self) == (WmvInterleave { pending_video: None, ..*old(self) })
                },
                (None, Some(audio)) => {
                    &&& r == FvpMoviePacket::Audio(audio)
                    &&& *final(self) == (WmvInterleave { pending_audio: None, ..*old(self) })
                },
                (None, None) => r is End && *final(self) == *old(self),
            },
    {
        let sound_first = match (&self.pending_video, &self.pending_audio) {
            (Some(video), Some(audio)) => audio.pts_ms < video.pts_ms,
            (None, Some(_)) => true,
            _ => false,
        };
        if sound_first {
            let mut chunk: Option<FvpMovieAudioChunk> = None;
            core::mem::swap(&mut chunk, &mut self.pending_audio);
            match chunk {
                Some(c) => FvpMoviePacket::Audio(c),
                None => FvpMoviePacket::End,
            }
        } else {
            let mut frame: Option<FvpMovieFrame> = None;
            core::mem::swap(&mut frame, &mut self.pending_video);
            match frame {
                Some(f) => FvpMoviePacket::Video(f),
                None => FvpMoviePacket::End,
            }
        }
    }
}

// ------------------------------------------------------------------ MPEG streams

/// Bytes of a file that are handed to the codec at a time.
pub const MPEG_INPUT_CHUNK_BYTES: usize = 64 * 1024;

/// Packets that may wait to be taken.
pub const MAX_PENDING_PACKETS: usize = 256;

/// A packet of the codec, with a time that may lie before the start.
#[derive(Debug)]
pub enum MpegEvent {
    Video { pts_ms: i64, width: u32, height: u32, rgba8: Vec<u8> },
    Audio { pts_ms: i64, sample_rate: u32, channels: u16, samples: Vec<Float32> },
}

/// A time, but not one before the start.
pub open spec fn from_start(pts_ms: i64) -> u64 {
    if pts_ms < 0 {
        0
    } else {
        pts_ms as u64
    }
}

/// The packet for an event of the codec.
pub open spec fn packet_of(event: MpegEvent) -> FvpMoviePacket {
    match event {
        MpegEvent::Video { pts_ms, width, height, rgba8 } => FvpMoviePacket::Video(
            FvpMovieFrame { pts_ms: from_start(pts_ms), width, height, rgba8 },
        ),
        MpegEvent::Audio { pts_ms, sample_rate, channels, samples } => FvpMoviePacket::Audio(
            FvpMovieAudioChunk { pts_ms: from_start(pts_ms), sample_rate, channels, samples },
        ),
    }
}

/// What a file stream does next.
#[derive(Debug)]
pub enum MpegStep {
    Packet(FvpMoviePacket),
    /// Hand these bytes of the file to the codec.
    Push { from: usize, to: usize },
    /// Tell the codec that the file is over.
    Flush,
}

/// A file on its way through the codec, with the events that wait to be taken.
#[derive(Debug)]
pub struct MpegFeed {
    pub len: usize,
    pub offset: usize,
    pub flushed: bool,
    pub pending: Vec<MpegEvent>,
}

/// The end of the piece of a file that starts at `offset`.
pub open spec fn piece_end(offset: usize, len: usize) -> usize {
    if offset + MPEG_INPUT_CHUNK_BYTES < len {
        (offset + MPEG_INPUT_CHUNK_BYTES) as usize
    } else {
        len
    }
}

impl MpegFeed {
    pub open spec fn wf(&self) -> bool {
        self.offset <= self.len
    }

    /// A file of `len` bytes of which the codec has seen nothing.
    pub fn new(len: usize) -> (r: Self)
        ensures
            r.wf(),
            r.len == len,
            r.offset == 0,
            !r.flushed,
            r.pending@.len() == 0,
    {
        MpegFeed { len, offset: 0, flushed: false, pending: Vec::new() }
    }

    /// The next step: waiting events first, then the next piece of the file, then
    /// its end, then the end of the movie.
    pub fn next(&mut self) -> (r: MpegStep)
        requires
            old(self).wf(),
        ensures
            final(self).wf(),
            final(self).len == old(self).len,
            final(self).offset == old(self).offset,
            final(self).flushed == old(self).flushed,
            if old(self).pending@.len() > 0 {
                &&& r == MpegStep::Packet(packet_of(old(self).pending@[0]))
                &&& final(self).pending@ == old(self).pending@.subrange(
                    1,
                    old(self).pending@.len() as int,
                )
            } else {
                &&& final(self).pending@ == old(self).pending@
                &&& if old(self).offset < old(self).len {
                    r == (MpegStep::Push {
                        from: old(self).offset,
                        to: piece_end(old(self).offset, old(self).len),
                    })
                } else if !old(self).flushed {
                    r is Flush
                } else {
                    r == MpegStep::Packet(FvpMoviePacket::End)
                }
            },
    {
        if self.pending.len() > 0 {
            let event = self.pending.remove(0);
            assert(self.pending@ =~= old(self).pending@.subrange(
                1,
                old(self).pending@.len() as int,
            ));
            return MpegStep::Packet(
                match event {
                    MpegEvent::Video { pts_ms, width, height, rgba8 } => FvpMoviePacket::Video(
                        FvpMovieFrame { pts_ms: clip(pts_ms), width, height, rgba8 },
                    ),
                    MpegEvent::Audio { pts_ms, sample_rate, channels, samples } => {
                        FvpMoviePacket::Audio(
                            FvpMovieAudioChunk {
                                pts_ms: clip(pts_ms),
                                sample_rate,
                                channels,
                                samples,
                            },
                        )
                    },
                },
            );
        }
        if self.offset < self.len {
            let left: usize = self.len - self.offset;
            let to: usize = if left > MPEG_INPUT_CHUNK_BYTES {
                self.offset + MPEG_INPUT_CHUNK_BYTES
            } else {
                self.len
            };
            return MpegStep::Push { from: self.offset, to };
        }
        if !self.flushed {
            return MpegStep::Flush;
        }
        MpegStep::Packet(FvpMoviePacket::End)
    }

    /// The codec was fed as the last step asked: its events, and whether it took the
    /// bytes. Events that came before a failure stay.
    pub fn accept(&mut self, events: Vec<MpegEvent>, taken: bool) -> (r: Result<
        (),
        FvpMovieDecodeError,
    >)
        requires
            old(self).wf(),
            old(self).pending@.len() == 0,
        ensures
            final(self).wf(),
            final(self).len == old(self).len,
            final(self).pending@ == events@,
            if !taken {
                &&& r is Err && r->Err_0 == FvpMovieDecodeError::Decode
                &&& final(self).offset == old(self).offset
                &&& final(self).flushed == old(self).flushed
            } else {
                &&& if old(self).offset < old(self).len {
                    &&& final(self).offset == piece_end(old(self).offset, old(self).len)
                    &&& final(self).flushed == old(self).flushed
                } else {
                    &&& final(self).offset == old(self).offset
                    &&& final(self).flushed
                }
                &&& if events@.len() > MAX_PENDING_PACKETS {
                    r is Err && r->Err_0 == FvpMovieDecodeError::Budget
                } else {
                    r is Ok
                }
            },
    {
        self.pending = events;
        if !taken {
            return Err(FvpMovieDecodeError::Decode);
        }
        if self.offset < self.len {
            let left: usize = self.len - self.offset;
            self.offset = if left > MPEG_INPUT_CHUNK_BYTES {
                self.offset + MPEG_INPUT_CHUNK_BYTES
            } else {
                self.len
            };
        } else {
            self.flushed = true;
        }
        if self.pending.len() > MAX_PENDING_PACKETS {
            return Err(FvpMovieDecodeError::Budget);
        }
        Ok(())
    }
}

fn clip(pts_ms: i64) -> (r: u64)
    ensures
        r == from_start(pts_ms),
{
    if pts_ms < 0 {
        0
    } else {
        pts_ms as u64
    }
}

// ---------------------------------------------------------------- packet streams

/// What came through the queue of a decoding thread.
#[derive(Debug)]
pub enum QueueReply {
    Packet(Result<FvpMoviePacket, FvpMovieDecodeError>),
    Empty,
    Disconnected,
}

/// The receiving end of a movie that is decoded on another thread.
#[derive(Debug, Clone, Copy, PartialEq, Eq, Structural)]
pub struct FvpMoviePacketStream {
    pub ended: bool,
}

impl FvpMoviePacketStream {
    /// A stream needs room for at least one packet.
    pub fn open(queue_capacity: usize) -> (r: Result<Self, FvpMovieDecodeError>)
        ensures
            if queue_capacity == 0 {
                r is Err && r->Err_0 == FvpMovieDecodeError::Budget
            } else {
                r is Ok && !r->Ok_0.ended
            },
    {
        if queue_capacity == 0 {
            return Err(FvpMovieDecodeError::Budget);
        }
        Ok(FvpMoviePacketStream { ended: false })
    }

    /// Takes what came through the queue. Behind the end there is only the end.
    pub fn try_next(&mut self, reply: QueueReply) -> (r: Result<
        Option<FvpMoviePacket>,
        FvpMovieDecodeError,
    >)
        ensures
            if old(self).ended {
                r is Ok && r->Ok_0 is Some && r->Ok_0->0 is End && *final(self) == *old(self)
            } else {
                match reply {
                    QueueReply::Empty => r is Ok && r->Ok_0 is None && *final(self) == *old(self),
                    QueueReply::Disconnected => {
                        &&& r is Err && r->Err_0 == FvpMovieDecodeError::Decode
                        &&& *final(self) == *old(self)
                    },
                    QueueReply::Packet(Err(e)) => r is Err && r->Err_0 == e && *final(self) == *old(
                        self,
                    ),
                    QueueReply::Packet(Ok(packet)) => {
                        &&& r is Ok && r->Ok_0 == Some(packet)
                        &&& final(self).ended == (packet is End)
                    },
                }
            },
    {
        if self.ended {
            return Ok(Some(FvpMoviePacket::End));
        }
        match reply {
            QueueReply::Empty => Ok(None),
            QueueReply::Disconnected => Err(FvpMovieDecodeError::Decode),
            QueueReply::Packet(Err(e)) => Err(e),
            QueueReply::Packet(Ok(packet)) => {
                match &packet {
                    FvpMoviePacket::End => {
                        self.ended = true;
                    },
                    _ => {},
                }
                Ok(Some(packet))
            },
        }
    }
}

// ---------------------------------------------------------------- decoded movies

/// A movie as a whole.
#[derive(Debug)]
pub struct FvpDecodedMovie {
    pub frames: Vec<FvpMovieFrame>,
    pub audio: Option<FvpMovieAudio>,
    pub duration_ms: u64,
}

/// The time between pictures where the pictures do not tell.
pub const DEFAULT_FRAME_STEP_MS: u64 = 34;

/// The first step forward between the pictures from `i` on and the one before each.
pub open spec fn first_step(frames: Seq<FvpMovieFrame>, i: int) -> u64
    decreases frames.len() - i,
{
    if i <= 0 || i >= frames.len() {
        DEFAULT_FRAME_STEP_MS
    } else if frames[i].pts_ms > frames[i - 1].pts_ms {
        (frames[i].pts_ms - frames[i - 1].pts_ms) as u64
    } else {
        first_step(frames, i + 1)
    }
}

/// Whether a picture can stand behind another one.
pub open spec fn frame_in_place(frames: Seq<FvpMovieFrame>, i: int) -> bool {
    &&& frames[i].width > 0
    &&& frames[i].height > 0
    &&& i > 0 ==> frames[i - 1].pts_ms <= frames[i].pts_ms
}

/// The duration of a movie: the time of the last picture and one step.
pub open spec fn duration_of(frames: Seq<FvpMovieFrame>) -> Result<u64, FvpMovieDecodeError> {
    if frames.len() == 0 {
        Err(FvpMovieDecodeError::Decode)
    } else if exists|i: int| 0 <= i < frames.len() && !#[trigger] frame_in_place(frames, i) {
        Err(FvpMovieDecodeError::Timeline)
    } else if frames.last().pts_ms + first_step(frames, 1) > u64::MAX {
        Err(FvpMovieDecodeError::Timeline)
    } else {
        Ok((frames.last().pts_ms + first_step(frames, 1)) as u64)
    }
}

/// Gives a movie its duration.
pub fn normalize_timeline(movie: &mut FvpDecodedMovie) -> (r: Result<(), FvpMovieDecodeError>)
    ensures
        match duration_of(old(movie).frames@) {
            Ok(duration_ms) => {
                &&& r is Ok
                &&& *final(movie) == (FvpDecodedMovie { duration_ms, ..*old(movie) })
            },
            Err(e) => r is Err && r->Err_0 == e && *final(movie) == *old(movie),
        },
{
    let count: usize = movie.frames.len();
    if count == 0 {
        return Err(FvpMovieDecodeError::Decode);
    }
    let mut i: usize = 0;
    while i < count
        invariant
            *movie == *old(movie),
            count == movie.frames@.len(),
            i <= count,
            count > 0,
            forall|j: int| 0 <= j < i ==> #[trigger] frame_in_place(movie.frames@, j),
        decreases count - i,
    {
        let frame = &movie.frames[i];
        if frame.width == 0 || frame.height == 0 || (i > 0 && frame.pts_ms < movie.frames[i
            - 1].pts_ms) {
            assert(!frame_in_place(movie.frames@, i as int));
            return Err(FvpMovieDecodeError::Timeline);
        }
        i = i + 1;
    }
    let mut step: u64 = DEFAULT_FRAME_STEP_MS;
    let mut k: usize = 1;
    while k < count
        invariant_except_break
            step == DEFAULT_FRAME_STEP_MS,
            first_step(movie.frames@, 1) == first_step(movie.frames@, k as int),
        invariant
            *movie == *old(movie),
            count == movie.frames@.len(),
            1 <= k <= count,
            count > 0,
            forall|j: int| 0 <= j < count ==> #[trigger] frame_in_place(movie.frames@, j),
        ensures
            step == first_step(movie.frames@, 1),
        decreases count - k,
    {
        let now: u64 = movie.frames[k].pts_ms;
        let before: u64 = movie.frames[k - 1].pts_ms;
        if now > before {
            step = now - before;
            break;
        }
        k = k + 1;
    }
    match movie.frames[count - 1].pts_ms.checked_add(step) {
        Some(duration_ms) => {
            movie.duration_ms = duration_ms;
            Ok(())
        },
        None => Err(FvpMovieDecodeError::Timeline),
    }
}

impl FvpDecodedMovie {
    /// A movie of which nothing is decoded yet.
    pub fn new() -> (r: Self)
        ensures
            r.frames@.len() == 0,
            r.audio is None,
            r.duration_ms == 0,
    {
        FvpDecodedMovie { frames: Vec::new(), audio: None, duration_ms: 0 }
    }

    /// Takes a packet; `false` at the end. The sound keeps the format of its first
    /// piece.
    pub fn collect(&mut self, packet: FvpMoviePacket) -> (r: bool)
        ensures
            r == !(packet is End),
            final(self).duration_ms == old(self).duration_ms,
            match packet {
                FvpMoviePacket::Video(frame) => {
                    &&& final(self).frames@ == old(self).frames@.push(frame)
                    &&& final(self).audio == old(self).audio
                },
                FvpMoviePacket::Audio(chunk) => {
                    &&& final(self).frames == old(self).frames
                    &&& final(self).audio matches Some(sound)
                    &&& match old(self).audio {
                        None => {
                            &&& sound.sample_rate == chunk.sample_rate
                            &&& sound.channels == chunk.channels
                            &&& sound.samples@ == chunk.samples@
                        },
                        Some(before) => {
                            &&& sound.sample_rate == before.sample_rate
                            &&& sound.channels == before.channels
                            &&& sound.samples@ == before.samples@ + chunk.samples@
                        },
                    }
                },
                FvpMoviePacket::End => *final(self) == *old(self),
            },
    {
        match packet {
            FvpMoviePacket::Video(frame) => {
                self.frames.push(frame);
                true
            },
            FvpMoviePacket::Audio(chunk) => {
                let mut before: Option<FvpMovieAudio> = None;
                core::mem::swap(&mut before, &mut self.audio);
                let mut more = chunk.samples;
                let sound = match before {
                    None => FvpMovieAudio {
                        sample_rate: chunk.sample_rate,
                        channels: chunk.channels,
                        samples: more,
                    },
                    Some(mut audio) => {
                        audio.samples.append(&mut more);
                        audio
                    },
                };
                self.audio = Some(sound);
                true
            },
            FvpMoviePacket::End => false,
        }
    }
}

/// The first part of decoding a whole movie: the codec that has to run, the decoder
/// with its budgets, and the movie to collect into.
pub fn decode_fvp_movie(
    extension: &str,
    bytes: &[u8],
    max_frames: usize,
    max_decoded_bytes: usize,
    max_audio_samples: usize,
) -> (r: Result<(MovieCodec, FvpMovieStreamDecoder, FvpDecodedMovie), FvpMovieDecodeError>)
    ensures
        if bytes@.len() == 0 || max_frames == 0 || max_decoded_bytes == 0 || max_audio_samples == 0 {
            r is Err && r->Err_0 == FvpMovieDecodeError::Budget
        } else {
            match codec_of(extension@) {
                None => r is Err && r->Err_0 == FvpMovieDecodeError::Unsupported,
                Some(codec) => {
                    &&& r matches Ok(parts)
                    &&& parts.0 == codec
                    &&& parts.1 == fresh_decoder(max_frames, max_decoded_bytes, max_audio_samples)
                    &&& parts.2.frames@.len() == 0
                    &&& parts.2.audio is None
                    &&& parts.2.duration_ms == 0
                },
            }
        },
{
    match open_fvp_movie_stream(
        extension,
        bytes.len(),
        max_frames,
        max_decoded_bytes,
        max_audio_samples,
    ) {
        Ok((codec, decoder)) => Ok((codec, decoder, FvpDecodedMovie::new())),
        Err(e) => Err(e),
    }
}

// ----------------------------------------------------------------------- laws

/// A decoder never hands out more than its budgets: they hold after every packet,
/// accepted or not.
pub proof fn law_budgets_hold(decoder: FvpMovieStreamDecoder, packet: FvpMoviePacket)
    requires
        decoder.wf(),
    ensures
        decoder.after_packet(packet).0.wf(),
        decoder.after_packet(packet).0.max_frames == decoder.max_frames,
        decoder.after_packet(packet).0.max_decoded_bytes == decoder.max_decoded_bytes,
        decoder.after_packet(packet).0.max_audio_samples == decoder.max_audio_samples,
{
}

/// The pictures of a stream never go back in time: an accepted picture is not
/// earlier than the accepted one before it.
pub proof fn law_pictures_are_in_order(
    decoder: FvpMovieStreamDecoder,
    first: FvpMovieFrame,
    between: FvpMovieAudioChunk,
    second: FvpMovieFrame,
)
    requires
        decoder.after_video(first).1 is None,
    ensures
        decoder.after_video(first).0.after_video(second).1 is None ==> first.pts_ms
            <= second.pts_ms,
        decoder.after_video(first).0.after_audio(between).0.after_video(second).1 is None
            ==> first.pts_ms <= second.pts_ms,
{
}

/// The sound of a stream has one format.
pub proof fn law_sound_has_one_format(
    decoder: FvpMovieStreamDecoder,
    first: FvpMovieAudioChunk,
    second: FvpMovieAudioChunk,
)
    requires
        decoder.after_audio(first).1 is None,
        decoder.after_audio(first).0.after_audio(second).1 is None,
    ensures
        first.sample_rate == second.sample_rate,
        first.channels == second.channels,
{
}

/// The pieces that a file is handed over in, from `offset` on.
pub open spec fn pieces(data: Seq<u8>, offset: usize) -> Seq<u8>
    decreases data.len() - offset,
{
    if offset >= data.len() || data.len() > usize::MAX {
        Seq::empty()
    } else {
        let to = piece_end(offset, data.len() as usize);
        data.subrange(offset as int, to as int) + pieces(data, to)
    }
}

/// The codec sees every byte of a file, once and in order.
pub proof fn law_codec_sees_the_file(data: Seq<u8>, offset: usize)
    requires
        offset <= data.len() <= usize::MAX,
    ensures
        pieces(data, offset) == data.subrange(offset as int, data.len() as int),
    decreases data.len() - offset,
{
    if offset < data.len() {
        let to = piece_end(offset, data.len() as usize);
        law_codec_sees_the_file(data, to);
        assert(data.subrange(offset as int, to as int) + data.subrange(
            to as int,
            data.len() as int,
        ) =~= data.subrange(offset as int, data.len() as int));
    } else {
        assert(data.subrange(offset as int, data.len() as int) =~= Seq::empty());
    }
}

/// A movie lasts longer than until its last picture.
pub proof fn law_duration_covers_the_movie(frames: Seq<FvpMovieFrame>)
    requires
        duration_of(frames) is Ok,
    ensures
        forall|i: int|
            0 <= i < frames.len() ==> (#[trigger] frames[i]).pts_ms < duration_of(frames)->Ok_0,
{
    lemma_first_step(frames, 1);
    assert forall|i: int| 0 <= i < frames.len() implies (#[trigger] frames[i]).pts_ms
        <= frames.last().pts_ms by {
        lemma_frames_ordered(frames, i, frames.len() - 1);
    }
}

proof fn lemma_first_step(frames: Seq<FvpMovieFrame>, i: int)
    ensures
        first_step(frames, i) > 0,
    decreases frames.len() - i,
{
    if 0 < i < frames.len() && frames[i].pts_ms <= frames[i - 1].pts_ms {
        lemma_first_step(frames, i + 1);
    }
}

proof fn lemma_frames_ordered(frames: Seq<FvpMovieFrame>, i: int, j: int)
    requires
        0 <= i <= j < frames.len(),
        forall|k: int| 0 <= k < frames.len() ==> #[trigger] frame_in_place(frames, k),
    ensures
        frames[i].pts_ms <= frames[j].pts_ms,
    decreases j - i,
{
    if i < j {
        lemma_frames_ordered(frames, i, j - 1);
        assert(frame_in_place(frames, j));
    }
}

/// Dots in front of an extension do not matter, and neither does the case of its letters:
/// `wmv` and `asf` go to the one codec, `mpg` and `mpeg` to the other, and no other extension
/// to either. The codecs are native unless the platform decodes for itself; `mp4` and `m4v`
/// always need the platform, and nothing else is supported.
pub proof fn law_extensions_choose_the_codec(extension: Seq<char>, platform: bool)
    ensures
        codec_of(seq!['.'] + extension) == codec_of(extension),
        compatibility_of(seq!['.'] + extension, platform) == compatibility_of(extension, platform),
        extension.len() == 0 || extension[0] != '.' ==> {
            let is = |name: Seq<char>| text::same_ignoring_case(extension, name);
            &&& codec_of(extension) == Some(MovieCodec::Wmv) <==> is("wmv"@) || is("asf"@)
            &&& codec_of(extension) == Some(MovieCodec::Mpeg) <==> is("mpg"@) || is("mpeg"@)
            &&& compatibility_of(extension, platform) is Native <==> !platform && (is("wmv"@) || is(
                "asf"@,
            ) || is("mpg"@) || is("mpeg"@))
            &&& compatibility_of(extension, platform) is PlatformProviderRequired <==> (platform && (
            is("wmv"@) || is("asf"@) || is("mpg"@) || is("mpeg"@))) || is("mp4"@) || is("m4v"@)
        },
{
    let dotted = seq!['.'] + extension;
    assert(dotted.subrange(1, dotted.len() as int) =~= extension);
    reveal_strlit("wmv");
    reveal_strlit("asf");
    reveal_strlit("mpg");
    reveal_strlit("mpeg");
    reveal_strlit("mp4");
    reveal_strlit("m4v");
    assert(text::lower("wmv"@) =~= "wmv"@);
    assert(text::lower("asf"@) =~= "asf"@);
    assert(text::lower("mpg"@) =~= "mpg"@);
    assert(text::lower("mpeg"@) =~= "mpeg"@);
    assert(text::lower("mp4"@) =~= "mp4"@);
    assert(text::lower("m4v"@) =~= "m4v"@);
    assert("wmv"@[0] == 'w' && "asf"@[0] == 'a' && "mpg"@[0] == 'm' && "mpeg"@[0] == 'm');
    assert("mpg"@[2] == 'g' && "mpeg"@[2] == 'e' && "mp4"@[2] == '4' && "m4v"@[2] == 'v');
    assert("mp4"@[0] == 'm' && "m4v"@[0] == 'm');
}

/// A picture is accepted if and only if it has a size, is not earlier than the last one and
/// keeps to the budgets of pictures and bytes; it then counts once, with its bytes.
pub proof fn law_pictures_are_accepted_within_budget(
    decoder: FvpMovieStreamDecoder,
    frame: FvpMovieFrame,
)
    ensures
        ({
            let (after, failure) = decoder.after_packet(FvpMoviePacket::Video(frame));
            let timely = frame.width > 0 && frame.height > 0 && (
            decoder.previous_video_pts matches Some(before) ==> before <= frame.pts_ms);
            &&& failure is None <==> timely && decoder.frame_count < decoder.max_frames
                && decoder.decoded_bytes + frame.rgba8@.len() <= decoder.max_decoded_bytes
            &&& failure is Some ==> failure == Some(
                if timely {
                    FvpMovieDecodeError::Budget
                } else {
                    FvpMovieDecodeError::Timeline
                },
            )
            &&& failure is None ==> {
                &&& after.frame_count == decoder.frame_count + 1
                &&& after.decoded_bytes == decoder.decoded_bytes + frame.rgba8@.len()
                &&& after.previous_video_pts == Some(frame.pts_ms)
            }
            &&& after.audio_samples == decoder.audio_samples
            &&& after.audio_format == decoder.audio_format
            &&& after.ended == decoder.ended
        }),
{
}

/// A piece of sound is accepted if and only if it has a rate, whole samples for each of its
/// channels, the format of the sound before it, and keeps to the budget of samples. A movie
/// may end if and only if it has shown a picture.
pub proof fn law_sound_is_accepted_within_budget(
    decoder: FvpMovieStreamDecoder,
    chunk: FvpMovieAudioChunk,
)
    ensures
        ({
            let (after, failure) = decoder.after_packet(FvpMoviePacket::Audio(chunk));
            let whole = chunk.sample_rate > 0 && chunk.channels > 0 && chunk.samples@.len() > 0
                && chunk.samples@.len() % (chunk.channels as nat) == 0;
            let alike = decoder.audio_format matches Some((rate, channels)) ==> rate
                == chunk.sample_rate && channels == chunk.channels;
            &&& failure is None <==> whole && alike && decoder.audio_samples + chunk.samples@.len()
                <= decoder.max_audio_samples
            &&& failure is Some ==> failure == Some(
                if whole && alike {
                    FvpMovieDecodeError::Budget
                } else {
                    FvpMovieDecodeError::Decode
                },
            )
            &&& failure is None ==> {
                &&& after.audio_samples == decoder.audio_samples + chunk.samples@.len()
                &&& after.audio_format == Some((chunk.sample_rate, chunk.channels))
            }
            &&& after.frame_count == decoder.frame_count
            &&& after.decoded_bytes == decoder.decoded_bytes
            &&& after.previous_video_pts == decoder.previous_video_pts
        }),
        decoder.after_packet(FvpMoviePacket::End).1 is None <==> decoder.frame_count > 0,
        decoder.after_packet(FvpMoviePacket::End).0.ended,
{
}

/// A packet is taken once both sides are there or over: a picture is asked for as long as
/// none waits and the pictures are not over, and then sound in the same way, if there is any.
pub proof fn law_both_sides_are_asked(movie: WmvInterleave)
    ensures
        movie.missing() is Video <==> movie.pending_video is None && !movie.video_eof,
        movie.missing() is Ready ==> movie.pending_video is Some || movie.video_eof,
        movie.missing() is Ready ==> movie.pending_audio is Some || movie.audio_eof
            || !movie.has_audio,
        movie.missing() is Audio ==> movie.pending_audio is None && movie.has_audio
            && !movie.audio_eof,
        movie.pending_video is Some && movie.pending_audio is Some ==> movie.missing() is Ready,
{
}

/// A packet says what the event of the codec says; a time before the start counts as the
/// start.
pub proof fn law_packets_say_what_events_say(event: MpegEvent)
    ensures
        match event {
            MpegEvent::Video { pts_ms, width, height, rgba8 } => {
                &&& packet_of(event) matches FvpMoviePacket::Video(frame) && frame.width == width
                    && frame.height == height && frame.rgba8 == rgba8 && (pts_ms >= 0
                    ==> frame.pts_ms == pts_ms) && (pts_ms < 0 ==> frame.pts_ms == 0)
            },
            MpegEvent::Audio { pts_ms, sample_rate, channels, samples } => {
                &&& packet_of(event) matches FvpMoviePacket::Audio(chunk) && chunk.sample_rate
                    == sample_rate && chunk.channels == channels && chunk.samples == samples && (
                pts_ms >= 0 ==> chunk.pts_ms == pts_ms) && (pts_ms < 0 ==> chunk.pts_ms == 0)
            },
        },
{
}

/// A file goes to the codec in pieces of 64 KiB, the last one with what is left.
pub proof fn law_pieces_are_bounded(offset: usize, len: usize)
    requires
        offset < len,
    ensures
        offset < piece_end(offset, len) <= len,
        piece_end(offset, len) - offset <= 65_536,
        piece_end(offset, len) < len ==> piece_end(offset, len) == offset + 65_536,
{
}

proof fn lemma_step_found(frames: Seq<FvpMovieFrame>, i: int, k: int)
    requires
        1 <= i <= k <= frames.len(),
        forall|j: int| i <= j < k ==> frames[j - 1].pts_ms >= (#[trigger] frames[j]).pts_ms,
    ensures
        k < frames.len() && frames[k].pts_ms > frames[k - 1].pts_ms ==> first_step(frames, i)
            == frames[k].pts_ms - frames[k - 1].pts_ms,
        k == frames.len() ==> first_step(frames, i) == 34,
    decreases k - i,
{
    if i < k {
        assert(frames[i - 1].pts_ms >= frames[i].pts_ms);
        lemma_step_found(frames, i + 1, k);
    }
}

/// A movie lasts until its last picture and one step more: the first step forward between
/// two pictures that follow each other, at place `k`, or 34 milliseconds where all pictures
/// are of one time. It has a duration if and only if it has pictures, all of them with a
/// size and none earlier than the one before, and the duration is a number.
pub proof fn law_duration_is_the_end_of_the_last_picture(frames: Seq<FvpMovieFrame>, k: int)
    requires
        1 <= k <= frames.len(),
        forall|j: int| 0 <= j < frames.len() ==> (#[trigger] frames[j]).width > 0 && frames[j].height > 0,
        forall|i: int, j: int| 0 <= i <= j < frames.len() ==> (#[trigger] frames[i]).pts_ms <= (
        #[trigger] frames[j]).pts_ms,
        forall|j: int| 1 <= j < k ==> frames[j - 1].pts_ms == (#[trigger] frames[j]).pts_ms,
        k < frames.len() ==> frames[k - 1].pts_ms < frames[k].pts_ms,
    ensures
        ({
            let step = if k < frames.len() {
                frames[k].pts_ms - frames[k - 1].pts_ms
            } else {
                34
            };
            let end = frames.last().pts_ms + step;
            &&& end <= u64::MAX ==> duration_of(frames) == Ok::<u64, FvpMovieDecodeError>(
                end as u64,
            )
            &&& end > u64::MAX ==> duration_of(frames) == Err::<u64, FvpMovieDecodeError>(
                FvpMovieDecodeError::Timeline,
            )
        }),
{
    lemma_step_found(frames, 1, k);
    assert forall|i: int| 0 <= i < frames.len() implies #[trigger] frame_in_place(frames, i) by {
        if i > 0 {
            assert(frames[i - 1].pts_ms <= frames[i].pts_ms);
        }
        assert(frames[i].width > 0);
    }
}

/// A movie without pictures cannot be decoded, and one with a picture without size or out
/// of order has no timeline.
pub proof fn law_broken_timelines_are_refused(frames: Seq<FvpMovieFrame>, i: int)
    ensures
        frames.len() == 0 ==> duration_of(frames) == Err::<u64, FvpMovieDecodeError>(
            FvpMovieDecodeError::Decode,
        ),
        0 <= i < frames.len() && (frames[i].width == 0 || frames[i].height == 0) ==> duration_of(
            frames,
        ) == Err::<u64, FvpMovieDecodeError>(FvpMovieDecodeError::Timeline),
        0 < i < frames.len() && frames[i].pts_ms < frames[i - 1].pts_ms ==> duration_of(frames)
            == Err::<u64, FvpMovieDecodeError>(FvpMovieDecodeError::Timeline),
{
    if 0 <= i < frames.len() {
        let fine = frame_in_place(frames, i);
    }
}

/// A new decoder has the budgets that it was given, each as itself, and has handed out
/// nothing.
pub proof fn law_new_decoder_has_its_budgets(frames: usize, bytes: usize, samples: usize)
    ensures
        ({
            let decoder = fresh_decoder(frames, bytes, samples);
            &&& decoder.max_frames == frames
            &&& decoder.max_decoded_bytes == bytes
            &&& decoder.max_audio_samples == samples
            &&& decoder.frame_count == 0
            &&& decoder.decoded_bytes == 0
            &&& decoder.audio_samples == 0
            &&& decoder.previous_video_pts is None
            &&& decoder.audio_format is None
            &&& !decoder.ended
            &&& decoder.wf()
        }),
{
}

/// Each failure of a movie has a code of its own.
pub proof fn law_movie_failures_have_their_codes()
    ensures
        FvpMovieDecodeError::Unsupported.line() == "ASTRA_FVP_MOVIE_CODEC_UNSUPPORTED"@,
        FvpMovieDecodeError::Decode.line() == "ASTRA_FVP_MOVIE_DECODE"@,
        FvpMovieDecodeError::Budget.line() == "ASTRA_FVP_MOVIE_BUDGET"@,
        FvpMovieDecodeError::Timeline.line() == "ASTRA_FVP_MOVIE_TIMELINE"@,
{
}

}
