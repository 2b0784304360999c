//! Sound and movie output of a hosted step, as commands of the family boundary.
//!
//! The boundary checks each command with rules of its own. A verdict is `None`
//! for a command that it accepts and its code for one that it refuses.

use vstd::prelude::*;

use crate::float::Float32;
use crate::host_api::{AudioSampleFormat, EncodedAudioKind};
use crate::recording::{AudioOp, HostedAudioOperation};
use crate::session::{HostedVideoOperation, VideoOp};
use crate::text;

verus! {

/// The largest movie that a command may name, in bytes.
pub const MAX_VIDEO_RESOURCE_BYTES: u64 = 512 * 1024 * 1024;

#[derive(Debug, Clone, Copy, PartialEq, Eq, Structural)]
pub enum LegacyAudioEncoding {
    Unknown,
    Wav,
    Ogg,
    Mp3,
    Flac,
}

#[derive(Debug, Clone, Copy, PartialEq, Eq, Structural)]
pub enum LegacyAudioSampleFormat {
    I16,
    F32,
}

#[derive(Debug, Clone, Copy, PartialEq, Eq, Structural)]
pub enum LegacyVideoMode {
    ModalWithAudio,
    LayerNoAudio,
}

/// A sound command of the boundary.
#[allow(inconsistent_fields)]
#[derive(Debug)]
pub enum LegacyAudioCommandV1 {
    LoadResource { stream_id: u32, encoding: LegacyAudioEncoding, resource_uri: String },
    CreateStream {
        stream_id: u32,
        sample_rate: u32,
        channels: u16,
        sample_format: LegacyAudioSampleFormat,
    },
    SubmitI16 { stream_id: u32, samples: Vec<i16> },
    SubmitF32 { stream_id: u32, samples: Vec<Float32> },
    Play { stream_id: u32, volume: Float32, pan: Float32, repeat: bool, fade_in_ms: u32 },
    Stop { stream_id: u32, fade_ms: u32 },
    Pause { stream_id: u32 },
    Resume { stream_id: u32 },
    SetParams { stream_id: u32, volume: Float32, pan: Float32, repeat: bool },
    MasterVolume { volume: Float32 },
    DestroyStream { stream_id: u32 },
}

/// What a sound command says.
#[allow(inconsistent_fields)]
#[verifier::ext_equal]
pub enum AudioCommand {
    LoadResource { stream_id: u32, encoding: LegacyAudioEncoding, resource_uri: Seq<char> },
    CreateStream {
        stream_id: u32,
        sample_rate: u32,
        channels: u16,
        sample_format: LegacyAudioSampleFormat,
    },
    SubmitI16 { stream_id: u32, samples: Seq<i16> },
    SubmitF32 { stream_id: u32, samples: Seq<Float32> },
    Play { stream_id: u32, volume: Float32, pan: Float32, repeat: bool, fade_in_ms: u32 },
    Stop { stream_id: u32, fade_ms: u32 },
    Pause { stream_id: u32 },
    Resume { stream_id: u32 },
    SetParams { stream_id: u32, volume: Float32, pan: Float32, repeat: bool },
    MasterVolume { volume: Float32 },
    DestroyStream { stream_id: u32 },
}

impl LegacyAudioCommandV1 {
    pub open spec fn view(&self) -> AudioCommand {
        match *self {
            LegacyAudioCommandV1::LoadResource { stream_id, encoding, resource_uri } => {
                AudioCommand::LoadResource { stream_id, encoding, resource_uri: resource_uri@ }
            },
            LegacyAudioCommandV1::CreateStream {
                stream_id,
                sample_rate,
                channels,
                sample_format,
            } => AudioCommand::CreateStream { stream_id, sample_rate, channels, sample_format },
            LegacyAudioCommandV1::SubmitI16 { stream_id, samples } => AudioCommand::SubmitI16 {
                stream_id,
                samples: samples@,
            },
            LegacyAudioCommandV1::SubmitF32 { stream_id, samples } => AudioCommand::SubmitF32 {
                stream_id,
                samples: samples@,
            },
            LegacyAudioCommandV1::Play { stream_id, volume, pan, repeat, fade_in_ms } => {
                AudioCommand::Play { stream_id, volume, pan, repeat, fade_in_ms }
            },
            LegacyAudioCommandV1::Stop { stream_id, fade_ms } => AudioCommand::Stop {
                stream_id,
                fade_ms,
            },
            LegacyAudioCommandV1::Pause { stream_id } => AudioCommand::Pause { stream_id },
            LegacyAudioCommandV1::Resume { stream_id } => AudioCommand::Resume { stream_id },
            LegacyAudioCommandV1::SetParams { stream_id, volume, pan, repeat } => {
                AudioCommand::SetParams { stream_id, volume, pan, repeat }
            },
            LegacyAudioCommandV1::MasterVolume { volume } => AudioCommand::MasterVolume { volume },
            LegacyAudioCommandV1::DestroyStream { stream_id } => AudioCommand::DestroyStream {
                stream_id,
            },
        }
    }
}

pub open spec fn audio_commands(s: Seq<LegacyAudioCommandV1>) -> Seq<AudioCommand> {
    Seq::new(s.len(), |i: int| s[i]@)
}

/// A movie command of the boundary. A hosted session never stops a movie.
#[derive(Debug)]
pub enum LegacyVideoCommandV1 {
    Play {
        playback_id: String,
        resource_uri: String,
        mode: LegacyVideoMode,
        stage_width: u32,
        stage_height: u32,
    },
}

/// What a movie command says.
#[verifier::ext_equal]
pub struct VideoCommand {
    pub playback_id: Seq<char>,
    pub resource_uri: Seq<char>,
    pub mode: LegacyVideoMode,
    pub stage_width: u32,
    pub stage_height: u32,
}

impl LegacyVideoCommandV1 {
    pub open spec fn view(&self) -> VideoCommand {
        let LegacyVideoCommandV1::Play {
            playback_id,
            resource_uri,
            mode,
            stage_width,
            stage_height,
        } = *self;
        VideoCommand {
            playback_id: playback_id@,
            resource_uri: resource_uri@,
            mode,
            stage_width,
            stage_height,
        }
    }
}

pub open spec fn video_commands(s: Seq<LegacyVideoCommandV1>) -> Seq<VideoCommand> {
    Seq::new(s.len(), |i: int| s[i]@)
}

/// Why output cannot be handed to the boundary.
#[derive(Debug)]
pub enum HostedAdapterError {
    /// The boundary refused a command, with this code.
    InvalidPacket(String),
    VideoResourceBounds,
    EncodedAudioRequiresResource,
}

/// What an adapter failure says.
#[verifier::ext_equal]
pub enum AdapterFault {
    InvalidPacket(Seq<char>),
    VideoResourceBounds,
    EncodedAudioRequiresResource,
}

impl AdapterFault {
    /// The line shown for the failure.
    pub open spec fn line(self) -> Seq<char> {
        match self {
            AdapterFault::InvalidPacket(code) => "ASTRA_FVP_HOSTED_PACKET:"@ + code,
            AdapterFault::VideoResourceBounds => "ASTRA_FVP_HOSTED_VIDEO_RESOURCE_BOUNDS"@,
            AdapterFault::EncodedAudioRequiresResource => {
                "ASTRA_FVP_HOSTED_AUDIO_RESOURCE_REQUIRED"@
            },
        }
    }
}

impl HostedAdapterError {
    pub open spec fn view(&self) -> AdapterFault {
        match *self {
            HostedAdapterError::InvalidPacket(code) => AdapterFault::InvalidPacket(code@),
            HostedAdapterError::VideoResourceBounds => AdapterFault::VideoResourceBounds,
            HostedAdapterError::EncodedAudioRequiresResource => {
                AdapterFault::EncodedAudioRequiresResource
            },
        }
    }

    pub fn to_text(&self) -> (r: String)
        ensures
            r@ == self@.line(),
    {
        match self {
            HostedAdapterError::InvalidPacket(code) => text::join2(
                "ASTRA_FVP_HOSTED_PACKET:",
                code.as_str(),
            ),
            HostedAdapterError::VideoResourceBounds => text::owned(
                "ASTRA_FVP_HOSTED_VIDEO_RESOURCE_BOUNDS",
            ),
            HostedAdapterError::EncodedAudioRequiresResource => text::owned(
                "ASTRA_FVP_HOSTED_AUDIO_RESOURCE_REQUIRED",
            ),
        }
    }
}

/// The code with which the boundary refuses command `i`, if it does.
pub open spec fn refusal(verdicts: Seq<Option<String>>, i: int) -> Option<Seq<char>> {
    match verdicts[i] {
        Some(code) => Some(code@),
        None => None,
    }
}

// ------------------------------------------------------------------------ sound

pub open spec fn encoding_of(kind: EncodedAudioKind) -> LegacyAudioEncoding {
    match kind {
        EncodedAudioKind::Unknown => LegacyAudioEncoding::Unknown,
        EncodedAudioKind::Wav => LegacyAudioEncoding::Wav,
        EncodedAudioKind::Ogg => LegacyAudioEncoding::Ogg,
        EncodedAudioKind::Mp3 => LegacyAudioEncoding::Mp3,
        EncodedAudioKind::Flac => LegacyAudioEncoding::Flac,
    }
}

pub open spec fn format_of(format: AudioSampleFormat) -> LegacyAudioSampleFormat {
    match format {
        AudioSampleFormat::I16 => LegacyAudioSampleFormat::I16,
        AudioSampleFormat::F32 => LegacyAudioSampleFormat::F32,
    }
}

/// The command for an operation: none for a tick of the audio clock, a failure for
/// encoded bytes, which the boundary takes by their address only.
pub open spec fn audio_command_of(op: AudioOp) -> Result<Option<AudioCommand>, AdapterFault> {
    match op {
        AudioOp::LoadResource { id, kind, resource_uri } => Ok(
            Some(
                AudioCommand::LoadResource {
                    stream_id: id.0,
                    encoding: encoding_of(kind),
                    resource_uri,
                },
            ),
        ),
        AudioOp::LoadEncoded { .. } => Err(AdapterFault::EncodedAudioRequiresResource),
        AudioOp::CreateStream { id, desc } => Ok(
            Some(
                AudioCommand::CreateStream {
                    stream_id: id.0,
                    sample_rate: desc.sample_rate,
                    channels: desc.channels,
                    sample_format: format_of(desc.sample_format),
                },
            ),
        ),
        AudioOp::SubmitI16 { id, samples } => Ok(
            Some(AudioCommand::SubmitI16 { stream_id: id.0, samples }),
        ),
        AudioOp::SubmitF32 { id, samples } => Ok(
            Some(AudioCommand::SubmitF32 { stream_id: id.0, samples }),
        ),
        AudioOp::Play { id, params, fade_in_ms } => Ok(
            Some(
                AudioCommand::Play {
                    stream_id: id.0,
                    volume: params.volume,
                    pan: params.pan,
                    repeat: params.repeat,
                    fade_in_ms,
                },
            ),
        ),
        AudioOp::Stop { id, fade_ms } => Ok(Some(AudioCommand::Stop { stream_id: id.0, fade_ms })),
        AudioOp::Pause(id) => Ok(Some(AudioCommand::Pause { stream_id: id.0 })),
        AudioOp::Resume(id) => Ok(Some(AudioCommand::Resume { stream_id: id.0 })),
        AudioOp::SetParams { id, params } => Ok(
            Some(
                AudioCommand::SetParams {
                    stream_id: id.0,
                    volume: params.volume,
                    pan: params.pan,
                    repeat: params.repeat,
                },
            ),
        ),
        AudioOp::SetMasterVolume(volume) => Ok(Some(AudioCommand::MasterVolume { volume })),
        AudioOp::DestroyStream(id) => Ok(Some(AudioCommand::DestroyStream { stream_id: id.0 })),
        AudioOp::Tick { .. } => Ok(None),
    }
}

/// The commands for the operations in order, up to the first one without a command
/// form; whether all of them had one.
pub open spec fn converted(ops: Seq<AudioOp>) -> (Seq<AudioCommand>, bool)
    decreases ops.len(),
{
    if ops.len() == 0 {
        (Seq::empty(), true)
    } else {
        let before = converted(ops.drop_last());
        match audio_command_of(ops.last()) {
            Ok(Some(command)) if before.1 => (before.0.push(command), true),
            Ok(None) if before.1 => before,
            _ => (before.0, false),
        }
    }
}

/// The verdict on a row of converted commands: the first refusal counts.
pub open spec fn audio_verdict(
    conversion: (Seq<AudioCommand>, bool),
    verdicts: Seq<Option<String>>,
    i: int,
) -> Result<Seq<AudioCommand>, AdapterFault>
    decreases conversion.0.len() - i,
{
    if i >= conversion.0.len() {
        if conversion.1 {
            Ok(conversion.0)
        } else {
            Err(AdapterFault::EncodedAudioRequiresResource)
        }
    } else {
        match refusal(verdicts, i) {
            Some(code) => Err(AdapterFault::InvalidPacket(code)),
            None => audio_verdict(conversion, verdicts, i + 1),
        }
    }
}

/// Commands of one step that the boundary has yet to judge.
#[derive(Debug)]
pub struct ConvertedAudio {
    pub commands: Vec<LegacyAudioCommandV1>,
    /// Every operation had a command form.
    pub complete: bool,
}

impl ConvertedAudio {
    pub open spec fn view(&self) -> (Seq<AudioCommand>, bool) {
        (audio_commands(self.commands@), self.complete)
    }

    /// Takes the verdicts of the boundary, one per command.
    pub fn judged(self, verdicts: &Vec<Option<String>>) -> (r: Result<
        Vec<LegacyAudioCommandV1>,
        HostedAdapterError,
    >)
        requires
            verdicts@.len() == self@.0.len(),
        ensures
            match audio_verdict(self@, verdicts@, 0) {
                Ok(commands) => r is Ok && audio_commands(r->Ok_0@) == commands,
                Err(fault) => r is Err && r->Err_0@ == fault,
            },
    {
        let mut i: usize = 0;
        while i < self.commands.len()
            invariant
                i <= self.commands@.len() == verdicts@.len(),
                audio_verdict(self@, verdicts@, 0) == audio_verdict(self@, verdicts@, i as int),
            decreases self.commands@.len() - i,
        {
            match &verdicts[i] {
                Some(code) => {
                    return Err(HostedAdapterError::InvalidPacket(text::owned(code.as_str())));
                },
                None => {},
            }
            i = i + 1;
        }
        if self.complete {
            Ok(self.commands)
        } else {
            Err(HostedAdapterError::EncodedAudioRequiresResource)
        }
    }
}

fn audio_encoding(kind: EncodedAudioKind) -> (r: LegacyAudioEncoding)
    ensures
        r == encoding_of(kind),
{
    match kind {
        EncodedAudioKind::Unknown => LegacyAudioEncoding::Unknown,
        EncodedAudioKind::Wav => LegacyAudioEncoding::Wav,
        EncodedAudioKind::Ogg => LegacyAudioEncoding::Ogg,
        EncodedAudioKind::Mp3 => LegacyAudioEncoding::Mp3,
        EncodedAudioKind::Flac => LegacyAudioEncoding::Flac,
    }
}

fn sample_format(format: AudioSampleFormat) -> (r: LegacyAudioSampleFormat)
    ensures
        r == format_of(format),
{
    match format {
        AudioSampleFormat::I16 => LegacyAudioSampleFormat::I16,
        AudioSampleFormat::F32 => LegacyAudioSampleFormat::F32,
    }
}

fn audio_command(operation: HostedAudioOperation) -> (r: Result<
    Option<LegacyAudioCommandV1>,
    HostedAdapterError,
>)
    ensures
        match audio_command_of(operation@) {
            Ok(Some(command)) => r is Ok && r->Ok_0 is Some && r->Ok_0->0@ == command,
            Ok(None) => r is Ok && r->Ok_0 is None,
            Err(fault) => r is Err && r->Err_0@ == fault,
        },
{
    Ok(
        Some(
            match operation {
                HostedAudioOperation::LoadResource { id, kind, resource_uri } => {
                    LegacyAudioCommandV1::LoadResource {
                        stream_id: id.0,
                        encoding: audio_encoding(kind),
                        resource_uri,
                    }
                },
                HostedAudioOperation::LoadEncoded { .. } => {
                    return Err(HostedAdapterError::EncodedAudioRequiresResource);
                },
                HostedAudioOperation::CreateStream { id, desc } => {
                    LegacyAudioCommandV1::CreateStream {
                        stream_id: id.0,
                        sample_rate: desc.sample_rate,
                        channels: desc.channels,
                        sample_format: sample_format(desc.sample_format),
                    }
                },
                HostedAudioOperation::SubmitI16 { id, samples } => {
                    LegacyAudioCommandV1::SubmitI16 { stream_id: id.0, samples }
                },
                HostedAudioOperation::SubmitF32 { id, samples } => {
                    LegacyAudioCommandV1::SubmitF32 { stream_id: id.0, samples }
                },
                HostedAudioOperation::Play { id, params, fade_in_ms } => {
                    LegacyAudioCommandV1::Play {
                        stream_id: id.0,
                        volume: params.volume,
                        pan: params.pan,
                        repeat: params.repeat,
                        fade_in_ms,
                    }
                },
                HostedAudioOperation::Stop { id, fade_ms } => LegacyAudioCommandV1::Stop {
                    stream_id: id.0,
                    fade_ms,
                },
                HostedAudioOperation::Pause(id) => LegacyAudioCommandV1::Pause { stream_id: id.0 },
                HostedAudioOperation::Resume(id) => LegacyAudioCommandV1::Resume {
                    stream_id: id.0,
                },
                HostedAudioOperation::SetParams { id, params } => LegacyAudioCommandV1::SetParams {
                    stream_id: id.0,
                    volume: params.volume,
                    pan: params.pan,
                    repeat: params.repeat,
                },
                HostedAudioOperation::SetMasterVolume(volume) => {
                    LegacyAudioCommandV1::MasterVolume { volume }
                },
                HostedAudioOperation::DestroyStream(id) => LegacyAudioCommandV1::DestroyStream {
                    stream_id: id.0,
                },
                HostedAudioOperation::Tick { .. } => return Ok(None),
            },
        ),
    )
}

/// Converts the sound of one step, for the boundary to judge.
pub fn convert_audio(operations: Vec<HostedAudioOperation>) -> (r: ConvertedAudio)
    ensures
        r@ == converted(crate::recording::audio_ops(operations@)),
{
    let ghost ops = crate::recording::audio_ops(operations@);
    let mut commands: Vec<LegacyAudioCommandV1> = Vec::new();
    let mut complete = true;
    for operation in it: operations
        invariant
            ops == crate::recording::audio_ops(operations@),
            it.seq() == operations@,
            (audio_commands(commands@), complete) == converted(ops.subrange(0, it.index() as int)),
    {
        let ghost i = it.index() as int;
        proof {
            assert(ops.subrange(0, i + 1).drop_last() =~= ops.subrange(0, i));
            assert(ops.subrange(0, i + 1).last() == ops[i]);
            assert(ops[i] == operation@);
        }
        if complete {
            match audio_command(operation) {
                Ok(Some(command)) => {
                    let ghost before = audio_commands(commands@);
                    commands.push(command);
                    assert(audio_commands(commands@) =~= before.push(command@));
                },
                Ok(None) => {},
                Err(_) => {
                    complete = false;
                },
            }
        }
    }
    assert(ops.subrange(0, ops.len() as int) =~= ops);
    ConvertedAudio { commands, complete }
}

/// The commands for the sound of one step, in order, with a verdict of the boundary on
/// each. The first operation without a command form or with a refused command decides.
pub fn audio_commands_from_delta(
    operations: Vec<HostedAudioOperation>,
    verdicts: &Vec<Option<String>>,
) -> (r: Result<Vec<LegacyAudioCommandV1>, HostedAdapterError>)
    requires
        verdicts@.len() == converted(crate::recording::audio_ops(operations@)).0.len(),
    ensures
        match audio_verdict(
            converted(crate::recording::audio_ops(operations@)),
            verdicts@,
            0,
        ) {
            Ok(commands) => r is Ok && audio_commands(r->Ok_0@) == commands,
            Err(fault) => r is Err && r->Err_0@ == fault,
        },
{
    convert_audio(operations).judged(verdicts)
}

// ----------------------------------------------------------------------- movies

/// The identity of a playback: frame and place in the frame.
pub open spec fn playback_name(frame_index: u64, index: int) -> Seq<char> {
    "rfvp-"@ + text::decimal(frame_index as nat) + "-"@ + text::decimal(index as nat)
}

/// The command for the movie at place `index` of frame `frame_index`.
pub open spec fn video_command_of(frame_index: u64, index: int, op: VideoOp) -> VideoCommand {
    VideoCommand {
        playback_id: playback_name(frame_index, index),
        resource_uri: op.resource_uri,
        mode: if op.modal_with_audio {
            LegacyVideoMode::ModalWithAudio
        } else {
            LegacyVideoMode::LayerNoAudio
        },
        stage_width: op.stage_width,
        stage_height: op.stage_height,
    }
}

/// Whether a movie has a size that the boundary takes.
pub open spec fn video_size_ok(op: VideoOp) -> bool {
    0 < op.byte_len <= MAX_VIDEO_RESOURCE_BYTES
}

/// The commands for the movies from `i` on, behind those in `done`.
pub open spec fn video_verdict(
    frame_index: u64,
    ops: Seq<VideoOp>,
    verdicts: Seq<Option<String>>,
    i: int,
    done: Seq<VideoCommand>,
) -> Result<Seq<VideoCommand>, AdapterFault>
    decreases ops.len() - i,
{
    if i >= ops.len() {
        Ok(done)
    } else if !video_size_ok(ops[i]) {
        Err(AdapterFault::VideoResourceBounds)
    } else {
        match refusal(verdicts, i) {
            Some(code) => Err(AdapterFault::InvalidPacket(code)),
            None => video_verdict(
                frame_index,
                ops,
                verdicts,
                i + 1,
                done.push(video_command_of(frame_index, i, ops[i])),
            ),
        }
    }
}

/// The command for one movie, before the boundary judges it.
pub fn video_command(frame_index: u64, index: usize, operation: &HostedVideoOperation) -> (r:
    LegacyVideoCommandV1)
    ensures
        r@ == video_command_of(frame_index, index as int, operation@),
{
    let HostedVideoOperation::Play {
        resource_uri,
        byte_len: _,
        modal_with_audio,
        stage_width,
        stage_height,
    } = operation;
    let frame = text::decimal_string(frame_index);
    let place = text::decimal_string(index as u64);
    let left = text::join3("rfvp-", frame.as_str(), "-");
    LegacyVideoCommandV1::Play {
        playback_id: text::join2(left.as_str(), place.as_str()),
        resource_uri: text::owned(resource_uri.as_str()),
        mode: if *modal_with_audio {
            LegacyVideoMode::ModalWithAudio
        } else {
            LegacyVideoMode::LayerNoAudio
        },
        stage_width: *stage_width,
        stage_height: *stage_height,
    }
}

/// The commands for the movies of one step, in order, with a verdict of the boundary on
/// each.
pub fn video_commands_from_delta(
    frame_index: u64,
    operations: &Vec<HostedVideoOperation>,
    verdicts: &Vec<Option<String>>,
) -> (r: Result<Vec<LegacyVideoCommandV1>, HostedAdapterError>)
    requires
        verdicts@.len() == operations@.len(),
    ensures
        match video_verdict(
            frame_index,
            crate::session::video_ops(operations@),
            verdicts@,
            0,
            Seq::empty(),
        ) {
            Ok(commands) => r is Ok && video_commands(r->Ok_0@) == commands,
            Err(fault) => r is Err && r->Err_0@ == fault,
        },
{
    let ghost ops = crate::session::video_ops(operations@);
    let mut commands: Vec<LegacyVideoCommandV1> = Vec::new();
    let mut i: usize = 0;
    assert(video_commands(commands@) =~= Seq::empty());
    while i < operations.len()
        invariant
            i <= operations@.len() == verdicts@.len(),
            ops == crate::session::video_ops(operations@),
            video_verdict(frame_index, ops, verdicts@, 0, Seq::empty()) == video_verdict(
                frame_index,
                ops,
                verdicts@,
                i as int,
                video_commands(commands@),
            ),
        decreases operations@.len() - i,
    {
        let HostedVideoOperation::Play { byte_len, .. } = &operations[i];
        assert(ops[i as int] == operations@[i as int]@);
        if *byte_len == 0 || *byte_len > MAX_VIDEO_RESOURCE_BYTES {
            return Err(HostedAdapterError::VideoResourceBounds);
        }
        match &verdicts[i] {
            Some(code) => {
                return Err(HostedAdapterError::InvalidPacket(text::owned(code.as_str())));
            },
            None => {},
        }
        let command = video_command(frame_index, i, &operations[i]);
        let ghost before = video_commands(commands@);
        commands.push(command);
        assert(video_commands(commands@) =~= before.push(command@));
        i = i + 1;
    }
    Ok(commands)
}

// ----------------------------------------------------------------------- laws

/// Two movies of one frame, and movies of two frames, have different identities.
pub proof fn law_playbacks_are_distinct(
    frame_a: u64,
    index_a: int,
    frame_b: u64,
    index_b: int,
)
    requires
        0 <= index_a,
        0 <= index_b,
        playback_name(frame_a, index_a) == playback_name(frame_b, index_b),
    ensures
        frame_a == frame_b,
        index_a == index_b,
{
    let fa = text::decimal(frame_a as nat);
    let fb = text::decimal(frame_b as nat);
    let ia = text::decimal(index_a as nat);
    let ib = text::decimal(index_b as nat);
    let a = playback_name(frame_a, index_a);
    let b = playback_name(frame_b, index_b);
    reveal_strlit("rfvp-");
    reveal_strlit("-");
    text::lemma_decimal_parses(frame_a as nat);
    text::lemma_decimal_parses(frame_b as nat);
    text::lemma_decimal_parses(index_a as nat);
    text::lemma_decimal_parses(index_b as nat);
    if fa.len() < fb.len() {
        assert(a[5 + fa.len() as int] == '-');
        assert(b[5 + fa.len() as int] == fb[fa.len() as int]);
        assert(text::is_digit(fb[fa.len() as int]));
    }
    if fb.len() < fa.len() {
        assert(b[5 + fb.len() as int] == '-');
        assert(a[5 + fb.len() as int] == fa[fb.len() as int]);
        assert(text::is_digit(fa[fb.len() as int]));
    }
    assert(fa.len() == fb.len());
    assert forall|k: int| 0 <= k < fa.len() implies fa[k] == fb[k] by {
        assert(a[5 + k] == fa[k]);
        assert(b[5 + k] == fb[k]);
    }
    assert(fa =~= fb);
    assert(a.len() == 6 + fa.len() + ia.len());
    assert(b.len() == 6 + fb.len() + ib.len());
    assert forall|k: int| 0 <= k < ia.len() implies ia[k] == ib[k] by {
        assert(a[6 + fa.len() + k] == ia[k]);
        assert(b[6 + fa.len() + k] == ib[k]);
    }
    assert(ia =~= ib);
}

/// The operations of a step become its commands in order. A tick of the clock becomes
/// none; encoded bytes end the row, and any other operation makes it one longer.
pub proof fn law_commands_follow_the_operations(
    operations: Seq<HostedAudioOperation>,
    operation: HostedAudioOperation,
)
    ensures
        converted(crate::recording::audio_ops(Seq::empty())) == (Seq::<AudioCommand>::empty(), true),
        ({
            let (before, complete) = converted(crate::recording::audio_ops(operations));
            let after = converted(crate::recording::audio_ops(operations.push(operation)));
            &&& !complete || operation is Tick ==> after == (before, complete)
            &&& complete && operation is LoadEncoded ==> after == (before, false)
            &&& complete && !(operation is Tick) && !(operation is LoadEncoded) ==> {
                &&& after.1
                &&& after.0.len() == before.len() + 1
                &&& after.0.drop_last() == before
            }
        }),
{
    let ops = crate::recording::audio_ops(operations);
    let all = crate::recording::audio_ops(operations.push(operation));
    assert(all =~= ops.push(operation@));
    assert(all.drop_last() =~= ops);
    let before = converted(ops);
    if before.1 && !(operation is Tick) && !(operation is LoadEncoded) {
        let command = audio_command_of(operation@)->Ok_0->0;
        assert(before.0.push(command).drop_last() =~= before.0);
    }
    assert(crate::recording::audio_ops(Seq::empty()) =~= Seq::<AudioOp>::empty());
}

/// The command for an operation carries what the operation says, each part as itself:
/// the stream, the address and its encoding, rate, channels and format, the samples,
/// volume, pan, repetition and fade.
pub proof fn law_command_carries_its_operation(
    operations: Seq<HostedAudioOperation>,
    operation: HostedAudioOperation,
    command: LegacyAudioCommandV1,
)
    requires
        converted(crate::recording::audio_ops(operations)).1,
        !(operation is Tick) && !(operation is LoadEncoded),
        command@ == converted(crate::recording::audio_ops(operations.push(operation))).0.last(),
    ensures
        match operation {
            HostedAudioOperation::LoadResource { id, kind, resource_uri } => {
                &&& command matches LegacyAudioCommandV1::LoadResource {
                    stream_id,
                    encoding,
                    resource_uri: uri,
                } && stream_id == id.0 && uri@ == resource_uri@ && (kind is Unknown <==> encoding is Unknown) && (
                kind is Wav <==> encoding is Wav) && (kind is Ogg <==> encoding is Ogg) && (
                kind is Mp3 <==> encoding is Mp3) && (kind is Flac <==> encoding is Flac)
            },
            HostedAudioOperation::LoadEncoded { .. } => true,
            HostedAudioOperation::CreateStream { id, desc } => {
                &&& command matches LegacyAudioCommandV1::CreateStream {
                    stream_id,
                    sample_rate,
                    channels,
                    sample_format,
                } && stream_id == id.0 && sample_rate == desc.sample_rate && channels
                    == desc.channels && (desc.sample_format is I16 <==> sample_format is I16) && (
                desc.sample_format is F32 <==> sample_format is F32)
            },
            HostedAudioOperation::SubmitI16 { id, samples } => {
                &&& command matches LegacyAudioCommandV1::SubmitI16 { stream_id, samples: sent }
                    && stream_id == id.0 && sent@ == samples@
            },
            HostedAudioOperation::SubmitF32 { id, samples } => {
                &&& command matches LegacyAudioCommandV1::SubmitF32 { stream_id, samples: sent }
                    && stream_id == id.0 && sent@ == samples@
            },
            HostedAudioOperation::Play { id, params, fade_in_ms } => {
                &&& command matches LegacyAudioCommandV1::Play {
                    stream_id,
                    volume,
                    pan,
                    repeat,
                    fade_in_ms: fade,
                } && stream_id == id.0 && volume == params.volume && pan == params.pan && repeat
                    == params.repeat && fade == fade_in_ms
            },
            HostedAudioOperation::Stop { id, fade_ms } => {
                &&& command matches LegacyAudioCommandV1::Stop { stream_id, fade_ms: fade }
                    && stream_id == id.0 && fade == fade_ms
            },
            HostedAudioOperation::Pause(id) => {
                &&& command matches LegacyAudioCommandV1::Pause { stream_id } && stream_id == id.0
            },
            HostedAudioOperation::Resume(id) => {
                &&& command matches LegacyAudioCommandV1::Resume { stream_id } && stream_id == id.0
            },
            HostedAudioOperation::SetParams { id, params } => {
                &&& command matches LegacyAudioCommandV1::SetParams {
                    stream_id,
                    volume,
                    pan,
                    repeat,
                } && stream_id == id.0 && volume == params.volume && pan == params.pan && repeat
                    == params.repeat
            },
            HostedAudioOperation::SetMasterVolume(level) => {
                &&& command matches LegacyAudioCommandV1::MasterVolume { volume } && volume == level
            },
            HostedAudioOperation::DestroyStream(id) => {
                &&& command matches LegacyAudioCommandV1::DestroyStream { stream_id } && stream_id
                    == id.0
            },
            HostedAudioOperation::Tick { .. } => true,
        },
{
    let ops = crate::recording::audio_ops(operations);
    let all = crate::recording::audio_ops(operations.push(operation));
    assert(all =~= ops.push(operation@));
    assert(all.drop_last() =~= ops);
}

/// Sound is accepted as a whole: if every operation had a command form and the boundary
/// refuses none of the commands, and otherwise not at all. The first refusal is the
/// answer; encoded bytes are the answer where no command before them was refused.
pub proof fn law_sound_is_accepted_as_a_whole(
    commands: Seq<AudioCommand>,
    complete: bool,
    verdicts: Seq<Option<String>>,
    i: int,
    k: int,
)
    requires
        0 <= i <= k <= commands.len() == verdicts.len(),
        forall|j: int| i <= j < k ==> (#[trigger] verdicts[j]) is None,
    ensures
        k == commands.len() && complete ==> audio_verdict((commands, complete), verdicts, i) == Ok::<
            Seq<AudioCommand>,
            AdapterFault,
        >(commands),
        k == commands.len() && !complete ==> audio_verdict((commands, complete), verdicts, i)
            == Err::<Seq<AudioCommand>, AdapterFault>(AdapterFault::EncodedAudioRequiresResource),
        k < commands.len() ==> (verdicts[k] matches Some(code) ==> audio_verdict(
            (commands, complete),
            verdicts,
            i,
        ) == Err::<Seq<AudioCommand>, AdapterFault>(AdapterFault::InvalidPacket(code@))),
    decreases k - i,
{
    if i < k {
        assert(verdicts[i] is None);
        law_sound_is_accepted_as_a_whole(commands, complete, verdicts, i + 1, k);
    } else if k < commands.len() {
        assert(verdicts[k] is Some || verdicts[k] is None);
    }
}

/// Whether a movie may be commanded: it has bytes, at most half a gibibyte.
pub open spec fn movie_has_a_size(operation: HostedVideoOperation) -> bool {
    let HostedVideoOperation::Play { byte_len, .. } = operation;
    1 <= byte_len <= 0x2000_0000
}

proof fn lemma_movies(
    frame_index: u64,
    operations: Seq<HostedVideoOperation>,
    verdicts: Seq<Option<String>>,
    i: int,
    done: Seq<VideoCommand>,
)
    requires
        0 <= i <= operations.len() == verdicts.len(),
        forall|j: int|
            i <= j < operations.len() ==> movie_has_a_size(#[trigger] operations[j])
                && verdicts[j] is None,
    ensures
        video_verdict(
            frame_index,
            crate::session::video_ops(operations),
            verdicts,
            i,
            done,
        ) matches Ok(commands) && {
            &&& commands.len() == done.len() + (operations.len() - i)
            &&& forall|j: int| 0 <= j < done.len() ==> commands[j] == done[j]
            &&& forall|j: int|
                #![trigger commands[done.len() + (j - i)]]
                i <= j < operations.len() ==> commands[done.len() + (j - i)] == video_command_of(
                    frame_index,
                    j,
                    operations[j]@,
                )
        },
    decreases operations.len() - i,
{
    if i < operations.len() {
        let op = operations[i];
        assert(movie_has_a_size(op) && verdicts[i] is None);
        let ops = crate::session::video_ops(operations);
        assert(ops[i] == op@);
        let command = video_command_of(frame_index, i, op@);
        let more = done.push(command);
        lemma_movies(frame_index, operations, verdicts, i + 1, more);
        let commands = video_verdict(frame_index, ops, verdicts, i, done)->Ok_0;
        assert(commands == video_verdict(frame_index, ops, verdicts, i + 1, more)->Ok_0);
        assert forall|j: int|
            #![trigger commands[done.len() + (j - i)]]
            i <= j < operations.len() implies commands[done.len() + (j - i)] == video_command_of(
            frame_index,
            j,
            operations[j]@,
        ) by {
            if j > i {
                assert(commands[more.len() + (j - (i + 1))] == video_command_of(
                    frame_index,
                    j,
                    operations[j]@,
                ));
            } else {
                assert(commands[done.len() as int] == more[done.len() as int]);
            }
        }
        assert forall|j: int| 0 <= j < done.len() implies commands[j] == done[j] by {
            assert(commands[j] == more[j]);
        }
    }
}

/// The movies of a step become commands in order, one for each: the same file, with sound
/// where the movie is modal and as a layer without sound where it is not, on a stage of the
/// same size, under a playback that names the frame and the place in it.
pub proof fn law_movie_commands_carry_their_operations(
    frame_index: u64,
    operations: Seq<HostedVideoOperation>,
    verdicts: Seq<Option<String>>,
    commands: Seq<LegacyVideoCommandV1>,
)
    requires
        operations.len() == verdicts.len(),
        forall|j: int|
            0 <= j < operations.len() ==> movie_has_a_size(#[trigger] operations[j])
                && verdicts[j] is None,
        video_verdict(
            frame_index,
            crate::session::video_ops(operations),
            verdicts,
            0,
            Seq::empty(),
        ) matches Ok(all) ==> video_commands(commands) == all,
    ensures
        video_verdict(
            frame_index,
            crate::session::video_ops(operations),
            verdicts,
            0,
            Seq::empty(),
        ) is Ok,
        commands.len() == operations.len(),
        forall|j: int|
            #![trigger commands[j]]
            0 <= j < operations.len() ==> {
                let HostedVideoOperation::Play {
                    resource_uri,
                    byte_len,
                    modal_with_audio,
                    stage_width,
                    stage_height,
                } = operations[j];
                let LegacyVideoCommandV1::Play {
                    playback_id,
                    resource_uri: uri,
                    mode,
                    stage_width: width,
                    stage_height: height,
                } = commands[j];
                &&& uri@ == resource_uri@
                &&& width == stage_width
                &&& height == stage_height
                &&& mode is ModalWithAudio <==> modal_with_audio
                &&& mode is LayerNoAudio <==> !modal_with_audio
                &&& playback_id@ == "rfvp-"@ + text::decimal(frame_index as nat) + "-"@
                    + text::decimal(j as nat)
            },
{
    lemma_movies(frame_index, operations, verdicts, 0, Seq::empty());
    let all = video_verdict(
        frame_index,
        crate::session::video_ops(operations),
        verdicts,
        0,
        Seq::empty(),
    )->Ok_0;
    assert(video_commands(commands).len() == commands.len());
    assert forall|j: int| #![trigger commands[j]] 0 <= j < operations.len() implies commands[j]@
        == video_command_of(frame_index, j, operations[j]@) by {
        assert(video_commands(commands)[j] == commands[j]@);
        assert(all[Seq::<VideoCommand>::empty().len() + (j - 0)] == video_command_of(
            frame_index,
            j,
            operations[j]@,
        ));
    }
}

/// The first movie that is too large, empty or refused decides: its size before the
/// refusal.
pub proof fn law_first_refused_movie_decides(
    frame_index: u64,
    operations: Seq<HostedVideoOperation>,
    verdicts: Seq<Option<String>>,
    i: int,
    k: int,
    done: Seq<VideoCommand>,
)
    requires
        0 <= i <= k < operations.len() == verdicts.len(),
        forall|j: int|
            i <= j < k ==> movie_has_a_size(#[trigger] operations[j]) && verdicts[j] is None,
    ensures
        ({
            let answer = video_verdict(
                frame_index,
                crate::session::video_ops(operations),
                verdicts,
                i,
                done,
            );
            &&& !movie_has_a_size(operations[k]) ==> answer == Err::<
                Seq<VideoCommand>,
                AdapterFault,
            >(AdapterFault::VideoResourceBounds)
            &&& movie_has_a_size(operations[k]) ==> (verdicts[k] matches Some(code) ==> answer
                == Err::<Seq<VideoCommand>, AdapterFault>(AdapterFault::InvalidPacket(code@)))
        }),
    decreases k - i,
{
    let ops = crate::session::video_ops(operations);
    assert(ops[i] == operations[i]@);
    if i < k {
        assert(movie_has_a_size(operations[i]) && verdicts[i] is None);
        law_first_refused_movie_decides(
            frame_index,
            operations,
            verdicts,
            i + 1,
            k,
            done.push(video_command_of(frame_index, i, ops[i])),
        );
    }
}

/// Each failure has a line of its own; that of a refused command ends in the code of the
/// refusal.
pub proof fn law_adapter_failures_have_their_lines(code: Seq<char>)
    ensures
        AdapterFault::InvalidPacket(code).line() == "ASTRA_FVP_HOSTED_PACKET:"@ + code,
        AdapterFault::VideoResourceBounds.line() == "ASTRA_FVP_HOSTED_VIDEO_RESOURCE_BOUNDS"@,
        AdapterFault::EncodedAudioRequiresResource.line()
            == "ASTRA_FVP_HOSTED_AUDIO_RESOURCE_REQUIRED"@,
{
}

}
