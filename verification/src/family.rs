//! Records of the family boundary: what a host asks of a session and what a step
//! answers.

use vstd::prelude::*;

use crate::adapters::{
    AudioCommand, LegacyAudioCommandV1, LegacyVideoCommandV1, VideoCommand,
};
use crate::digest::Hash256;
use crate::engine_core::HostedTextEvent;
use crate::float::Float32;
use crate::names::NameMap;
use crate::recording::{HostedAudioOperation, HostedLogRecord};
use crate::session::HostedVideoOperation;

verus! {

/// The single-precision number one.
pub const ONE_BITS: u32 = 0x3f80_0000;

/// The single-precision number zero.
pub const ZERO_BITS: u32 = 0;

// ------------------------------------------------------------------------ input

/// A key of the canonical keyboard.
#[derive(Debug)]
pub enum InputKey {
    Enter,
    Escape,
    Space,
    Shift,
    Control,
    ArrowUp,
    ArrowDown,
    ArrowLeft,
    ArrowRight,
    /// Any other key, with its name.
    Other(String),
}

/// One edge of an input control.
#[derive(Debug)]
pub struct LegacyInputEdge {
    pub sequence: u64,
    pub control: String,
    /// The canonical key that the control names, if it names one.
    pub key: Option<InputKey>,
    pub value: Float32,
    pub pressed: bool,
}

/// What became of something that a session waited for.
#[derive(Debug)]
pub struct LegacyAwaitResult {
    pub token_id: String,
    pub status: String,
}

#[derive(Debug, Clone, Copy, PartialEq, Eq, Structural)]
pub enum LegacyReplayMode {
    Live,
    RestoreContinuation,
    /// A mode in which a step is not taken.
    Unsupported,
}

/// Input of one step.
#[derive(Debug)]
pub struct LegacyStepInput {
    pub tick_index: u64,
    pub session_seed: u64,
    pub delta_ns: u64,
    pub mode: LegacyReplayMode,
    pub input_edges: Vec<LegacyInputEdge>,
    pub await_results: Vec<LegacyAwaitResult>,
}

/// The host's side of a call: the mount and the case that it is about.
#[derive(Debug)]
pub struct LegacyRuntimeHostCtx {
    pub mount_set_id: String,
    pub case_id: String,
}

/// A request to recognise a game.
#[derive(Debug)]
pub struct LegacyProbeRequest {
    pub root_mount_id: String,
    pub candidate_uris: Vec<String>,
    pub marker_hashes: Vec<Hash256>,
    pub max_entries: u32,
    pub max_metadata_bytes: u64,
}

/// The answer to a probe.
#[derive(Debug)]
pub struct LegacyProbeReport {
    pub family_id: String,
    pub confidence_permyriad: u32,
    pub markers: Vec<String>,
    pub blockers: Vec<String>,
    pub content_identity: Hash256,
}

/// A request to open a session.
#[derive(Debug)]
pub struct LegacyOpenRequest {
    pub requested_session_id: String,
    pub compatibility_profile: String,
    pub case_fingerprint: Hash256,
    pub script_uri: String,
    pub session_seed: u64,
    pub fixed_delta_ns: u64,
    pub family_options: NameMap<String>,
}

/// What a session leaves behind.
#[derive(Debug)]
pub struct LegacyVmTraceRecord {
    pub context_id: u32,
    pub program_counter: u32,
    pub opcode: u8,
}

#[derive(Debug)]
pub struct LegacyShutdownReport {
    pub final_state_revision: u64,
    pub instruction_count: u64,
    pub syscall_count: u64,
    pub evidence_vm_trace: Vec<LegacyVmTraceRecord>,
    pub diagnostics: Vec<LegacyDiagnostic>,
}

/// What the engine did in one step.
#[derive(Debug)]
pub struct FamilyDelta {
    pub frame_index: u64,
    pub visual_changed: bool,
    pub audio: Vec<HostedAudioOperation>,
    pub video: Vec<HostedVideoOperation>,
    pub text: Vec<HostedTextEvent>,
    pub logs: Vec<HostedLogRecord>,
    pub log_dropped_count: u32,
    pub pcm_moved_bytes: u64,
    pub pcm_copied_bytes: u64,
}

// ------------------------------------------------------------------ diagnostics

#[derive(Debug)]
pub struct LegacyDiagnostic {
    pub code: String,
    pub severity: String,
    pub subject: String,
    pub message: String,
}

#[verifier::ext_equal]
pub struct DiagnosticView {
    pub code: Seq<char>,
    pub severity: Seq<char>,
    pub subject: Seq<char>,
    pub message: Seq<char>,
}

impl LegacyDiagnostic {
    pub open spec fn view(&self) -> DiagnosticView {
        DiagnosticView {
            code: self.code@,
            severity: self.severity@,
            subject: self.subject@,
            message: self.message@,
        }
    }
}

pub open spec fn diagnostic_views(s: Seq<LegacyDiagnostic>) -> Seq<DiagnosticView> {
    Seq::new(s.len(), |i: int| s[i]@)
}

/// What a step did, in numbers.
#[derive(Debug, Clone, Copy, PartialEq, Eq, Structural)]
pub struct LegacyCoverageDelta {
    pub audio_commands: u64,
    pub text_events: u64,
    pub presentation_commands: u64,
    pub pcm_moved_bytes: u64,
    pub pcm_copied_bytes: u64,
}

// ------------------------------------------------------------------- live output

/// A value with its place in the live output of a session.
#[derive(Debug)]
pub struct LegacySequenced<T> {
    pub sequence: u64,
    pub value: T,
}

#[derive(Debug)]
pub enum LegacyPcmBufferV7 {
    I16(Vec<i16>),
    F32(Vec<Float32>),
}

/// Samples for a stream. The stream knows its own format, so the packet names none.
#[derive(Debug)]
pub struct LegacyAudioPacketV7 {
    pub sequence: u64,
    pub stream_id: u32,
    pub sample_rate: u32,
    pub channels: u16,
    pub pcm: LegacyPcmBufferV7,
}

#[verifier::ext_equal]
pub enum PcmView {
    I16(Seq<i16>),
    F32(Seq<Float32>),
}

#[verifier::ext_equal]
pub struct PacketView {
    pub sequence: u64,
    pub stream_id: u32,
    pub sample_rate: u32,
    pub channels: u16,
    pub pcm: PcmView,
}

impl LegacyAudioPacketV7 {
    pub open spec fn view(&self) -> PacketView {
        PacketView {
            sequence: self.sequence,
            stream_id: self.stream_id,
            sample_rate: self.sample_rate,
            channels: self.channels,
            pcm: match self.pcm {
                LegacyPcmBufferV7::I16(samples) => PcmView::I16(samples@),
                LegacyPcmBufferV7::F32(samples) => PcmView::F32(samples@),
            },
        }
    }
}

#[derive(Debug, Clone, Copy, PartialEq, Eq, Structural)]
pub enum LegacySurfaceFormatV9 {
    Rgba8SrgbPremultiplied,
    /// A format that this family does not draw in.
    Other,
}

#[derive(Debug, Clone, Copy, PartialEq, Eq, Structural)]
pub enum LegacySurfaceDamageV9 {
    Unchanged,
    Full,
}

#[derive(Debug, Clone, Copy, PartialEq, Eq, Structural)]
pub enum LegacyLayerFilterV9 {
    Linear,
}

#[derive(Debug, Clone, Copy, PartialEq, Eq, Structural)]
pub enum LegacyLayerBlendV9 {
    Opaque,
}

#[derive(Debug, Clone, Copy, PartialEq, Eq, Structural)]
pub struct LegacyLayerTransformV9 {
    pub m11: Float32,
    pub m12: Float32,
    pub m21: Float32,
    pub m22: Float32,
    pub tx: Float32,
    pub ty: Float32,
}

/// The state of one layer of the stage.
#[derive(Debug)]
pub struct LegacyLayerStateV9 {
    pub layer_id: String,
    pub role: String,
    pub z_index: i32,
    pub surface_id: String,
    pub generation: u64,
    pub width: u32,
    pub height: u32,
    pub stride: u32,
    pub format: LegacySurfaceFormatV9,
    pub damage: LegacySurfaceDamageV9,
    pub transform: LegacyLayerTransformV9,
    pub opacity: Float32,
    pub texture_filter: LegacyLayerFilterV9,
    pub blend: LegacyLayerBlendV9,
}

#[verifier::ext_equal]
pub struct LayerView {
    pub layer_id: Seq<char>,
    pub role: Seq<char>,
    pub z_index: i32,
    pub surface_id: Seq<char>,
    pub generation: u64,
    pub width: u32,
    pub height: u32,
    pub stride: u32,
    pub format: LegacySurfaceFormatV9,
    pub damage: LegacySurfaceDamageV9,
    pub transform: LegacyLayerTransformV9,
    pub opacity: Float32,
    pub texture_filter: LegacyLayerFilterV9,
    pub blend: LegacyLayerBlendV9,
}

impl LegacyLayerStateV9 {
    pub open spec fn view(&self) -> LayerView {
        LayerView {
            layer_id: self.layer_id@,
            role: self.role@,
            z_index: self.z_index,
            surface_id: self.surface_id@,
            generation: self.generation,
            width: self.width,
            height: self.height,
            stride: self.stride,
            format: self.format,
            damage: self.damage,
            transform: self.transform,
            opacity: self.opacity,
            texture_filter: self.texture_filter,
            blend: self.blend,
        }
    }
}

#[derive(Debug)]
pub enum LegacyLayerOperationV9 {
    Create(LegacyLayerStateV9),
    Update(LegacyLayerStateV9),
}

#[verifier::ext_equal]
pub enum LayerOperationView {
    Create(LayerView),
    Update(LayerView),
}

impl LegacyLayerOperationV9 {
    pub open spec fn view(&self) -> LayerOperationView {
        match *self {
            LegacyLayerOperationV9::Create(layer) => LayerOperationView::Create(layer@),
            LegacyLayerOperationV9::Update(layer) => LayerOperationView::Update(layer@),
        }
    }
}

/// A change of the layers, all of it or nothing. This family has one layer.
#[derive(Debug)]
pub struct LegacyLayerTransactionV9 {
    pub sequence: u64,
    pub viewport_width: u32,
    pub viewport_height: u32,
    pub operation: LegacyLayerOperationV9,
}

#[verifier::ext_equal]
pub struct LayerTransactionView {
    pub sequence: u64,
    pub viewport_width: u32,
    pub viewport_height: u32,
    pub operation: LayerOperationView,
}

impl LegacyLayerTransactionV9 {
    pub open spec fn view(&self) -> LayerTransactionView {
        LayerTransactionView {
            sequence: self.sequence,
            viewport_width: self.viewport_width,
            viewport_height: self.viewport_height,
            operation: self.operation@,
        }
    }
}

/// What a step shows and plays.
#[derive(Debug)]
pub struct LegacyLiveOutput {
    pub audio_commands: Vec<LegacySequenced<LegacyAudioCommandV1>>,
    pub audio: Vec<LegacyAudioPacketV7>,
    pub layers: Vec<LegacyLayerTransactionV9>,
    pub video: Vec<LegacySequenced<LegacyVideoCommandV1>>,
}

#[verifier::ext_equal]
pub struct LiveView {
    pub audio_commands: Seq<(u64, AudioCommand)>,
    pub audio: Seq<PacketView>,
    pub layers: Seq<LayerTransactionView>,
    pub video: Seq<(u64, VideoCommand)>,
}

pub open spec fn sequenced_audio(s: Seq<LegacySequenced<LegacyAudioCommandV1>>) -> Seq<
    (u64, AudioCommand),
> {
    Seq::new(s.len(), |i: int| (s[i].sequence, s[i].value@))
}

pub open spec fn packet_views(s: Seq<LegacyAudioPacketV7>) -> Seq<PacketView> {
    Seq::new(s.len(), |i: int| s[i]@)
}

pub open spec fn layer_views(s: Seq<LegacyLayerTransactionV9>) -> Seq<LayerTransactionView> {
    Seq::new(s.len(), |i: int| s[i]@)
}

pub open spec fn sequenced_video(s: Seq<LegacySequenced<LegacyVideoCommandV1>>) -> Seq<
    (u64, VideoCommand),
> {
    Seq::new(s.len(), |i: int| (s[i].sequence, s[i].value@))
}

/// Output that shows and plays nothing.
pub open spec fn empty_live() -> LiveView {
    LiveView {
        audio_commands: Seq::empty(),
        audio: Seq::empty(),
        layers: Seq::empty(),
        video: Seq::empty(),
    }
}

impl LegacyLiveOutput {
    pub open spec fn view(&self) -> LiveView {
        LiveView {
            audio_commands: sequenced_audio(self.audio_commands@),
            audio: packet_views(self.audio@),
            layers: layer_views(self.layers@),
            video: sequenced_video(self.video@),
        }
    }

    pub fn new() -> (r: Self)
        ensures
            r@ == empty_live(),
    {
        let r = LegacyLiveOutput {
            audio_commands: Vec::new(),
            audio: Vec::new(),
            layers: Vec::new(),
            video: Vec::new(),
        };
        assert(r@ =~= empty_live());
        r
    }
}

// ------------------------------------------------------------------------- waits

/// Something that a session waits for. A hosted session waits for movies.
#[derive(Debug)]
pub enum LegacyWaitRequest {
    MediaFence { token_id: String, media_id: String },
}

impl LegacyWaitRequest {
    /// Token and medium.
    pub open spec fn view(&self) -> (Seq<char>, Seq<char>) {
        let LegacyWaitRequest::MediaFence { token_id, media_id } = *self;
        (token_id@, media_id@)
    }
}

pub open spec fn wait_views(s: Seq<LegacyWaitRequest>) -> Seq<(Seq<char>, Seq<char>)> {
    Seq::new(s.len(), |i: int| s[i]@)
}

#[derive(Debug, Clone, Copy, PartialEq, Eq, Structural)]
pub enum LegacyRuntimeStatus {
    Active,
    Awaiting,
    Terminal,
}

/// The answer to a step.
#[derive(Debug)]
pub struct LegacyStepOutput {
    pub status: LegacyRuntimeStatus,
    pub live: LegacyLiveOutput,
    pub waits: Vec<LegacyWaitRequest>,
    pub diagnostics: Vec<LegacyDiagnostic>,
    pub coverage: LegacyCoverageDelta,
    pub state_revision: u64,
}

#[verifier::ext_equal]
pub struct OutputView {
    pub status: LegacyRuntimeStatus,
    pub live: LiveView,
    pub waits: Seq<(Seq<char>, Seq<char>)>,
    pub diagnostics: Seq<DiagnosticView>,
    pub coverage: LegacyCoverageDelta,
    pub state_revision: u64,
}

impl LegacyStepOutput {
    pub open spec fn view(&self) -> OutputView {
        OutputView {
            status: self.status,
            live: self.live@,
            waits: wait_views(self.waits@),
            diagnostics: diagnostic_views(self.diagnostics@),
            coverage: self.coverage,
            state_revision: self.state_revision,
        }
    }
}

// ------------------------------------------------------------------------- hooks

/// A call of a companion.
#[derive(Debug)]
pub struct LegacyHookInvocationV1 {
    pub session_id: String,
    pub invocation_id: String,
    pub family_id: String,
    pub family_game_id: String,
    pub hook_id: String,
    pub timeout_ms: u32,
    pub payload: Vec<u8>,
}

#[verifier::ext_equal]
pub struct InvocationView {
    pub session_id: Seq<char>,
    pub invocation_id: Seq<char>,
    pub family_id: Seq<char>,
    pub family_game_id: Seq<char>,
    pub hook_id: Seq<char>,
    pub timeout_ms: u32,
    pub payload: Seq<u8>,
}

impl LegacyHookInvocationV1 {
    pub open spec fn view(&self) -> InvocationView {
        InvocationView {
            session_id: self.session_id@,
            invocation_id: self.invocation_id@,
            family_id: self.family_id@,
            family_game_id: self.family_game_id@,
            hook_id: self.hook_id@,
            timeout_ms: self.timeout_ms,
            payload: self.payload@,
        }
    }
}

/// The answer of a companion.
#[derive(Debug)]
pub struct LegacyHookResultV1 {
    /// The companion did its work, so the payload is its response.
    pub completed: bool,
    pub payload: Vec<u8>,
    pub diagnostics: Vec<LegacyDiagnostic>,
}

// ---------------------------------------------------------------------- surfaces

/// A surface that the host lends for drawing.
#[derive(Debug)]
pub struct LegacySurfaceLeaseV9 {
    pub surface_id: String,
    pub generation: u64,
    pub width: u32,
    pub height: u32,
    pub stride: u32,
    pub format: LegacySurfaceFormatV9,
    pub pixels: Vec<u8>,
}

/// A request for a surface.
#[derive(Debug)]
pub struct LegacySurfaceRequestV9 {
    pub session_id: String,
    pub tick_index: u64,
    pub surface_id: String,
    pub width: u32,
    pub height: u32,
    pub format: LegacySurfaceFormatV9,
}

// ----------------------------------------------------------------------- laws

/// What is said of the answer of a step is said of its own parts, each under its own name and
/// in its own place.
pub proof fn law_answer_is_seen_as_it_is(output: LegacyStepOutput, i: int)
    ensures
        output@.status == output.status,
        output@.coverage == output.coverage,
        output@.state_revision == output.state_revision,
        output@.waits.len() == output.waits@.len(),
        output@.diagnostics.len() == output.diagnostics@.len(),
        output@.live.audio.len() == output.live.audio@.len(),
        output@.live.audio_commands.len() == output.live.audio_commands@.len(),
        output@.live.layers.len() == output.live.layers@.len(),
        output@.live.video.len() == output.live.video@.len(),
        0 <= i < output.waits@.len() ==> {
            let LegacyWaitRequest::MediaFence { token_id, media_id } = output.waits@[i];
            output@.waits[i] == (token_id@, media_id@)
        },
        0 <= i < output.diagnostics@.len() ==> {
            let (seen, held) = (output@.diagnostics[i], output.diagnostics@[i]);
            &&& seen.code == held.code@
            &&& seen.severity == held.severity@
            &&& seen.subject == held.subject@
            &&& seen.message == held.message@
        },
        0 <= i < output.live.audio_commands@.len() ==> {
            let (seen, held) = (output@.live.audio_commands[i], output.live.audio_commands@[i]);
            seen == (held.sequence, held.value@)
        },
        0 <= i < output.live.video@.len() ==> {
            let (seen, held) = (output@.live.video[i], output.live.video@[i]);
            let LegacyVideoCommandV1::Play {
                playback_id,
                resource_uri,
                mode,
                stage_width,
                stage_height,
            } = held.value;
            &&& seen.0 == held.sequence
            &&& seen.1.playback_id == playback_id@
            &&& seen.1.resource_uri == resource_uri@
            &&& seen.1.mode == mode
            &&& seen.1.stage_width == stage_width
            &&& seen.1.stage_height == stage_height
        },
        0 <= i < output.live.audio@.len() ==> {
            let (seen, held) = (output@.live.audio[i], output.live.audio@[i]);
            &&& seen.sequence == held.sequence
            &&& seen.stream_id == held.stream_id
            &&& seen.sample_rate == held.sample_rate
            &&& seen.channels == held.channels
            &&& held.pcm matches LegacyPcmBufferV7::I16(samples) ==> seen.pcm == PcmView::I16(
                samples@,
            )
            &&& held.pcm matches LegacyPcmBufferV7::F32(samples) ==> seen.pcm == PcmView::F32(
                samples@,
            )
        },
        0 <= i < output.live.layers@.len() ==> {
            let (seen, held) = (output@.live.layers[i], output.live.layers@[i]);
            &&& seen.sequence == held.sequence
            &&& seen.viewport_width == held.viewport_width
            &&& seen.viewport_height == held.viewport_height
            &&& held.operation matches LegacyLayerOperationV9::Create(layer) ==> seen.operation
                == LayerOperationView::Create(layer@)
            &&& held.operation matches LegacyLayerOperationV9::Update(layer) ==> seen.operation
                == LayerOperationView::Update(layer@)
        },
{
}

/// What is said of a layer is said of its own fields.
pub proof fn law_layer_is_seen_as_it_is(layer: LegacyLayerStateV9)
    ensures
        layer@.layer_id == layer.layer_id@,
        layer@.role == layer.role@,
        layer@.z_index == layer.z_index,
        layer@.surface_id == layer.surface_id@,
        layer@.generation == layer.generation,
        layer@.width == layer.width,
        layer@.height == layer.height,
        layer@.stride == layer.stride,
        layer@.format == layer.format,
        layer@.damage == layer.damage,
        layer@.transform == layer.transform,
        layer@.opacity == layer.opacity,
        layer@.texture_filter == layer.texture_filter,
        layer@.blend == layer.blend,
{
}

/// What is said of an offer for translation is said of its own fields.
pub proof fn law_offer_is_seen_as_it_is(call: LegacyHookInvocationV1)
    ensures
        call@.session_id == call.session_id@,
        call@.invocation_id == call.invocation_id@,
        call@.family_id == call.family_id@,
        call@.family_game_id == call.family_game_id@,
        call@.hook_id == call.hook_id@,
        call@.timeout_ms == call.timeout_ms,
        call@.payload == call.payload@,
{
}

}
