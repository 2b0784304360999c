//! What one step records: audio operations and bounded diagnostics.

use vstd::prelude::*;

use crate::float::Float32;
use crate::host_api::{
    AudioParams, AudioStreamDesc, AudioStreamId, EncodedAudioKind, RfvpError, RfvpLogLevel,
};
use crate::text;

verus! {

/// Caps on one hosted transaction. A step that exceeds one of them fails as a
/// whole.
#[derive(Debug, Clone, Copy, PartialEq, Eq, Structural)]
pub struct HostedLimits {
    pub max_input_events: usize,
    /// Diagnostics kept per transaction.
    pub max_log_records: usize,
    /// Accounted size of the kept diagnostics.
    pub max_log_bytes: usize,
}

/// The limits that a session has unless it is told otherwise.
pub open spec fn default_limits() -> HostedLimits {
    HostedLimits { max_input_events: 256, max_log_records: 256, max_log_bytes: 16_384 }
}

impl Default for HostedLimits {
    fn default() -> (r: Self)
        ensures
            r == default_limits(),
    {
        HostedLimits { max_input_events: 256, max_log_records: 256, max_log_bytes: 16_384 }
    }
}

// ------------------------------------------------------------------ diagnostics

/// Identity of a diagnostic. It carries no text of the engine.
#[derive(Debug, Clone, Copy, PartialEq, Eq, Structural)]
pub enum HostedLogEvent {
    QuitRequested,
    CoreFailure,
    ResourceWarning,
    HostMessage,
}

impl HostedLogEvent {
    pub open spec fn name(self) -> Seq<char> {
        match self {
            HostedLogEvent::QuitRequested => "rfvp.host.quit_requested"@,
            HostedLogEvent::CoreFailure => "rfvp.core.failure"@,
            HostedLogEvent::ResourceWarning => "rfvp.resource.warning"@,
            HostedLogEvent::HostMessage => "rfvp.host.message"@,
        }
    }

    pub fn code(self) -> (r: &'static str)
        ensures
            r@ == self.name(),
    {
        match self {
            HostedLogEvent::QuitRequested => "rfvp.host.quit_requested",
            HostedLogEvent::CoreFailure => "rfvp.core.failure",
            HostedLogEvent::ResourceWarning => "rfvp.resource.warning",
            HostedLogEvent::HostMessage => "rfvp.host.message",
        }
    }
}

#[derive(Debug, Clone, Copy, PartialEq, Eq, Structural)]
pub struct HostedLogRecord {
    pub level: RfvpLogLevel,
    pub event: HostedLogEvent,
}

/// The identity of a message: the quit message is known by its text, any other
/// one by its level.
pub open spec fn log_event(level: RfvpLogLevel, message: Seq<char>) -> HostedLogEvent {
    if message == "quit requested by host event"@ {
        HostedLogEvent::QuitRequested
    } else {
        match level {
            RfvpLogLevel::Error => HostedLogEvent::CoreFailure,
            RfvpLogLevel::Warn => HostedLogEvent::ResourceWarning,
            _ => HostedLogEvent::HostMessage,
        }
    }
}

pub fn classify_hosted_log(level: RfvpLogLevel, message: &str) -> (r: HostedLogEvent)
    ensures
        r == log_event(level, message@),
{
    if text::same_text(message, "quit requested by host event") {
        return HostedLogEvent::QuitRequested;
    }
    match level {
        RfvpLogLevel::Error => HostedLogEvent::CoreFailure,
        RfvpLogLevel::Warn => HostedLogEvent::ResourceWarning,
        _ => HostedLogEvent::HostMessage,
    }
}

/// The size that one diagnostic is accounted for.
pub const ACCOUNTED_BYTES: usize = 16;

/// The bounded log of one transaction.
#[derive(Debug)]
pub struct RecordingLogs {
    pub limits: HostedLimits,
    pub enabled: bool,
    pub bytes: usize,
    pub records: Vec<HostedLogRecord>,
    pub dropped_count: u32,
}

#[verifier::ext_equal]
pub struct LogsView {
    pub limits: HostedLimits,
    pub enabled: bool,
    pub bytes: usize,
    pub records: Seq<HostedLogRecord>,
    pub dropped: u32,
}

/// An empty log.
pub open spec fn empty_logs(limits: HostedLimits, enabled: bool) -> LogsView {
    LogsView { limits, enabled, bytes: 0, records: Seq::empty(), dropped: 0 }
}

impl LogsView {
    /// Whether one more diagnostic stays inside the limits.
    pub open spec fn has_room(self) -> bool {
        &&& self.records.len() < self.limits.max_log_records
        &&& crate::surface::least(self.bytes + ACCOUNTED_BYTES, usize::MAX as int)
            <= self.limits.max_log_bytes
    }

    /// The log after a message: nothing is kept while it is disabled, and a
    /// message without room is only counted.
    pub open spec fn recorded(self, level: RfvpLogLevel, message: Seq<char>) -> LogsView {
        if !self.enabled {
            self
        } else if self.has_room() {
            LogsView {
                bytes: crate::surface::least(self.bytes + ACCOUNTED_BYTES, usize::MAX as int) as usize,
                records: self.records.push(
                    HostedLogRecord { level, event: log_event(level, message) },
                ),
                ..self
            }
        } else {
            LogsView {
                dropped: crate::surface::least(self.dropped + 1, u32::MAX as int) as u32,
                ..self
            }
        }
    }
}

impl RecordingLogs {
    pub open spec fn view(&self) -> LogsView {
        LogsView {
            limits: self.limits,
            enabled: self.enabled,
            bytes: self.bytes,
            records: self.records@,
            dropped: self.dropped_count,
        }
    }

    pub fn new(limits: HostedLimits, enabled: bool) -> (r: Self)
        ensures
            r@ == empty_logs(limits, enabled),
    {
        RecordingLogs { limits, enabled, bytes: 0, records: Vec::new(), dropped_count: 0 }
    }

    pub fn record(&mut self, level: RfvpLogLevel, message: &str)
        ensures
            final(self)@ == old(self)@.recorded(level, message@),
    {
        if !self.enabled {
            return;
        }
        let event = classify_hosted_log(level, message);
        let next_bytes: usize = self.bytes.saturating_add(ACCOUNTED_BYTES);
        if self.records.len() >= self.limits.max_log_records || next_bytes
            > self.limits.max_log_bytes {
            self.dropped_count = self.dropped_count.saturating_add(1);
            assert(self@ =~= old(self)@.recorded(level, message@));
            return;
        }
        self.bytes = next_bytes;
        self.records.push(HostedLogRecord { level, event });
        assert(self@ =~= old(self)@.recorded(level, message@));
    }

    /// Hands out the kept diagnostics.
    pub fn take(&mut self) -> (r: Vec<HostedLogRecord>)
        ensures
            r@ == old(self)@.records,
            final(self)@ == (LogsView { records: Seq::empty(), ..old(self)@ }),
    {
        let mut r: Vec<HostedLogRecord> = Vec::new();
        core::mem::swap(&mut r, &mut self.records);
        assert(self@ =~= (LogsView { records: Seq::empty(), ..old(self)@ }));
        r
    }
}

/// A log never outgrows its limits, and a message changes nothing but the log: it
/// is kept, counted as dropped, or ignored.
pub proof fn law_log_stays_bounded(logs: LogsView, level: RfvpLogLevel, message: Seq<char>)
    requires
        logs.records.len() <= logs.limits.max_log_records,
        logs.records.len() > 0 ==> logs.bytes <= logs.limits.max_log_bytes,
    ensures
        ({
            let next = logs.recorded(level, message);
            &&& next.records.len() <= next.limits.max_log_records
            &&& next.records.len() > 0 ==> next.bytes <= next.limits.max_log_bytes
            &&& next.limits == logs.limits
            &&& !logs.enabled ==> next == logs
            &&& logs.enabled ==> (next.records.len() == logs.records.len() + 1 <==> logs.has_room())
        }),
{
}

// ------------------------------------------------------------------------ audio

/// An operation of the audio core.
#[allow(inconsistent_fields)]
#[derive(Debug)]
pub enum HostedAudioOperation {
    LoadResource { id: AudioStreamId, kind: EncodedAudioKind, resource_uri: String },
    LoadEncoded { id: AudioStreamId, kind: EncodedAudioKind, bytes: Vec<u8> },
    CreateStream { id: AudioStreamId, desc: AudioStreamDesc },
    SubmitI16 { id: AudioStreamId, samples: Vec<i16> },
    SubmitF32 { id: AudioStreamId, samples: Vec<Float32> },
    Play { id: AudioStreamId, params: AudioParams, fade_in_ms: u32 },
    Stop { id: AudioStreamId, fade_ms: u32 },
    Pause(AudioStreamId),
    Resume(AudioStreamId),
    SetParams { id: AudioStreamId, params: AudioParams },
    SetMasterVolume(Float32),
    DestroyStream(AudioStreamId),
    Tick { elapsed_us: u64 },
}

/// What an audio operation says.
#[allow(inconsistent_fields)]
#[verifier::ext_equal]
pub enum AudioOp {
    LoadResource { id: AudioStreamId, kind: EncodedAudioKind, resource_uri: Seq<char> },
    LoadEncoded { id: AudioStreamId, kind: EncodedAudioKind, bytes: Seq<u8> },
    CreateStream { id: AudioStreamId, desc: AudioStreamDesc },
    SubmitI16 { id: AudioStreamId, samples: Seq<i16> },
    SubmitF32 { id: AudioStreamId, samples: Seq<Float32> },
    Play { id: AudioStreamId, params: AudioParams, fade_in_ms: u32 },
    Stop { id: AudioStreamId, fade_ms: u32 },
    Pause(AudioStreamId),
    Resume(AudioStreamId),
    SetParams { id: AudioStreamId, params: AudioParams },
    SetMasterVolume(Float32),
    DestroyStream(AudioStreamId),
    Tick { elapsed_us: u64 },
}

impl HostedAudioOperation {
    pub open spec fn view(&self) -> AudioOp {
        match *self {
            HostedAudioOperation::LoadResource { id, kind, resource_uri } => AudioOp::LoadResource {
                id,
                kind,
                resource_uri: resource_uri@,
            },
            HostedAudioOperation::LoadEncoded { id, kind, bytes } => AudioOp::LoadEncoded {
                id,
                kind,
                bytes: bytes@,
            },
            HostedAudioOperation::CreateStream { id, desc } => AudioOp::CreateStream { id, desc },
            HostedAudioOperation::SubmitI16 { id, samples } => AudioOp::SubmitI16 {
                id,
                samples: samples@,
            },
            HostedAudioOperation::SubmitF32 { id, samples } => AudioOp::SubmitF32 {
                id,
                samples: samples@,
            },
            HostedAudioOperation::Play { id, params, fade_in_ms } => AudioOp::Play {
                id,
                params,
                fade_in_ms,
            },
            HostedAudioOperation::Stop { id, fade_ms } => AudioOp::Stop { id, fade_ms },
            HostedAudioOperation::Pause(id) => AudioOp::Pause(id),
            HostedAudioOperation::Resume(id) => AudioOp::Resume(id),
            HostedAudioOperation::SetParams { id, params } => AudioOp::SetParams { id, params },
            HostedAudioOperation::SetMasterVolume(volume) => AudioOp::SetMasterVolume(volume),
            HostedAudioOperation::DestroyStream(id) => AudioOp::DestroyStream(id),
            HostedAudioOperation::Tick { elapsed_us } => AudioOp::Tick { elapsed_us },
        }
    }
}

pub open spec fn audio_ops(s: Seq<HostedAudioOperation>) -> Seq<AudioOp> {
    Seq::new(s.len(), |i: int| s[i]@)
}

/// The audio operations of one transaction.
#[derive(Debug)]
pub struct RecordingAudio {
    pub audio_bytes: usize,
    pub operations: Vec<HostedAudioOperation>,
    pub failure: Option<RfvpError>,
}

#[verifier::ext_equal]
pub struct AudioView {
    pub bytes: usize,
    pub ops: Seq<AudioOp>,
    pub failure: Option<RfvpError>,
}

/// A record without operations.
pub open spec fn empty_audio() -> AudioView {
    AudioView { bytes: 0, ops: Seq::empty(), failure: None }
}

/// The payload that an operation is accounted for; `None` for one without payload.
pub open spec fn payload_bytes(op: AudioOp) -> Option<int> {
    match op {
        AudioOp::LoadEncoded { bytes, .. } => Some(bytes.len() as int),
        AudioOp::SubmitI16 { samples, .. } => Some(2 * samples.len() as int),
        AudioOp::SubmitF32 { samples, .. } => Some(4 * samples.len() as int),
        _ => None,
    }
}

/// Whether an operation is refused whatever has been recorded.
pub open spec fn refused_op(op: AudioOp) -> bool {
    match op {
        AudioOp::LoadResource { resource_uri, .. } => resource_uri.len() == 0,
        AudioOp::SetMasterVolume(volume) => !volume.finite(),
        _ => false,
    }
}

impl AudioView {
    /// What is wrong with recording `op`, if anything is.
    pub open spec fn push_fault(self, op: AudioOp) -> Option<RfvpError> {
        if refused_op(op) {
            Some(RfvpError::InvalidArgument)
        } else {
            match payload_bytes(op) {
                Some(bytes) => if bytes > usize::MAX {
                    Some(RfvpError::CapacityExceeded)
                } else if self.failure is Some {
                    self.failure
                } else if self.bytes + bytes > usize::MAX {
                    Some(RfvpError::CapacityExceeded)
                } else {
                    None
                },
                None => self.failure,
            }
        }
    }

    /// The record with `op` behind the others.
    pub open spec fn with(self, op: AudioOp) -> AudioView {
        AudioView {
            bytes: match payload_bytes(op) {
                Some(bytes) => (self.bytes + bytes) as usize,
                None => self.bytes,
            },
            ops: self.ops.push(op),
            ..self
        }
    }

    /// The outcome of recording `op`: the record and the failure.
    pub open spec fn recorded(self, op: AudioOp) -> (AudioView, Result<(), RfvpError>) {
        match self.push_fault(op) {
            Some(e) => (self, Err(e)),
            None => (self.with(op), Ok(())),
        }
    }
}

impl RecordingAudio {
    pub open spec fn view(&self) -> AudioView {
        AudioView {
            bytes: self.audio_bytes,
            ops: audio_ops(self.operations@),
            failure: self.failure,
        }
    }

    pub fn new() -> (r: Self)
        ensures
            r@ == empty_audio(),
    {
        let r = RecordingAudio { audio_bytes: 0, operations: Vec::new(), failure: None };
        assert(r@ =~= empty_audio());
        r
    }

    pub fn finish(&self) -> (r: Result<(), RfvpError>)
        ensures
            match r {
                Ok(_) => self@.failure is None,
                Err(e) => self@.failure == Some(e),
            },
    {
        match self.failure {
            None => Ok(()),
            Some(e) => Err(e),
        }
    }

    fn push(&mut self, operation: HostedAudioOperation) -> (r: Result<(), RfvpError>)
        ensures
            match r {
                Ok(_) => {
                    &&& old(self)@.failure is None
                    &&& final(self)@ == (AudioView {
                        ops: old(self)@.ops.push(operation@),
                        ..old(self)@
                    })
                },
                Err(e) => old(self)@.failure == Some(e) && final(self)@ == old(self)@,
            },
    {
        match self.finish() {
            Err(e) => Err(e),
            Ok(_) => {
                self.operations.push(operation);
                assert(audio_ops(self.operations@) =~= old(self)@.ops.push(operation@));
                Ok(())
            },
        }
    }

    fn reserve_audio_bytes(&mut self, additional: usize) -> (r: Result<(), RfvpError>)
        ensures
            match r {
                Ok(_) => {
                    &&& old(self)@.failure is None
                    &&& old(self)@.bytes + additional <= usize::MAX
                    &&& final(self)@ == (AudioView {
                        bytes: (old(self)@.bytes + additional) as usize,
                        ..old(self)@
                    })
                },
                Err(e) => {
                    &&& final(self)@ == old(self)@
                    &&& if old(self)@.failure is Some {
                        old(self)@.failure == Some(e)
                    } else {
                        old(self)@.bytes + additional > usize::MAX && e
                            == RfvpError::CapacityExceeded
                    }
                },
            },
    {
        match self.finish() {
            Err(e) => return Err(e),
            Ok(_) => {},
        }
        match self.audio_bytes.checked_add(additional) {
            None => Err(RfvpError::CapacityExceeded),
            Some(v) => {
                self.audio_bytes = v;
                Ok(())
            },
        }
    }

    /// Records an operation that carries `count` items of `size` bytes.
    fn push_payload(&mut self, count: usize, size: usize, operation: HostedAudioOperation) -> (r: Result<
        (),
        RfvpError,
    >)
        requires
            payload_bytes(operation@) == Some(size * count),
            !refused_op(operation@),
        ensures
            (final(self)@, r) == old(self)@.recorded(operation@),
    {
        let bytes: usize = match size.checked_mul(count) {
            Some(v) => v,
            None => return Err(RfvpError::CapacityExceeded),
        };
        match self.reserve_audio_bytes(bytes) {
            Err(e) => return Err(e),
            Ok(_) => {},
        }
        match self.push(operation) {
            Ok(_) => {
                assert(self@ =~= old(self)@.with(operation@));
                Ok(())
            },
            Err(e) => Err(e),
        }
    }

    /// Records an operation without payload.
    fn push_plain(&mut self, operation: HostedAudioOperation) -> (r: Result<(), RfvpError>)
        requires
            payload_bytes(operation@) is None,
            !refused_op(operation@),
        ensures
            (final(self)@, r) == old(self)@.recorded(operation@),
    {
        match self.push(operation) {
            Ok(_) => Ok(()),
            Err(e) => Err(e),
        }
    }

    /// Loads a resource by its name; its bytes stay with the host.
    pub fn load_resource(&mut self, id: AudioStreamId, kind: EncodedAudioKind, resource_uri: &str) -> (r:
        Result<(), RfvpError>)
        ensures
            (final(self)@, r) == old(self)@.recorded(
                AudioOp::LoadResource { id, kind, resource_uri: resource_uri@ },
            ),
    {
        let chars = text::chars_of(resource_uri);
        if chars.len() == 0 {
            return Err(RfvpError::InvalidArgument);
        }
        self.push_plain(
            HostedAudioOperation::LoadResource {
                id,
                kind,
                resource_uri: text::owned(resource_uri),
            },
        )
    }

    pub fn load_encoded(&mut self, id: AudioStreamId, kind: EncodedAudioKind, bytes: &[u8]) -> (r: Result<
        (),
        RfvpError,
    >)
        ensures
            (final(self)@, r) == old(self)@.recorded(
                AudioOp::LoadEncoded { id, kind, bytes: bytes@ },
            ),
    {
        let copy = crate::bytes::copy_range(bytes, 0, bytes.len());
        assert(copy@ =~= bytes@);
        self.load_encoded_owned(id, kind, copy)
    }

    pub fn load_encoded_owned(&mut self, id: AudioStreamId, kind: EncodedAudioKind, bytes: Vec<u8>) -> (r:
        Result<(), RfvpError>)
        ensures
            (final(self)@, r) == old(self)@.recorded(
                AudioOp::LoadEncoded { id, kind, bytes: bytes@ },
            ),
    {
        let count: usize = bytes.len();
        self.push_payload(count, 1, HostedAudioOperation::LoadEncoded { id, kind, bytes })
    }

    pub fn create_stream(&mut self, id: AudioStreamId, desc: AudioStreamDesc) -> (r: Result<
        (),
        RfvpError,
    >)
        ensures
            (final(self)@, r) == old(self)@.recorded(AudioOp::CreateStream { id, desc }),
    {
        self.push_plain(HostedAudioOperation::CreateStream { id, desc })
    }

    pub fn submit_i16(&mut self, id: AudioStreamId, samples: &[i16]) -> (r: Result<(), RfvpError>)
        ensures
            (final(self)@, r) == old(self)@.recorded(AudioOp::SubmitI16 { id, samples: samples@ }),
    {
        let mut copy: Vec<i16> = Vec::new();
        copy.extend_from_slice(samples);
        assert(copy@ =~= samples@);
        self.submit_i16_owned(id, copy)
    }

    pub fn submit_i16_owned(&mut self, id: AudioStreamId, samples: Vec<i16>) -> (r: Result<
        (),
        RfvpError,
    >)
        ensures
            (final(self)@, r) == old(self)@.recorded(AudioOp::SubmitI16 { id, samples: samples@ }),
    {
        let count: usize = samples.len();
        self.push_payload(count, 2, HostedAudioOperation::SubmitI16 { id, samples })
    }

    pub fn submit_f32(&mut self, id: AudioStreamId, samples: &[Float32]) -> (r: Result<(), RfvpError>)
        ensures
            (final(self)@, r) == old(self)@.recorded(AudioOp::SubmitF32 { id, samples: samples@ }),
    {
        let mut copy: Vec<Float32> = Vec::new();
        let mut i: usize = 0;
        while i < samples.len()
            invariant
                i <= samples@.len(),
                copy@ =~= samples@.subrange(0, i as int),
            decreases samples@.len() - i,
        {
            copy.push(samples[i]);
            i = i + 1;
        }
        assert(copy@ =~= samples@);
        self.submit_f32_owned(id, copy)
    }

    pub fn submit_f32_owned(&mut self, id: AudioStreamId, samples: Vec<Float32>) -> (r: Result<
        (),
        RfvpError,
    >)
        ensures
            (final(self)@, r) == old(self)@.recorded(AudioOp::SubmitF32 { id, samples: samples@ }),
    {
        let count: usize = samples.len();
        self.push_payload(count, 4, HostedAudioOperation::SubmitF32 { id, samples })
    }

    pub fn play(&mut self, id: AudioStreamId, params: AudioParams, fade_in_ms: u32) -> (r: Result<
        (),
        RfvpError,
    >)
        ensures
            (final(self)@, r) == old(self)@.recorded(AudioOp::Play { id, params, fade_in_ms }),
    {
        self.push_plain(HostedAudioOperation::Play { id, params, fade_in_ms })
    }

    pub fn stop(&mut self, id: AudioStreamId, fade_ms: u32) -> (r: Result<(), RfvpError>)
        ensures
            (final(self)@, r) == old(self)@.recorded(AudioOp::Stop { id, fade_ms }),
    {
        self.push_plain(HostedAudioOperation::Stop { id, fade_ms })
    }

    pub fn pause(&mut self, id: AudioStreamId) -> (r: Result<(), RfvpError>)
        ensures
            (final(self)@, r) == old(self)@.recorded(AudioOp::Pause(id)),
    {
        self.push_plain(HostedAudioOperation::Pause(id))
    }

    pub fn resume(&mut self, id: AudioStreamId) -> (r: Result<(), RfvpError>)
        ensures
            (final(self)@, r) == old(self)@.recorded(AudioOp::Resume(id)),
    {
        self.push_plain(HostedAudioOperation::Resume(id))
    }

    pub fn set_params(&mut self, id: AudioStreamId, params: AudioParams) -> (r: Result<(), RfvpError>)
        ensures
            (final(self)@, r) == old(self)@.recorded(AudioOp::SetParams { id, params }),
    {
        self.push_plain(HostedAudioOperation::SetParams { id, params })
    }

    /// Sets the master volume, which has to be finite.
    pub fn set_master_volume(&mut self, volume: Float32) -> (r: Result<(), RfvpError>)
        ensures
            (final(self)@, r) == old(self)@.recorded(AudioOp::SetMasterVolume(volume)),
    {
        if !volume.is_finite() {
            return Err(RfvpError::InvalidArgument);
        }
        self.push_plain(HostedAudioOperation::SetMasterVolume(volume))
    }

    /// Ends a stream; once the record has failed, nothing is added to it.
    pub fn destroy_stream(&mut self, id: AudioStreamId)
        ensures
            final(self)@ == old(self)@.recorded(AudioOp::DestroyStream(id)).0,
    {
        if self.failure.is_some() {
            return;
        }
        match self.push(HostedAudioOperation::DestroyStream(id)) {
            Ok(_) => {},
            Err(e) => {
                self.failure = Some(e);
            },
        }
    }

    pub fn tick(&mut self, elapsed_us: u64) -> (r: Result<(), RfvpError>)
        ensures
            (final(self)@, r) == old(self)@.recorded(AudioOp::Tick { elapsed_us }),
    {
        self.push_plain(HostedAudioOperation::Tick { elapsed_us })
    }
}

// ----------------------------------------------------------------------- laws

/// The wish to quit is known by its words at every level. Any other message is a failure of
/// the engine where it is an error, a warning about a resource where it is a warning, and a
/// plain message otherwise.
pub proof fn law_messages_are_told_apart(level: RfvpLogLevel, message: Seq<char>)
    ensures
        log_event(level, message) is QuitRequested <==> message == "quit requested by host event"@,
        message != "quit requested by host event"@ ==> {
            &&& log_event(level, message) is CoreFailure <==> level is Error
            &&& log_event(level, message) is ResourceWarning <==> level is Warn
            &&& log_event(level, message) is HostMessage <==> level is Info || level is Debug
                || level is Trace
        },
{
}

/// An enabled log keeps a message, in order and with its level, as long as the kept ones are
/// fewer than the limit and sixteen bytes for each of them fit; otherwise it counts a lost
/// one. It starts empty.
pub proof fn law_messages_are_kept_or_counted(
    logs: LogsView,
    level: RfvpLogLevel,
    message: Seq<char>,
)
    requires
        logs.enabled,
        logs.bytes == 16 * logs.records.len(),
        logs.dropped < u32::MAX,
        16 * (logs.records.len() + 1) <= usize::MAX,
    ensures
        ({
            let next = logs.recorded(level, message);
            let kept = logs.records.len() < logs.limits.max_log_records && 16 * (logs.records.len()
                + 1) <= logs.limits.max_log_bytes;
            &&& next.bytes == 16 * next.records.len()
            &&& next.enabled
            &&& kept ==> {
                &&& next.records.len() == logs.records.len() + 1
                &&& next.records.drop_last() == logs.records
                &&& next.records.last().level == level
                &&& next.records.last().event == log_event(level, message)
                &&& next.dropped == logs.dropped
            }
            &&& !kept ==> next.records == logs.records && next.dropped == logs.dropped + 1
        }),
        forall|limits: HostedLimits, enabled: bool| #[trigger]
            empty_logs(limits, enabled).records.len() == 0 && empty_logs(limits, enabled).bytes == 0
                && empty_logs(limits, enabled).dropped == 0 && empty_logs(limits, enabled).enabled
                == enabled && empty_logs(limits, enabled).limits == limits,
{
    let next = logs.recorded(level, message);
    if next.records.len() > logs.records.len() {
        assert(next.records.drop_last() =~= logs.records);
    }
}

/// The bytes that an operation holds: one for each encoded byte, two for each sample of 16
/// bits, four for each of 32.
pub open spec fn held_bytes(operation: HostedAudioOperation) -> int {
    match operation {
        HostedAudioOperation::LoadEncoded { id, kind, bytes } => bytes@.len() as int,
        HostedAudioOperation::SubmitI16 { id, samples } => 2 * samples@.len() as int,
        HostedAudioOperation::SubmitF32 { id, samples } => 4 * samples@.len() as int,
        _ => 0,
    }
}

/// An operation is recorded behind the earlier ones, and the record accounts for the bytes
/// that it holds. Refused are an address without characters and a volume that is not finite,
/// and what no longer fits in memory; a refused operation leaves the record.
pub proof fn law_sound_is_recorded_in_order(record: AudioView, operation: HostedAudioOperation)
    requires
        record.failure is None,
    ensures
        ({
            let (after, outcome) = record.recorded(operation@);
            let refused = match operation {
                HostedAudioOperation::LoadResource { id, kind, resource_uri } => resource_uri@.len()
                    == 0,
                HostedAudioOperation::SetMasterVolume(volume) => !volume.finite(),
                _ => false,
            };
            &&& refused ==> outcome == Err::<(), RfvpError>(RfvpError::InvalidArgument)
            &&& !refused && record.bytes + held_bytes(operation) <= usize::MAX ==> {
                &&& outcome is Ok
                &&& after.ops == record.ops.push(operation@)
                &&& after.bytes == record.bytes + held_bytes(operation)
                &&& after.failure is None
            }
            &&& !refused && record.bytes + held_bytes(operation) > usize::MAX ==> outcome == Err::<
                (),
                RfvpError,
            >(RfvpError::CapacityExceeded)
            &&& outcome is Err ==> after == record
        }),
{
}

/// A record that has failed takes nothing more and repeats its failure for whatever it would
/// otherwise have taken.
pub proof fn law_failed_record_stays(record: AudioView, operation: HostedAudioOperation)
    requires
        record.failure is Some,
    ensures
        record.recorded(operation@).0 == record,
        (record.recorded(operation@).1 is Err),
        (AudioView { failure: None, ..record }).recorded(operation@).1 is Ok ==> (record.recorded(
            operation@,
        ).1 == Err::<(), RfvpError>(record.failure->0)),
{
}

/// A record starts empty and without a failure.
pub proof fn law_record_starts_empty()
    ensures
        empty_audio().bytes == 0,
        empty_audio().ops.len() == 0,
        empty_audio().failure is None,
        default_limits().max_input_events == 256,
        default_limits().max_log_records == 256,
        default_limits().max_log_bytes == 16_384,
{
}

/// Each kind of message has a name of its own.
pub proof fn law_messages_have_their_names()
    ensures
        HostedLogEvent::QuitRequested.name() == "rfvp.host.quit_requested"@,
        HostedLogEvent::CoreFailure.name() == "rfvp.core.failure"@,
        HostedLogEvent::ResourceWarning.name() == "rfvp.resource.warning"@,
        HostedLogEvent::HostMessage.name() == "rfvp.host.message"@,
{
}

}
