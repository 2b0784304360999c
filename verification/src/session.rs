//! A hosted session: one core, its limits and its presentation tracker.
//!
//! A step runs in two halves around the engine. The first half takes the input
//! and says what the engine is to do; the second half turns what the engine did
//! into one delta. A step that fails hands out no part of a delta.

use vstd::prelude::*;

use crate::engine_core::{
    BootEvidence, BootOutcome, CoreView, EngineReply, HostedTextEvent, PackReply, RenderCall,
    RfvpBootConfig, RfvpCore, RfvpCoreConfig, RfvpTickResult, TickStart,
};
use crate::framebuffer::{SoftFramebuffer, SurfacePixelFormat};
use crate::host_api::{RfvpError, RfvpEvent};
use crate::input::InputAction;
use crate::recording::{
    AudioOp, HostedAudioOperation, HostedLimits, HostedLogRecord, RecordingAudio,
    RecordingLogs,
};
use crate::surface::{DirectSurfaceTracker, HostedVisualDamage, TrackerView};
use crate::text;
use crate::videoplayer::{HostMovieCommand, MovieCommandView, MovieMode};

verus! {

/// Increment only for a deliberately incompatible contract of the hosted core.
pub const HOSTED_ABI_VERSION: u16 = 3;

/// Input of exactly one step.
#[derive(Debug)]
pub struct HostedStepInput {
    pub events: Vec<RfvpEvent>,
}

impl Default for HostedStepInput {
    fn default() -> (r: Self)
        ensures
            r.events@.len() == 0,
    {
        HostedStepInput { events: Vec::new() }
    }
}

/// A movie for the host to play.
#[derive(Debug)]
pub enum HostedVideoOperation {
    Play {
        resource_uri: String,
        byte_len: u64,
        modal_with_audio: bool,
        stage_width: u32,
        stage_height: u32,
    },
}

#[verifier::ext_equal]
pub struct VideoOp {
    pub resource_uri: Seq<char>,
    pub byte_len: u64,
    pub modal_with_audio: bool,
    pub stage_width: u32,
    pub stage_height: u32,
}

impl HostedVideoOperation {
    pub open spec fn view(&self) -> VideoOp {
        let HostedVideoOperation::Play {
            resource_uri,
            byte_len,
            modal_with_audio,
            stage_width,
            stage_height,
        } = *self;
        VideoOp {
            resource_uri: resource_uri@,
            byte_len,
            modal_with_audio,
            stage_width,
            stage_height,
        }
    }
}

pub open spec fn video_ops(s: Seq<HostedVideoOperation>) -> Seq<VideoOp> {
    Seq::new(s.len(), |i: int| s[i]@)
}

/// The operation for a movie request.
pub open spec fn play_op(command: MovieCommandView) -> VideoOp {
    VideoOp {
        resource_uri: command.resource_uri,
        byte_len: command.byte_len,
        modal_with_audio: command.mode == MovieMode::ModalWithAudio,
        stage_width: command.screen_w,
        stage_height: command.screen_h,
    }
}

pub open spec fn play_ops(commands: Seq<MovieCommandView>) -> Seq<VideoOp> {
    Seq::new(commands.len(), |i: int| play_op(commands[i]))
}

fn play_operations(commands: &Vec<HostMovieCommand>) -> (r: Vec<HostedVideoOperation>)
    ensures
        video_ops(r@) == play_ops(crate::videoplayer::movie_views(commands@)),
{
    let ghost expected = play_ops(crate::videoplayer::movie_views(commands@));
    let mut r: Vec<HostedVideoOperation> = Vec::new();
    let mut i: usize = 0;
    while i < commands.len()
        invariant
            i <= commands@.len(),
            expected == play_ops(crate::videoplayer::movie_views(commands@)),
            video_ops(r@) =~= expected.subrange(0, i as int),
        decreases commands@.len() - i,
    {
        let c = &commands[i];
        let op = HostedVideoOperation::Play {
            resource_uri: text::owned(c.resource_uri.as_str()),
            byte_len: c.byte_len,
            modal_with_audio: match c.mode {
                MovieMode::ModalWithAudio => true,
                MovieMode::LayerNoAudio => false,
            },
            stage_width: c.screen_w,
            stage_height: c.screen_h,
        };
        assert(op@ =~= expected[i as int]);
        let ghost before = video_ops(r@);
        r.push(op);
        assert(video_ops(r@) =~= before.push(op@));
        i = i + 1;
    }
    assert(video_ops(r@) =~= expected);
    r
}

/// What one step produced.
#[derive(Debug)]
pub struct HostedStepDelta {
    pub tick: RfvpTickResult,
    pub audio: Vec<HostedAudioOperation>,
    pub video: Vec<HostedVideoOperation>,
    pub logs: Vec<HostedLogRecord>,
    pub log_dropped_count: u32,
    /// The presentation differs from the last presented frame.
    pub visual_changed: bool,
    /// The part of the surface that may differ.
    pub visual_damage: HostedVisualDamage,
}

#[verifier::ext_equal]
pub struct DeltaView {
    pub tick: RfvpTickResult,
    pub audio: Seq<AudioOp>,
    pub video: Seq<VideoOp>,
    pub logs: Seq<HostedLogRecord>,
    pub log_dropped_count: u32,
    pub visual_changed: bool,
    pub visual_damage: HostedVisualDamage,
}

impl HostedStepDelta {
    pub open spec fn view(&self) -> DeltaView {
        DeltaView {
            tick: self.tick,
            audio: crate::recording::audio_ops(self.audio@),
            video: video_ops(self.video@),
            logs: self.logs@,
            log_dropped_count: self.log_dropped_count,
            visual_changed: self.visual_changed,
            visual_damage: self.visual_damage,
        }
    }
}

/// Whether instruction evidence is recorded. Shipping sessions record none.
#[derive(Debug, Clone, Copy, PartialEq, Eq, Structural)]
pub enum HostedTraceProfile {
    Shipping,
    Evidence { crash_trace_capacity: usize },
}

impl Default for HostedTraceProfile {
    fn default() -> (r: Self)
        ensures
            r == HostedTraceProfile::Shipping,
    {
        HostedTraceProfile::Shipping
    }
}

/// The length of the trace under a profile; `None` for evidence without length.
pub open spec fn trace_length(profile: HostedTraceProfile) -> Option<usize> {
    match profile {
        HostedTraceProfile::Shipping => Some(0),
        HostedTraceProfile::Evidence { crash_trace_capacity } => if crash_trace_capacity > 0 {
            Some(crash_trace_capacity)
        } else {
            None
        },
    }
}

/// A session.
#[derive(Debug)]
pub struct HostedSession {
    pub engine: RfvpCore,
    pub limits: HostedLimits,
    pub renderer: DirectSurfaceTracker,
    /// A surface has been drawn on before.
    pub surface_ready: bool,
    pub capture_logs: bool,
}

#[verifier::ext_equal]
pub struct SessionView {
    pub core: CoreView,
    pub limits: HostedLimits,
    pub tracker: TrackerView,
    pub surface_ready: bool,
    pub capture_logs: bool,
}

/// The first half of a step, done.
#[derive(Debug)]
pub struct StepStart {
    pub tick: TickStart,
}

/// What the engine is to do in a step.
#[verifier::ext_equal]
pub struct StartView {
    pub elapsed_us: u64,
    pub frame_time_ms: u64,
    pub consumed_events: nat,
    pub input: Seq<InputAction>,
    pub quit: bool,
}

impl StepStart {
    pub open spec fn view(&self) -> StartView {
        StartView {
            elapsed_us: self.tick.elapsed_us,
            frame_time_ms: self.tick.frame_time_ms,
            consumed_events: self.tick.consumed_events as nat,
            input: self.tick.input@,
            quit: self.tick.quit,
        }
    }
}

/// The core after the events from `i` on were queued, and whether one did not fit.
pub open spec fn events_pushed(core: CoreView, events: Seq<RfvpEvent>, i: int) -> (CoreView, bool)
    decreases events.len() - i,
{
    if i >= events.len() {
        (core, true)
    } else if core.pending.len() < core.config.max_pending_events {
        events_pushed(CoreView { pending: core.pending.push(events[i]), ..core }, events, i + 1)
    } else {
        (core, false)
    }
}

/// The first half of a step at the host's time `now`.
pub open spec fn step_begun(session: SessionView, events: Seq<RfvpEvent>, now: u64) -> (
    SessionView,
    Result<StartView, RfvpError>,
) {
    let queued = events_pushed(session.core, events, 0);
    if events.len() > session.limits.max_input_events {
        (session, Err(RfvpError::CapacityExceeded))
    } else if !queued.1 {
        (SessionView { core: queued.0, ..session }, Err(RfvpError::CapacityExceeded))
    } else {
        let elapsed_us = crate::engine_core::elapsed_since(queued.0.last_tick_us, now);
        (
            SessionView { core: crate::engine_core::tick_begun(queued.0, now), ..session },
            Ok(
                StartView {
                    elapsed_us,
                    frame_time_ms: (elapsed_us / 1_000) as u64,
                    consumed_events: queued.0.pending.len(),
                    input: crate::input::actions_of(queued.0.pending),
                    quit: crate::input::asks_to_quit(queued.0.pending),
                },
            ),
        )
    }
}

/// A step from its first half to its end: the session afterwards and the delta or
/// the failure.
pub open spec fn stepped(session: SessionView, start: TickStart, engine: EngineReply) -> (
    SessionView,
    Result<DeltaView, RfvpError>,
) {
    let outcome = crate::engine_core::ticked(
        session.core,
        start,
        engine,
        crate::recording::empty_audio(),
        session.tracker,
        crate::recording::empty_logs(session.limits, session.capture_logs),
    );
    let after = SessionView { core: outcome.core, tracker: outcome.tracker, ..session };
    match outcome.result {
        Err(e) => (after, Err(e)),
        Ok(tick) => if outcome.tracker.failure is Some {
            (after, Err(outcome.tracker.failure->0))
        } else if outcome.audio.failure is Some {
            (after, Err(outcome.audio.failure->0))
        } else {
            (
                SessionView {
                    core: CoreView {
                        game: crate::engine_core::GameView {
                            video: crate::videoplayer::VideoView {
                                pending: Seq::empty(),
                                ..outcome.core.game.video
                            },
                            ..outcome.core.game
                        },
                        ..outcome.core
                    },
                    tracker: TrackerView {
                        visual_changed: false,
                        visual_damage: HostedVisualDamage::Unchanged,
                        ..outcome.tracker
                    },
                    ..session
                },
                Ok(
                    DeltaView {
                        tick,
                        audio: outcome.audio.ops,
                        video: play_ops(outcome.core.game.video.pending),
                        logs: outcome.logs.records,
                        log_dropped_count: outcome.logs.dropped,
                        visual_changed: outcome.tracker.visual_changed,
                        visual_damage: outcome.tracker.visual_damage,
                    },
                ),
            )
        },
    }
}

/// What the host's file port answered for a resource.
#[derive(Debug)]
pub enum FileReply {
    /// It could not be opened.
    Unopened(RfvpError),
    /// It was opened and could not be read, or is longer than was asked for.
    Unreadable(RfvpError),
    Read(Vec<u8>),
}

/// What a boot recorded on the host's ports. A boot has no delta, so anything drawn
/// or played is an error.
#[derive(Debug)]
pub struct BootPorts {
    pub render: Vec<RenderCall>,
    pub audio_operations: usize,
}

/// Whether a boot left its ports untouched: no call to the renderer and nothing
/// played.
pub open spec fn ports_quiet(ports: BootPorts) -> bool {
    ports.render@.len() == 0 && ports.audio_operations == 0
}

/// A boot: the session afterwards and the failure. A boot fails as its core does, then
/// with a failure that the renderer kept, and else for any call to the renderer and
/// anything played; after a boot the first frame is new as a whole.
pub open spec fn session_booted(
    session: SessionView,
    boot: RfvpBootConfig<'_>,
    evidence: BootEvidence,
    ports: BootPorts,
) -> (SessionView, Option<RfvpError>) {
    let core = crate::engine_core::booted_core(session.core, boot, evidence);
    let shown = crate::engine_core::rendered(crate::surface::fresh_tracker(), ports.render@, 0);
    let after = SessionView { core, ..session };
    match crate::engine_core::boot_failure(boot, evidence) {
        Some(failure) => (after, Some(failure.0)),
        None => if shown.0.failure is Some {
            (after, shown.0.failure)
        } else if !ports_quiet(ports) {
            (after, Some(RfvpError::InvalidData))
        } else {
            (SessionView { tracker: crate::surface::fresh_tracker(), ..after }, None)
        },
    }
}

impl HostedSession {
    pub open spec fn view(&self) -> SessionView {
        SessionView {
            core: self.engine@,
            limits: self.limits,
            tracker: self.renderer@,
            surface_ready: self.surface_ready,
            capture_logs: self.capture_logs,
        }
    }

    pub open spec fn wf(&self) -> bool {
        self.engine.wf()
    }

    pub fn new(config: RfvpCoreConfig, limits: HostedLimits) -> (r: Result<Self, RfvpError>)
        ensures
            if limits.max_input_events == 0 || limits.max_log_records == 0 || limits.max_log_bytes == 0 {
                r is Err && r->Err_0 == RfvpError::InvalidArgument
            } else {
                &&& r is Ok
                &&& r->Ok_0.wf()
                &&& r->Ok_0@ == (SessionView {
                    core: crate::engine_core::fresh_core(config),
                    limits,
                    tracker: crate::surface::fresh_tracker(),
                    surface_ready: false,
                    capture_logs: false,
                })
            },
    {
        if limits.max_input_events == 0 || limits.max_log_records == 0 || limits.max_log_bytes == 0 {
            return Err(RfvpError::InvalidArgument);
        }
        Ok(
            HostedSession {
                engine: RfvpCore::new(config),
                limits,
                renderer: DirectSurfaceTracker::new(),
                surface_ready: false,
                capture_logs: false,
            },
        )
    }

    pub fn core_state(&self) -> (r: &RfvpCore)
        ensures
            *r == self.engine,
    {
        &self.engine
    }

    /// Chooses whether evidence is recorded, before the session boots.
    pub fn set_trace_profile(&mut self, profile: HostedTraceProfile) -> (r: Result<(), RfvpError>)
        requires
            old(self).wf(),
            !old(self)@.core.interpreter,
        ensures
            final(self).wf(),
            match trace_length(profile) {
                None => {
                    &&& r is Err && r->Err_0 == RfvpError::InvalidArgument
                    &&& final(self)@ == old(self)@
                },
                Some(length) => if length <= crate::engine_core::MAX_TRACE_CAPACITY {
                    &&& r is Ok
                    &&& final(self)@ == (SessionView {
                        core: CoreView { trace_capacity: length, ..old(self)@.core },
                        capture_logs: profile is Evidence,
                        ..old(self)@
                    })
                } else {
                    &&& r is Err && r->Err_0 == RfvpError::CapacityExceeded
                    &&& final(self)@ == old(self)@
                },
            },
    {
        self.set_running_trace_profile(profile, true)
    }

    /// Chooses whether evidence is recorded; a running interpreter decides with
    /// `accepted` whether it takes the length.
    pub fn set_running_trace_profile(&mut self, profile: HostedTraceProfile, accepted: bool) -> (r:
        Result<(), RfvpError>)
        requires
            old(self).wf(),
        ensures
            final(self).wf(),
            match trace_length(profile) {
                None => {
                    &&& r is Err && r->Err_0 == RfvpError::InvalidArgument
                    &&& final(self)@ == old(self)@
                },
                Some(length) => if (if old(self)@.core.interpreter {
                    accepted
                } else {
                    length <= crate::engine_core::MAX_TRACE_CAPACITY
                }) {
                    &&& r is Ok
                    &&& final(self)@ == (SessionView {
                        core: CoreView { trace_capacity: length, ..old(self)@.core },
                        capture_logs: profile is Evidence,
                        ..old(self)@
                    })
                } else {
                    &&& r is Err && r->Err_0 == RfvpError::CapacityExceeded
                    &&& final(self)@ == old(self)@
                },
            },
    {
        let capacity: usize = match profile {
            HostedTraceProfile::Shipping => 0,
            HostedTraceProfile::Evidence { crash_trace_capacity } => {
                if crash_trace_capacity == 0 {
                    return Err(RfvpError::InvalidArgument);
                }
                crash_trace_capacity
            },
        };
        match self.engine.set_hosted_trace_capacity(capacity, accepted) {
            Err(e) => return Err(e),
            Ok(_) => {},
        }
        self.capture_logs = match profile {
            HostedTraceProfile::Shipping => false,
            HostedTraceProfile::Evidence { .. } => true,
        };
        Ok(())
    }

    /// The instruction trace `records` of the interpreter, if one runs.
    pub fn crash_trace<T>(&self, records: Vec<T>) -> (r: Result<Vec<T>, RfvpError>)
        ensures
            if self@.core.interpreter {
                r is Ok && r->Ok_0 == records
            } else {
                r is Err && r->Err_0 == RfvpError::InvalidData
            },
    {
        self.engine.hosted_trace(records)
    }

    pub fn quit_requested(&self) -> (r: bool)
        ensures
            r == self@.core.quit_requested,
    {
        self.engine.quit_requested()
    }

    /// Whether the session is over, by a quit event or because the script ended.
    pub fn is_terminal(&self) -> (r: bool)
        ensures
            r == (self@.core.quit_requested || self@.core.game.main_thread_exited
                || self@.core.game.should_exit),
    {
        self.engine.hosted_terminal()
    }

    /// Ends the one movie that plays.
    pub fn complete_video(&mut self) -> (r: Result<(), RfvpError>)
        requires
            old(self).wf(),
        ensures
            final(self).wf(),
            if old(self)@.core.game.video.playing {
                &&& r is Ok
                &&& final(self)@ == (SessionView {
                    core: CoreView {
                        game: crate::engine_core::GameView {
                            video: old(self)@.core.game.video.stopped(),
                            halted: false,
                            ..old(self)@.core.game
                        },
                        ..old(self)@.core
                    },
                    ..old(self)@
                })
            } else {
                &&& r is Err && r->Err_0 == RfvpError::InvalidData
                &&& final(self)@ == old(self)@
            },
    {
        self.engine.complete_hosted_video()
    }

    /// Reads a resource: a file of the host comes before the archive index. `file`
    /// is what the host's file port answered, `pack` what the index answers when
    /// the port has no such file. A file that is there but cannot be read is a failure.
    pub fn read_resource(
        &self,
        resource_uri: &str,
        max_bytes: usize,
        file: FileReply,
        pack: PackReply,
    ) -> (r: Result<Vec<u8>, RfvpError>)
        ensures
            if !crate::engine_core::resource_request_valid(resource_uri@, max_bytes) {
                r is Err && r->Err_0 == RfvpError::InvalidArgument
            } else {
                match file {
                    FileReply::Read(bytes) => r is Ok && r->Ok_0 == bytes,
                    FileReply::Unreadable(e) => r is Err && r->Err_0 == e,
                    FileReply::Unopened(e) => if e == RfvpError::NotFound {
                        match crate::engine_core::packed_resource(max_bytes, pack) {
                            Ok(bytes) => r is Ok && r->Ok_0@ == bytes,
                            Err(f) => r is Err && r->Err_0 == f,
                        }
                    } else {
                        r is Err && r->Err_0 == e
                    },
                }
            },
    {
        let v = text::chars_of(resource_uri);
        if v.len() == 0 || text::has_char(&v, '\0') || max_bytes == 0 {
            return Err(RfvpError::InvalidArgument);
        }
        match file {
            FileReply::Read(bytes) => Ok(bytes),
            FileReply::Unreadable(e) => Err(e),
            FileReply::Unopened(RfvpError::NotFound) => self.engine.read_hosted_resource(
                resource_uri,
                max_bytes,
                pack,
            ),
            FileReply::Unopened(e) => Err(e),
        }
    }

    /// Boots the session. A boot that drew or played anything is refused; after a
    /// boot the first frame is new as a whole.
    pub fn boot(&mut self, boot: RfvpBootConfig<'_>, evidence: BootEvidence, ports: BootPorts) -> (r: (
        BootOutcome,
        Result<(), RfvpError>,
    ))
        requires
            old(self).wf(),
            crate::engine_core::numbered(evidence.script),
            crate::engine_core::within_limit(evidence.script_bytes, boot.max_hcb_bytes),
        ensures
            final(self).wf(),
            crate::engine_core::boot_told(boot, evidence, r.0),
            final(self)@ == session_booted(old(self)@, boot, evidence, ports).0,
            match session_booted(old(self)@, boot, evidence, ports).1 {
                Some(e) => r.1 is Err && r.1->Err_0 == e,
                None => r.1 is Ok,
            },
    {
        let outcome = self.engine.boot(boot, evidence);
        match outcome.result {
            Err(e) => return (outcome, Err(e)),
            Ok(_) => {},
        }
        let mut tracker = DirectSurfaceTracker::new();
        match crate::engine_core::render_game_frame(&mut tracker, &ports.render) {
            Ok(_) => {},
            Err(_) => {},
        }
        match tracker.finish() {
            Err(e) => return (outcome, Err(e)),
            Ok(_) => {},
        }
        if ports.render.len() != 0 || ports.audio_operations != 0 {
            return (outcome, Err(RfvpError::InvalidData));
        }
        self.renderer.reset();
        (outcome, Ok(()))
    }

    /// The first half of a step: queues the input and begins the tick at the host's
    /// time `now`.
    pub fn begin_step(&mut self, input: HostedStepInput, now: u64) -> (r: Result<StepStart, RfvpError>)
        requires
            old(self).wf(),
        ensures
            final(self).wf(),
            final(self)@ == step_begun(old(self)@, input.events@, now).0,
            match step_begun(old(self)@, input.events@, now).1 {
                Ok(start) => r is Ok && r->Ok_0@ == start,
                Err(e) => r is Err && r->Err_0 == e,
            },
    {
        if input.events.len() > self.limits.max_input_events {
            return Err(RfvpError::CapacityExceeded);
        }
        let mut i: usize = 0;
        while i < input.events.len()
            invariant
                self.wf(),
                i <= input.events@.len() <= old(self)@.limits.max_input_events,
                events_pushed(old(self)@.core, input.events@, 0) == events_pushed(
                    self@.core,
                    input.events@,
                    i as int,
                ),
                self@ == (SessionView { core: self@.core, ..old(self)@ }),
            decreases input.events@.len() - i,
        {
            match self.engine.push_event(input.events[i]) {
                Err(e) => return Err(e),
                Ok(_) => {},
            }
            i = i + 1;
        }
        let tick = self.engine.begin_tick(now);
        Ok(StepStart { tick })
    }

    /// The second half of a step: turns what the engine did into one delta.
    pub fn step(&mut self, start: StepStart, engine: EngineReply) -> (r: Result<
        HostedStepDelta,
        RfvpError,
    >)
        requires
            old(self).wf(),
        ensures
            final(self).wf(),
            final(self)@ == stepped(old(self)@, start.tick, engine).0,
            match stepped(old(self)@, start.tick, engine).1 {
                Ok(delta) => r is Ok && r->Ok_0@ == delta,
                Err(e) => r is Err && r->Err_0 == e,
            },
    {
        let mut audio = RecordingAudio::new();
        let mut logs = RecordingLogs::new(self.limits, self.capture_logs);
        let tick = match self.engine.tick(
            &start.tick,
            engine,
            &mut audio,
            &mut self.renderer,
            &mut logs,
        ) {
            Ok(v) => v,
            Err(e) => return Err(e),
        };
        match self.renderer.finish() {
            Err(e) => return Err(e),
            Ok(_) => {},
        }
        match audio.finish() {
            Err(e) => return Err(e),
            Ok(_) => {},
        }
        let kept = logs.take();
        let visual_changed = self.renderer.take_visual_changed();
        let visual_damage = self.renderer.take_visual_damage();
        let commands = self.engine.take_hosted_video_commands();
        let video = play_operations(&commands);
        let delta = HostedStepDelta {
            tick,
            audio: audio.operations,
            video,
            logs: kept,
            log_dropped_count: logs.dropped_count,
            visual_changed,
            visual_damage,
        };
        assert(delta@ =~= stepped(old(self)@, start.tick, engine).1->Ok_0);
        assert(self@ =~= stepped(old(self)@, start.tick, engine).0);
        Ok(delta)
    }

    /// The texts of the last step, handed out once.
    pub fn take_text_events(&mut self) -> (r: Vec<HostedTextEvent>)
        requires
            old(self).wf(),
        ensures
            final(self).wf(),
            crate::engine_core::text_views(r@) == old(self)@.core.game.text_events,
            final(self)@ == (SessionView {
                core: CoreView {
                    game: crate::engine_core::GameView {
                        text_events: Seq::empty(),
                        ..old(self)@.core.game
                    },
                    ..old(self)@.core
                },
                ..old(self)@
            }),
    {
        self.engine.take_hosted_text_events()
    }

    /// Takes over a lent surface for the engine to draw on. The first surface of a
    /// session also has to be addressable by the renderer.
    pub fn take_surface(&mut self, width: u32, height: u32, format: SurfacePixelFormat, pixels: Vec<u8>) -> (r:
        Result<SoftFramebuffer, RfvpError>)
        requires
            old(self).wf(),
        ensures
            final(self).wf(),
            ({
                let layout = crate::framebuffer::layout_of(width, height);
                if !old(self)@.surface_ready && layout is None {
                    &&& r is Err && r->Err_0 == RfvpError::CapacityExceeded
                    &&& final(self)@ == old(self)@
                } else {
                    &&& final(self)@ == (SessionView { surface_ready: true, ..old(self)@ })
                    &&& if layout is Some && (layout->0).1 == pixels@.len() {
                        &&& r is Ok
                        &&& r->Ok_0.wf()
                        &&& r->Ok_0.width == width && r->Ok_0.height == height
                        &&& r->Ok_0.format == format
                        &&& r->Ok_0.pixels == crate::framebuffer::SoftPixelStorage::Lent(pixels)
                    } else {
                        r is Err && r->Err_0 == RfvpError::InvalidData
                    }
                }
            }),
    {
        if !self.surface_ready {
            match SoftFramebuffer::layout_exists(width, height, format) {
                true => {},
                false => return Err(RfvpError::CapacityExceeded),
            }
            self.surface_ready = true;
        }
        match SoftFramebuffer::from_astra_surface(width, height, format, pixels) {
            Ok(buffer) => Ok(buffer),
            Err(_) => Err(RfvpError::InvalidData),
        }
    }

    /// Gives a lent surface back after the engine drew on it.
    pub fn return_surface(buffer: SoftFramebuffer, drawn: Result<(), RfvpError>) -> (r: Result<
        Vec<u8>,
        RfvpError,
    >)
        requires
            buffer.pixels is Lent,
        ensures
            match drawn {
                Ok(_) => r is Ok && buffer.pixels == crate::framebuffer::SoftPixelStorage::Lent(
                    r->Ok_0,
                ),
                Err(e) => r is Err && r->Err_0 == e,
            },
    {
        match drawn {
            Ok(_) => Ok(buffer.into_astra_surface()),
            Err(e) => Err(e),
        }
    }
}

// ----------------------------------------------------------------------- laws

/// A boot never drops output: one that succeeds has called neither the renderer nor
/// the sound, and left a booted core without an error.
pub proof fn law_boot_drops_no_output(
    session: SessionView,
    boot: RfvpBootConfig<'_>,
    evidence: BootEvidence,
    ports: BootPorts,
)
    ensures
        ({
            let done = session_booted(session, boot, evidence, ports);
            &&& done.1 is None ==> {
                &&& ports.render@.len() == 0
                &&& ports.audio_operations == 0
                &&& done.0.core.run_state == crate::engine_core::RfvpCoreRunState::Booted
                &&& done.0.core.last_error is None
            }
            &&& crate::engine_core::boot_failure(boot, evidence) matches Some(failure) ==> done.1
                == Some(failure.0)
        }),
{
}

/// Recording evidence changes no result of a step: with and without it a step
/// succeeds or fails alike, and it hands out the same tick, sound, movies and
/// damage.
pub proof fn law_evidence_does_not_change_the_step(
    session: SessionView,
    start: TickStart,
    engine: EngineReply,
)
    ensures
        ({
            let quiet = stepped(SessionView { capture_logs: false, ..session }, start, engine);
            let loud = stepped(SessionView { capture_logs: true, ..session }, start, engine);
            &&& quiet.0.core == loud.0.core
            &&& quiet.0.tracker == loud.0.tracker
            &&& match (quiet.1, loud.1) {
                (Ok(a), Ok(b)) => {
                    &&& a.tick == b.tick
                    &&& a.audio == b.audio
                    &&& a.video == b.video
                    &&& a.visual_changed == b.visual_changed
                    &&& a.visual_damage == b.visual_damage
                    &&& a.logs.len() == 0 && a.log_dropped_count == 0
                },
                (Err(a), Err(b)) => a == b,
                _ => false,
            }
        }),
{
}

/// The log limits change no result of a step: overflow of the log is counted and
/// blocks nothing.
pub proof fn law_log_overflow_does_not_block(
    session: SessionView,
    limits: HostedLimits,
    start: TickStart,
    engine: EngineReply,
)
    ensures
        ({
            let a = stepped(session, start, engine);
            let b = stepped(SessionView { limits, ..session }, start, engine);
            &&& a.0.core == b.0.core
            &&& a.0.tracker == b.0.tracker
            &&& match (a.1, b.1) {
                (Ok(x), Ok(y)) => {
                    &&& x.tick == y.tick
                    &&& x.audio == y.audio
                    &&& x.video == y.video
                    &&& x.visual_changed == y.visual_changed
                    &&& x.visual_damage == y.visual_damage
                },
                (Err(x), Err(y)) => x == y,
                _ => false,
            }
        }),
{
}

/// Damage and movie requests are handed out once: right after a step that
/// succeeded nothing is pending.
pub proof fn law_step_drains_what_it_reports(
    session: SessionView,
    start: TickStart,
    engine: EngineReply,
)
    requires
        stepped(session, start, engine).1 is Ok,
    ensures
        ({
            let after = stepped(session, start, engine).0;
            &&& !after.tracker.visual_changed
            &&& after.tracker.visual_damage == HostedVisualDamage::Unchanged
            &&& after.core.game.video.pending.len() == 0
        }),
{
}

/// A movie request becomes the operation that plays it: the same file of the same size,
/// with its sound if and only if it was asked for so, on a stage of the size of the screen.
pub proof fn law_movie_operations_carry_their_requests(
    commands: Seq<HostMovieCommand>,
    operations: Seq<HostedVideoOperation>,
    i: int,
)
    requires
        video_ops(operations) == play_ops(crate::videoplayer::movie_views(commands)),
        0 <= i < commands.len(),
    ensures
        operations.len() == commands.len(),
        ({
            let HostedVideoOperation::Play {
                resource_uri,
                byte_len,
                modal_with_audio,
                stage_width,
                stage_height,
            } = operations[i];
            let command = commands[i];
            &&& resource_uri@ == command.resource_uri@
            &&& byte_len == command.byte_len
            &&& modal_with_audio <==> command.mode is ModalWithAudio
            &&& stage_width == command.screen_w
            &&& stage_height == command.screen_h
        }),
{
    assert(video_ops(operations).len() == operations.len());
    assert(video_ops(operations)[i] == operations[i]@);
    assert(crate::videoplayer::movie_views(commands)[i] == commands[i]@);
}

proof fn lemma_pushed(core: CoreView, events: Seq<RfvpEvent>, i: int)
    requires
        0 <= i <= events.len(),
        core.pending.len() <= core.config.max_pending_events,
    ensures
        core.pending.len() + (events.len() - i) <= core.config.max_pending_events ==> events_pushed(
            core,
            events,
            i,
        ) == (CoreView { pending: core.pending + events.skip(i), ..core }, true),
        core.pending.len() + (events.len() - i) > core.config.max_pending_events ==> !events_pushed(
            core,
            events,
            i,
        ).1,
    decreases events.len() - i,
{
    if i < events.len() {
        if core.pending.len() < core.config.max_pending_events {
            lemma_pushed(
                CoreView { pending: core.pending.push(events[i]), ..core },
                events,
                i + 1,
            );
            assert(core.pending.push(events[i]) + events.skip(i + 1) =~= core.pending
                + events.skip(i));
        }
    } else {
        assert(core.pending + events.skip(i) =~= core.pending);
    }
}

/// A step takes all of its events behind those that wait, in order, if they are no more than
/// a step may have and fit in the queue, and none is left waiting. It is told the time since
/// the last step, in microseconds and in whole milliseconds, and the host's time becomes that
/// of the last step. Otherwise it is refused.
pub proof fn law_step_takes_its_events(session: SessionView, events: Seq<RfvpEvent>, now: u64)
    requires
        session.core.pending.len() <= session.core.config.max_pending_events,
    ensures
        ({
            let (after, begun) = step_begun(session, events, now);
            let all = session.core.pending + events;
            &&& begun is Ok <==> events.len() <= session.limits.max_input_events && all.len()
                <= session.core.config.max_pending_events
            &&& begun matches Err(e) ==> e == RfvpError::CapacityExceeded
            &&& begun matches Ok(start) ==> {
                &&& after.core.pending.len() == 0
                &&& after.core.last_tick_us == Some(now)
                &&& after.core.frame_index == session.core.frame_index
                &&& after.core.game == session.core.game
                &&& after.tracker == session.tracker
                &&& start.consumed_events == all.len()
                &&& start.input == crate::input::actions_of(all)
                &&& start.quit <==> crate::input::asks_to_quit(all)
                &&& after.core.quit_requested <==> session.core.quit_requested || start.quit
                &&& session.core.last_tick_us is None ==> start.elapsed_us == 0
                &&& session.core.last_tick_us matches Some(before) ==> {
                    &&& now >= before ==> before + start.elapsed_us == now
                    &&& now < before ==> start.elapsed_us == 0
                }
                &&& 1000 * start.frame_time_ms <= start.elapsed_us < 1000 * (start.frame_time_ms
                    + 1)
            }
        }),
{
    lemma_pushed(session.core, events, 0);
    assert(events.skip(0) =~= events);
}

/// A shipping session traces nothing; one for evidence traces as many instructions as it is
/// told, of which there must be some.
pub proof fn law_trace_has_the_asked_length(n: usize)
    ensures
        trace_length(HostedTraceProfile::Shipping) == Some(0usize),
        n > 0 ==> trace_length(HostedTraceProfile::Evidence { crash_trace_capacity: n }) == Some(n),
        trace_length(HostedTraceProfile::Evidence { crash_trace_capacity: 0 }) is None,
{
}

/// What is said of the output of a step is said of its own fields.
pub proof fn law_delta_is_seen_as_it_is(delta: HostedStepDelta)
    ensures
        delta@.tick == delta.tick,
        delta@.logs == delta.logs@,
        delta@.log_dropped_count == delta.log_dropped_count,
        delta@.visual_changed == delta.visual_changed,
        delta@.visual_damage == delta.visual_damage,
{
}

/// A step succeeds if and only if its tick did and neither the renderer nor the sound has
/// failed; it fails with the first of these failures. It hands out what the tick made: the
/// tick itself, the sound, the movies, the log, and what changed on the surface.
pub proof fn law_step_hands_out_its_tick(
    session: SessionView,
    start: TickStart,
    engine: EngineReply,
)
    ensures
        ({
            let tick = crate::engine_core::ticked(
                session.core,
                start,
                engine,
                crate::recording::empty_audio(),
                session.tracker,
                crate::recording::empty_logs(session.limits, session.capture_logs),
            );
            let (after, outcome) = stepped(session, start, engine);
            &&& outcome is Ok <==> tick.result is Ok && tick.tracker.failure is None
                && tick.audio.failure is None
            &&& tick.result matches Err(e) ==> outcome == Err::<DeltaView, RfvpError>(e)
            &&& tick.result is Ok ==> (tick.tracker.failure matches Some(e) ==> outcome == Err::<
                DeltaView,
                RfvpError,
            >(e))
            &&& tick.result is Ok && tick.tracker.failure is None ==> (
            tick.audio.failure matches Some(e) ==> outcome == Err::<DeltaView, RfvpError>(e))
            &&& outcome matches Ok(delta) ==> {
                &&& Ok::<crate::engine_core::RfvpTickResult, RfvpError>(delta.tick) == tick.result
                &&& delta.audio == tick.audio.ops
                &&& delta.video.len() == tick.core.game.video.pending.len()
                &&& delta.video == play_ops(tick.core.game.video.pending)
                &&& delta.logs == tick.logs.records
                &&& delta.log_dropped_count == tick.logs.dropped
                &&& delta.visual_changed == tick.tracker.visual_changed
                &&& delta.visual_damage == tick.tracker.visual_damage
            }
            &&& after.core.frame_index == tick.core.frame_index
            &&& after.core.quit_requested == tick.core.quit_requested
            &&& after.core.game.globals == tick.core.game.globals
            &&& after.core.game.video.playing == tick.core.game.video.playing
            &&& after.tracker.frame == tick.tracker.frame
            &&& after.tracker.previous == tick.tracker.previous
            &&& after.tracker.textures == tick.tracker.textures
            &&& after.limits == session.limits
            &&& after.capture_logs == session.capture_logs
            &&& after.surface_ready == session.surface_ready
        }),
{
}

/// A boot fails as its core does, then with what the renderer failed with, and else for
/// anything that was drawn or played; otherwise the first frame is new as a whole.
pub proof fn law_boot_fails_in_order(
    session: SessionView,
    boot: RfvpBootConfig<'_>,
    evidence: BootEvidence,
    ports: BootPorts,
)
    ensures
        ({
            let (after, failure) = session_booted(session, boot, evidence, ports);
            let why = crate::engine_core::boot_failure(boot, evidence);
            let shown = crate::engine_core::rendered(
                crate::surface::fresh_tracker(),
                ports.render@,
                0,
            ).0;
            &&& after.core == crate::engine_core::booted_core(session.core, boot, evidence)
            &&& why matches Some((error, words)) ==> failure == Some(error)
            &&& why is None && shown.failure is Some ==> failure == shown.failure
            &&& why is None && shown.failure is None && (ports.render@.len() > 0
                || ports.audio_operations > 0) ==> failure == Some(RfvpError::InvalidData)
            &&& why is None && ports.render@.len() == 0 && ports.audio_operations == 0
                && shown.failure is None ==> failure is None && after.tracker
                == crate::surface::fresh_tracker()
            &&& failure is Some ==> after.tracker == session.tracker
            &&& after.limits == session.limits
            &&& after.capture_logs == session.capture_logs
        }),
{
}

}
