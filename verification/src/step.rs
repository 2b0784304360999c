//! One step of a family session, cut where the host or the engine has to act.
//!
//! A step runs through these parts in order: the host's session is looked up, the
//! results that the session waited for are taken in, the input becomes engine
//! events, the engine runs, sound is put in order, each text is offered for
//! translation, the surface is drawn where it changed, a movie may start, and the
//! output is closed. A part that fails ends the step; some failures also end the
//! session.

use vstd::prelude::*;

use crate::adapters::{
    AdapterFault, AudioCommand, ConvertedAudio, LegacyAudioCommandV1, LegacyVideoCommandV1,
    LegacyVideoMode, VideoCommand,
};
use crate::engine_core::HostedTextEvent;
use crate::family::{
    DiagnosticView, FamilyDelta, InputKey, InvocationView, LayerOperationView,
    LayerTransactionView, LayerView, LegacyAudioPacketV7, LegacyAwaitResult, LegacyCoverageDelta,
    LegacyDiagnostic, LegacyHookInvocationV1, LegacyHookResultV1, LegacyInputEdge,
    LegacyLayerBlendV9, LegacyLayerFilterV9, LegacyLayerOperationV9, LegacyLayerStateV9,
    LegacyLayerTransactionV9, LegacyLayerTransformV9, LegacyLiveOutput, LegacyPcmBufferV7,
    LegacyReplayMode, LegacyRuntimeStatus, LegacySequenced, LegacyStepInput, LegacyStepOutput,
    LegacySurfaceDamageV9, LegacySurfaceFormatV9, LegacySurfaceLeaseV9, LegacySurfaceRequestV9,
    LegacyWaitRequest, LiveView, OutputView, PacketView, PcmView, ONE_BITS, ZERO_BITS,
};
use crate::fault::{Fault, LegacyProviderError};
use crate::float::Float32;
use crate::host_api::{InputModifiers, KeyCode, PointerButton, RfvpEvent, RfvpLogLevel};
use crate::recording::HostedLogRecord;
use crate::session::{HostedStepInput, HostedVideoOperation, VideoOp};
use crate::text;

verus! {

/// A movie that the host plays.
#[derive(Debug)]
pub struct PendingMovieV1 {
    pub playback_id: String,
    pub token_id: String,
    pub resource_uri: String,
    pub mode: LegacyVideoMode,
    pub stage_width: u32,
    pub stage_height: u32,
}

#[verifier::ext_equal]
pub struct PendingMovie {
    pub playback_id: Seq<char>,
    pub token_id: Seq<char>,
    pub resource_uri: Seq<char>,
    pub mode: LegacyVideoMode,
    pub stage_width: u32,
    pub stage_height: u32,
}

impl PendingMovieV1 {
    pub open spec fn view(&self) -> PendingMovie {
        PendingMovie {
            playback_id: self.playback_id@,
            token_id: self.token_id@,
            resource_uri: self.resource_uri@,
            mode: self.mode,
            stage_width: self.stage_width,
            stage_height: self.stage_height,
        }
    }
}

/// A session of the family boundary. The engine that it drives lives elsewhere.
#[derive(Debug)]
pub struct FvpSession {
    pub last_step: u64,
    pub seed: u64,
    pub fixed_delta_ns: u64,
    pub instruction_count: u64,
    pub syscall_count: u64,
    pub pointer: Pointer,
    pub stage_width: u32,
    pub stage_height: u32,
    pub state_revision: u64,
    pub next_live_sequence: u64,
    /// The session failed and takes no further step.
    pub poisoned: bool,
    pub pending_movie: Option<PendingMovieV1>,
    pub family_game_id: String,
    pub hook_timeout_ms: u32,
    pub surface_generation: u64,
    pub layer_created: bool,
}

#[verifier::ext_equal]
pub struct StepSession {
    pub last_step: u64,
    pub seed: u64,
    pub fixed_delta_ns: u64,
    pub instruction_count: u64,
    pub syscall_count: u64,
    pub pointer: Pointer,
    pub stage_width: u32,
    pub stage_height: u32,
    pub state_revision: u64,
    pub next_live_sequence: u64,
    pub poisoned: bool,
    pub pending_movie: Option<PendingMovie>,
    pub family_game_id: Seq<char>,
    pub hook_timeout_ms: u32,
    pub surface_generation: u64,
    pub layer_created: bool,
}

impl StepSession {
    pub open spec fn poison(self) -> StepSession {
        StepSession { poisoned: true, ..self }
    }
}

impl FvpSession {
    pub open spec fn view(&self) -> StepSession {
        StepSession {
            last_step: self.last_step,
            seed: self.seed,
            fixed_delta_ns: self.fixed_delta_ns,
            instruction_count: self.instruction_count,
            syscall_count: self.syscall_count,
            pointer: self.pointer,
            stage_width: self.stage_width,
            stage_height: self.stage_height,
            state_revision: self.state_revision,
            next_live_sequence: self.next_live_sequence,
            poisoned: self.poisoned,
            pending_movie: match self.pending_movie {
                Some(movie) => Some(movie@),
                None => None,
            },
            family_game_id: self.family_game_id@,
            hook_timeout_ms: self.hook_timeout_ms,
            surface_generation: self.surface_generation,
            layer_created: self.layer_created,
        }
    }
}

// ------------------------------------------------------------------------ input

/// Where the pointer is.
#[derive(Debug, Clone, Copy, PartialEq, Eq, Structural)]
pub struct Pointer {
    pub x: i32,
    pub y: i32,
    pub in_screen: bool,
}

impl Pointer {
    pub open spec fn moved(self) -> RfvpEvent {
        RfvpEvent::PointerMove { x: self.x, y: self.y, in_screen: self.in_screen }
    }

    fn move_event(self) -> (r: RfvpEvent)
        ensures
            r == self.moved(),
    {
        RfvpEvent::PointerMove { x: self.x, y: self.y, in_screen: self.in_screen }
    }
}

/// The number that an input value stands for.
pub open spec fn input_number(value: Float32, subject: Seq<char>) -> Result<i32, Fault> {
    match value.whole() {
        Some(v) if i32::MIN <= v <= i32::MAX => Ok(v as i32),
        _ => Err(
            Fault {
                code: "ASTRA_FVP_INPUT_VALUE"@,
                message: subject + " must be a finite integer inside i32 bounds"@,
            },
        ),
    }
}

pub fn input_i32(value: Float32, subject: &str) -> (r: Result<i32, LegacyProviderError>)
    ensures
        match input_number(value, subject@) {
            Ok(v) => r is Ok && r->Ok_0 == v,
            Err(f) => r is Err && r->Err_0@ == f,
        },
{
    match value.to_i32() {
        Some(v) => Ok(v),
        None => Err(
            LegacyProviderError::invalid(
                "ASTRA_FVP_INPUT_VALUE",
                text::join2(subject, " must be a finite integer inside i32 bounds").as_str(),
            ),
        ),
    }
}

/// The engine's key for a canonical key, if the engine has one.
pub open spec fn key_code_of(key: InputKey) -> Option<KeyCode> {
    match key {
        InputKey::Enter => Some(KeyCode::Return),
        InputKey::Escape => Some(KeyCode::Escape),
        InputKey::Space => Some(KeyCode::Space),
        InputKey::Shift => Some(KeyCode::Shift),
        InputKey::Control => Some(KeyCode::Control),
        InputKey::ArrowUp => Some(KeyCode::Up),
        InputKey::ArrowDown => Some(KeyCode::Down),
        InputKey::ArrowLeft => Some(KeyCode::Left),
        InputKey::ArrowRight => Some(KeyCode::Right),
        InputKey::Other(_) => None,
    }
}

/// The event for a key edge.
pub open spec fn key_event(edge: LegacyInputEdge) -> Result<RfvpEvent, Fault> {
    match edge.key {
        None => Err(
            Fault {
                code: "ASTRA_FVP_INPUT_KEY"@,
                message: "unsupported canonical input key "@ + edge.control@,
            },
        ),
        Some(InputKey::Other(name)) => Err(
            Fault {
                code: "ASTRA_FVP_INPUT_KEY"@,
                message: "canonical input key is not supported by RFVP: "@ + name@,
            },
        ),
        Some(key) => Ok(
            if edge.pressed {
                RfvpEvent::KeyDown {
                    key: key_code_of(key)->0,
                    repeat: false,
                    modifiers: InputModifiers { bits: 0 },
                }
            } else {
                RfvpEvent::KeyUp {
                    key: key_code_of(key)->0,
                    modifiers: InputModifiers { bits: 0 },
                }
            },
        ),
    }
}

/// The event for one edge, with the pointer afterwards.
pub open spec fn edge_event(pointer: Pointer, edge: LegacyInputEdge) -> (
    Pointer,
    Result<RfvpEvent, Fault>,
) {
    let control = edge.control@;
    if control == "pointer.x"@ {
        match input_number(edge.value, "pointer x"@) {
            Ok(x) => {
                let next = Pointer { x, in_screen: edge.pressed, ..pointer };
                (next, Ok(next.moved()))
            },
            Err(f) => (pointer, Err(f)),
        }
    } else if control == "pointer.y"@ {
        match input_number(edge.value, "pointer y"@) {
            Ok(y) => {
                let next = Pointer { y, in_screen: edge.pressed, ..pointer };
                (next, Ok(next.moved()))
            },
            Err(f) => (pointer, Err(f)),
        }
    } else if control == "wheel"@ {
        match input_number(edge.value, "wheel"@) {
            Ok(delta_y) => (pointer, Ok(RfvpEvent::Wheel { delta_x: 0, delta_y })),
            Err(f) => (pointer, Err(f)),
        }
    } else if control == "pointer.primary"@ || control == "pointer.secondary"@ {
        let button = if control == "pointer.primary"@ {
            PointerButton::Left
        } else {
            PointerButton::Right
        };
        (
            pointer,
            Ok(
                if edge.pressed {
                    RfvpEvent::PointerDown { button, x: pointer.x, y: pointer.y }
                } else {
                    RfvpEvent::PointerUp { button, x: pointer.x, y: pointer.y }
                },
            ),
        )
    } else {
        (pointer, key_event(edge))
    }
}

/// The events for the edges from `i` on, behind those in `events`. Edges come in
/// strictly increasing order; the pointer keeps what was taken in before a failure.
pub open spec fn input_events(
    pointer: Pointer,
    edges: Seq<LegacyInputEdge>,
    i: int,
    events: Seq<RfvpEvent>,
) -> (Pointer, Result<Seq<RfvpEvent>, Fault>)
    decreases edges.len() - i,
{
    if i >= edges.len() {
        (pointer, Ok(events))
    } else if i > 0 && edges[i].sequence <= edges[i - 1].sequence {
        (
            pointer,
            Err(
                crate::fault::fault(
                    "ASTRA_FVP_INPUT_ORDER",
                    "input edge sequence must be strictly increasing",
                ),
            ),
        )
    } else {
        let taken = edge_event(pointer, edges[i]);
        match taken.1 {
            Err(f) => (taken.0, Err(f)),
            Ok(event) => input_events(taken.0, edges, i + 1, events.push(event)),
        }
    }
}

fn take_key(edge: &LegacyInputEdge) -> (r: Result<RfvpEvent, LegacyProviderError>)
    ensures
        match key_event(*edge) {
            Ok(event) => r is Ok && r->Ok_0 == event,
            Err(f) => r is Err && r->Err_0@ == f,
        },
{
    let key = match &edge.key {
        Some(InputKey::Enter) => KeyCode::Return,
        Some(InputKey::Escape) => KeyCode::Escape,
        Some(InputKey::Space) => KeyCode::Space,
        Some(InputKey::Shift) => KeyCode::Shift,
        Some(InputKey::Control) => KeyCode::Control,
        Some(InputKey::ArrowUp) => KeyCode::Up,
        Some(InputKey::ArrowDown) => KeyCode::Down,
        Some(InputKey::ArrowLeft) => KeyCode::Left,
        Some(InputKey::ArrowRight) => KeyCode::Right,
        Some(InputKey::Other(name)) => {
            return Err(
                LegacyProviderError::invalid(
                    "ASTRA_FVP_INPUT_KEY",
                    text::join2(
                        "canonical input key is not supported by RFVP: ",
                        name.as_str(),
                    ).as_str(),
                ),
            );
        },
        None => {
            return Err(
                LegacyProviderError::invalid(
                    "ASTRA_FVP_INPUT_KEY",
                    text::join2("unsupported canonical input key ", edge.control.as_str()).as_str(),
                ),
            );
        },
    };
    Ok(
        if edge.pressed {
            RfvpEvent::KeyDown { key, repeat: false, modifiers: InputModifiers::empty() }
        } else {
            RfvpEvent::KeyUp { key, modifiers: InputModifiers::empty() }
        },
    )
}

fn take_edge(pointer: &mut Pointer, edge: &LegacyInputEdge) -> (r: Result<
    RfvpEvent,
    LegacyProviderError,
>)
    ensures
        *final(pointer) == edge_event(*old(pointer), *edge).0,
        match edge_event(*old(pointer), *edge).1 {
            Ok(event) => r is Ok && r->Ok_0 == event,
            Err(f) => r is Err && r->Err_0@ == f,
        },
{
    let control = edge.control.as_str();
    if text::same_text(control, "pointer.x") {
        match input_i32(edge.value, "pointer x") {
            Ok(x) => {
                pointer.x = x;
                pointer.in_screen = edge.pressed;
                Ok(pointer.move_event())
            },
            Err(e) => Err(e),
        }
    } else if text::same_text(control, "pointer.y") {
        match input_i32(edge.value, "pointer y") {
            Ok(y) => {
                pointer.y = y;
                pointer.in_screen = edge.pressed;
                Ok(pointer.move_event())
            },
            Err(e) => Err(e),
        }
    } else if text::same_text(control, "wheel") {
        match input_i32(edge.value, "wheel") {
            Ok(delta_y) => Ok(RfvpEvent::Wheel { delta_x: 0, delta_y }),
            Err(e) => Err(e),
        }
    } else {
        let primary = text::same_text(control, "pointer.primary");
        if primary || text::same_text(control, "pointer.secondary") {
            let button = if primary {
                PointerButton::Left
            } else {
                PointerButton::Right
            };
            Ok(
                if edge.pressed {
                    RfvpEvent::PointerDown { button, x: pointer.x, y: pointer.y }
                } else {
                    RfvpEvent::PointerUp { button, x: pointer.x, y: pointer.y }
                },
            )
        } else {
            take_key(edge)
        }
    }
}

/// The engine events for the input edges of a step.
pub fn hosted_inputs(pointer: &mut Pointer, edges: &Vec<LegacyInputEdge>) -> (r: Result<
    Vec<RfvpEvent>,
    LegacyProviderError,
>)
    ensures
        *final(pointer) == input_events(*old(pointer), edges@, 0, Seq::empty()).0,
        match input_events(*old(pointer), edges@, 0, Seq::empty()).1 {
            Ok(events) => r is Ok && r->Ok_0@ == events,
            Err(f) => r is Err && r->Err_0@ == f,
        },
{
    let mut events: Vec<RfvpEvent> = Vec::new();
    let mut i: usize = 0;
    while i < edges.len()
        invariant
            i <= edges@.len(),
            input_events(*old(pointer), edges@, 0, Seq::empty()) == input_events(
                *pointer,
                edges@,
                i as int,
                events@,
            ),
        decreases edges@.len() - i,
    {
        if i > 0 && edges[i].sequence <= edges[i - 1].sequence {
            return Err(
                LegacyProviderError::invalid(
                    "ASTRA_FVP_INPUT_ORDER",
                    "input edge sequence must be strictly increasing",
                ),
            );
        }
        match take_edge(pointer, &edges[i]) {
            Ok(event) => events.push(event),
            Err(e) => return Err(e),
        }
        i = i + 1;
    }
    Ok(events)
}

// ------------------------------------------------------------------- completions

/// What the results from `i` on ask for.
pub enum Completion {
    /// The movie that plays has come to its end, by the result at this place.
    Movie(int),
    /// Nothing further.
    Done,
    /// A failure; whether it ends the session.
    Refused(Fault, bool),
}

pub open spec fn next_completion(
    pending: Option<PendingMovie>,
    results: Seq<LegacyAwaitResult>,
    i: int,
) -> Completion
    decreases results.len() - i,
{
    if i >= results.len() {
        Completion::Done
    } else if !text::has_prefix(results[i].token_id@, "fvp.movie."@) {
        next_completion(pending, results, i + 1)
    } else {
        match pending {
            None => Completion::Refused(
                crate::fault::fault(
                    "ASTRA_FVP_MOVIE_COMPLETION_UNSOLICITED",
                    "movie completion has no matching pending playback",
                ),
                false,
            ),
            Some(movie) => if results[i].token_id@ != movie.token_id {
                Completion::Refused(
                    crate::fault::fault(
                        "ASTRA_FVP_MOVIE_COMPLETION_IDENTITY",
                        "movie completion token does not match pending playback",
                    ),
                    true,
                )
            } else if results[i].status@ != "completed"@ {
                Completion::Refused(
                    crate::fault::fault(
                        "ASTRA_FVP_MOVIE_COMPLETION_STATUS",
                        "movie completion returned a non-completed status",
                    ),
                    true,
                )
            } else {
                Completion::Movie(i)
            },
        }
    }
}

// ------------------------------------------------------------------------- order

/// What is wrong with the identity of a step, if anything is.
pub open spec fn step_fault(session: StepSession, input: LegacyStepInput) -> Option<Fault> {
    if input.tick_index != session.last_step + 1 {
        Some(
            crate::fault::fault("ASTRA_FVP_STEP_SEQUENCE", "step must be strictly consecutive"),
        )
    } else if input.session_seed != session.seed || input.delta_ns != session.fixed_delta_ns {
        Some(crate::fault::fault("ASTRA_FVP_STEP_IDENTITY", "step seed or delta drifted"))
    } else if input.mode != LegacyReplayMode::Live && input.mode
        != LegacyReplayMode::RestoreContinuation {
        Some(crate::fault::fault("ASTRA_FVP_STEP_MODE", "unsupported step mode"))
    } else {
        None
    }
}

impl FvpSession {
    /// Takes in the results from `from` on, up to the one that ends the movie. The
    /// engine then ends its movie and `movie_completed` is told.
    pub fn take_results(&mut self, results: &Vec<LegacyAwaitResult>, from: usize) -> (r: Result<
        Option<usize>,
        LegacyProviderError,
    >)
        ensures
            match next_completion(old(self)@.pending_movie, results@, from as int) {
                Completion::Movie(i) => {
                    &&& r is Ok && r->Ok_0 == Some(i as usize)
                    &&& from <= i < results@.len()
                    &&& final(self)@ == old(self)@
                },
                Completion::Done => r is Ok && r->Ok_0 is None && final(self)@ == old(self)@,
                Completion::Refused(f, ends) => {
                    &&& r is Err && r->Err_0@ == f
                    &&& final(self)@ == if ends {
                        old(self)@.poison()
                    } else {
                        old(self)@
                    }
                },
            },
    {
        let mut i: usize = from;
        while i < results.len()
            invariant
                *self == *old(self),
                from <= i,
                next_completion(self@.pending_movie, results@, from as int) == next_completion(
                    self@.pending_movie,
                    results@,
                    i as int,
                ),
            decreases results@.len() - i,
        {
            let token = text::chars_of(results[i].token_id.as_str());
            if text::starts_with(&token, "fvp.movie.") {
                match &self.pending_movie {
                    None => return Err(
                        LegacyProviderError::invalid(
                            "ASTRA_FVP_MOVIE_COMPLETION_UNSOLICITED",
                            "movie completion has no matching pending playback",
                        ),
                    ),
                    Some(movie) => {
                        if !text::same_text(results[i].token_id.as_str(), movie.token_id.as_str()) {
                            self.poisoned = true;
                            return Err(
                                LegacyProviderError::invalid(
                                    "ASTRA_FVP_MOVIE_COMPLETION_IDENTITY",
                                    "movie completion token does not match pending playback",
                                ),
                            );
                        }
                        if !text::same_text(results[i].status.as_str(), "completed") {
                            self.poisoned = true;
                            return Err(
                                LegacyProviderError::invalid(
                                    "ASTRA_FVP_MOVIE_COMPLETION_STATUS",
                                    "movie completion returned a non-completed status",
                                ),
                            );
                        }
                        return Ok(Some(i));
                    },
                }
            }
            i = i + 1;
        }
        Ok(None)
    }

    /// The engine ended its movie, or failed to with the given text.
    pub fn movie_completed(&mut self, outcome: Result<(), String>) -> (r: Result<
        (),
        LegacyProviderError,
    >)
        ensures
            match outcome {
                Ok(_) => {
                    &&& r is Ok
                    &&& final(self)@ == (StepSession { pending_movie: None, ..old(self)@ })
                },
                Err(text) => {
                    &&& r is Err
                    &&& r->Err_0@ == (Fault {
                        code: "ASTRA_FVP_MOVIE_COMPLETION"@,
                        message: text@,
                    })
                    &&& final(self)@ == old(self)@.poison()
                },
            },
    {
        match outcome {
            Ok(_) => {
                self.pending_movie = None;
                Ok(())
            },
            Err(text) => {
                self.poisoned = true;
                Err(LegacyProviderError::invalid("ASTRA_FVP_MOVIE_COMPLETION", text.as_str()))
            },
        }
    }

    /// Takes the input of a step: the engine events for it.
    pub fn begin_step(&mut self, input: &LegacyStepInput) -> (r: Result<
        HostedStepInput,
        LegacyProviderError,
    >)
        ensures
            match step_fault(old(self)@, *input) {
                Some(f) => r is Err && r->Err_0@ == f && final(self)@ == old(self)@,
                None => {
                    let taken = input_events(
                        old(self)@.pointer,
                        input.input_edges@,
                        0,
                        Seq::empty(),
                    );
                    &&& final(self)@ == (StepSession { pointer: taken.0, ..old(self)@ })
                    &&& match taken.1 {
                        Ok(events) => r is Ok && r->Ok_0.events@ == events,
                        Err(f) => r is Err && r->Err_0@ == f,
                    }
                },
            },
    {
        if self.last_step == u64::MAX || input.tick_index != self.last_step + 1 {
            return Err(
                LegacyProviderError::invalid(
                    "ASTRA_FVP_STEP_SEQUENCE",
                    "step must be strictly consecutive",
                ),
            );
        }
        if input.session_seed != self.seed || input.delta_ns != self.fixed_delta_ns {
            return Err(
                LegacyProviderError::invalid(
                    "ASTRA_FVP_STEP_IDENTITY",
                    "step seed or delta drifted",
                ),
            );
        }
        match input.mode {
            LegacyReplayMode::Live => {},
            LegacyReplayMode::RestoreContinuation => {},
            LegacyReplayMode::Unsupported => {
                return Err(
                    LegacyProviderError::invalid("ASTRA_FVP_STEP_MODE", "unsupported step mode"),
                );
            },
        }
        match hosted_inputs(&mut self.pointer, &input.input_edges) {
            Ok(events) => Ok(HostedStepInput { events }),
            Err(e) => Err(e),
        }
    }
}

// ------------------------------------------------------------------ engine output

/// What the engine did with a step.
#[derive(Debug)]
pub enum EngineStep {
    Done(FamilyDelta),
    Failed(String),
    Panicked,
}

/// The severity word of a log level.
pub open spec fn severity_of(level: RfvpLogLevel) -> Seq<char> {
    match level {
        RfvpLogLevel::Error => "error"@,
        RfvpLogLevel::Warn => "warn"@,
        RfvpLogLevel::Info => "info"@,
        RfvpLogLevel::Debug => "debug"@,
        RfvpLogLevel::Trace => "trace"@,
    }
}

/// The diagnostic for a kept log record. It carries no text of the engine.
pub open spec fn log_diagnostic(record: HostedLogRecord) -> DiagnosticView {
    DiagnosticView {
        code: record.event.name(),
        severity: severity_of(record.level),
        subject: "rfvp.hosted"@,
        message: "hosted RFVP diagnostic"@,
    }
}

/// The warning that log records were dropped.
pub open spec fn overflow_diagnostic() -> DiagnosticView {
    DiagnosticView {
        code: "rfvp.host.log_overflow"@,
        severity: "warn"@,
        subject: "rfvp.hosted"@,
        message: "hosted RFVP diagnostic"@,
    }
}

/// The diagnostics of a step: one per kept record, and a warning if any record was
/// dropped.
pub open spec fn log_diagnostics(records: Seq<HostedLogRecord>, dropped: u32) -> Seq<DiagnosticView> {
    let kept = Seq::new(records.len(), |i: int| log_diagnostic(records[i]));
    if dropped > 0 {
        kept.push(overflow_diagnostic())
    } else {
        kept
    }
}

fn severity(level: RfvpLogLevel) -> (r: &'static str)
    ensures
        r@ == severity_of(level),
{
    match level {
        RfvpLogLevel::Error => "error",
        RfvpLogLevel::Warn => "warn",
        RfvpLogLevel::Info => "info",
        RfvpLogLevel::Debug => "debug",
        RfvpLogLevel::Trace => "trace",
    }
}

fn diagnostic(code: &str, severity: &str, subject: &str, message: &str) -> (r: LegacyDiagnostic)
    ensures
        r@ == (DiagnosticView {
            code: code@,
            severity: severity@,
            subject: subject@,
            message: message@,
        }),
{
    LegacyDiagnostic {
        code: text::owned(code),
        severity: text::owned(severity),
        subject: text::owned(subject),
        message: text::owned(message),
    }
}

/// The diagnostics of a step.
pub fn hosted_diagnostics(records: &Vec<HostedLogRecord>, dropped: u32) -> (r: Vec<LegacyDiagnostic>)
    ensures
        crate::family::diagnostic_views(r@) == log_diagnostics(records@, dropped),
{
    let ghost kept = Seq::new(records@.len(), |i: int| log_diagnostic(records@[i]));
    let mut r: Vec<LegacyDiagnostic> = Vec::new();
    let mut i: usize = 0;
    while i < records.len()
        invariant
            i <= records@.len(),
            kept == Seq::new(records@.len(), |i: int| log_diagnostic(records@[i])),
            crate::family::diagnostic_views(r@) =~= kept.subrange(0, i as int),
        decreases records@.len() - i,
    {
        let record = records[i];
        let d = diagnostic(
            record.event.code(),
            severity(record.level),
            "rfvp.hosted",
            "hosted RFVP diagnostic",
        );
        let ghost before = crate::family::diagnostic_views(r@);
        r.push(d);
        assert(crate::family::diagnostic_views(r@) =~= before.push(d@));
        i = i + 1;
    }
    assert(crate::family::diagnostic_views(r@) =~= kept);
    if dropped > 0 {
        let d = diagnostic(
            "rfvp.host.log_overflow",
            "warn",
            "rfvp.hosted",
            "hosted RFVP diagnostic",
        );
        r.push(d);
        assert(crate::family::diagnostic_views(r@) =~= kept.push(d@));
    }
    r
}

/// A step on its way from the engine's output to the answer.
#[derive(Debug)]
pub struct StepDraft {
    pub frame_index: u64,
    pub visual_changed: bool,
    pub video: Vec<HostedVideoOperation>,
    pub text: Vec<HostedTextEvent>,
    pub diagnostics: Vec<LegacyDiagnostic>,
    pub coverage: LegacyCoverageDelta,
    /// The place of the next piece of live output.
    pub sequence: u64,
    pub live: LegacyLiveOutput,
    pub waits: Vec<LegacyWaitRequest>,
}

#[verifier::ext_equal]
pub struct DraftView {
    pub frame_index: u64,
    pub visual_changed: bool,
    pub video: Seq<VideoOp>,
    pub text: Seq<(u8, Seq<char>)>,
    pub diagnostics: Seq<DiagnosticView>,
    pub coverage: LegacyCoverageDelta,
    pub sequence: u64,
    pub live: LiveView,
    pub waits: Seq<(Seq<char>, Seq<char>)>,
}

impl StepDraft {
    pub open spec fn view(&self) -> DraftView {
        DraftView {
            frame_index: self.frame_index,
            visual_changed: self.visual_changed,
            video: crate::session::video_ops(self.video@),
            text: crate::engine_core::text_views(self.text@),
            diagnostics: crate::family::diagnostic_views(self.diagnostics@),
            coverage: self.coverage,
            sequence: self.sequence,
            live: self.live@,
            waits: crate::family::wait_views(self.waits@),
        }
    }
}

/// The draft for what the engine did.
pub open spec fn drafted(session: StepSession, delta: FamilyDelta) -> DraftView {
    DraftView {
        frame_index: delta.frame_index,
        visual_changed: delta.visual_changed,
        video: crate::session::video_ops(delta.video@),
        text: crate::engine_core::text_views(delta.text@),
        diagnostics: log_diagnostics(delta.logs@, delta.log_dropped_count),
        coverage: LegacyCoverageDelta {
            audio_commands: 0,
            text_events: 0,
            presentation_commands: 0,
            pcm_moved_bytes: delta.pcm_moved_bytes,
            pcm_copied_bytes: delta.pcm_copied_bytes,
        },
        sequence: session.next_live_sequence,
        live: crate::family::empty_live(),
        waits: Seq::empty(),
    }
}

impl FvpSession {
    /// The engine took the step. A failure or a panic of the engine ends the
    /// session. The sound of the step comes back for the boundary to judge.
    pub fn ticked(&mut self, tick_index: u64, outcome: EngineStep) -> (r: Result<
        (StepDraft, ConvertedAudio),
        LegacyProviderError,
    >)
        ensures
            match outcome {
                EngineStep::Done(delta) => {
                    &&& final(self)@ == (StepSession { last_step: tick_index, ..old(self)@ })
                    &&& r is Ok
                    &&& r->Ok_0.0@ == drafted(old(self)@, delta)
                    &&& r->Ok_0.1@ == crate::adapters::converted(
                        crate::recording::audio_ops(delta.audio@),
                    )
                },
                EngineStep::Failed(text) => {
                    &&& final(self)@ == old(self)@.poison()
                    &&& r is Err
                    &&& r->Err_0@ == (Fault {
                        code: "ASTRA_FVP_STEP_FAILED"@,
                        message: text@,
                    })
                },
                EngineStep::Panicked => {
                    &&& final(self)@ == old(self)@.poison()
                    &&& r is Err
                    &&& r->Err_0@ == crate::fault::fault(
                        "ASTRA_FVP_STEP_PANIC",
                        "rfvp runtime panicked; session is poisoned",
                    )
                },
            },
    {
        let delta = match outcome {
            EngineStep::Done(delta) => delta,
            EngineStep::Failed(text) => {
                self.poisoned = true;
                return Err(LegacyProviderError::invalid("ASTRA_FVP_STEP_FAILED", text.as_str()));
            },
            EngineStep::Panicked => {
                self.poisoned = true;
                return Err(
                    LegacyProviderError::invalid(
                        "ASTRA_FVP_STEP_PANIC",
                        "rfvp runtime panicked; session is poisoned",
                    ),
                );
            },
        };
        self.last_step = tick_index;
        let diagnostics = hosted_diagnostics(&delta.logs, delta.log_dropped_count);
        let draft = StepDraft {
            frame_index: delta.frame_index,
            visual_changed: delta.visual_changed,
            video: delta.video,
            text: delta.text,
            diagnostics,
            coverage: LegacyCoverageDelta {
                audio_commands: 0,
                text_events: 0,
                presentation_commands: 0,
                pcm_moved_bytes: delta.pcm_moved_bytes,
                pcm_copied_bytes: delta.pcm_copied_bytes,
            },
            sequence: self.next_live_sequence,
            live: LegacyLiveOutput::new(),
            waits: Vec::new(),
        };
        let audio = crate::adapters::convert_audio(delta.audio);
        assert(draft@ =~= drafted(old(self)@, delta));
        Ok((draft, audio))
    }
}

// ------------------------------------------------------------------------- sound

/// The number behind `n`, as far as there is one.
pub open spec fn bumped(n: u64) -> u64 {
    if n < u64::MAX {
        (n + 1) as u64
    } else {
        n
    }
}

/// The samples of a command, if it hands over any.
pub open spec fn pcm_of(command: AudioCommand) -> Option<(u32, PcmView)> {
    match command {
        AudioCommand::SubmitI16 { stream_id, samples } => if samples.len() > 0 {
            Some((stream_id, PcmView::I16(samples)))
        } else {
            None
        },
        AudioCommand::SubmitF32 { stream_id, samples } => if samples.len() > 0 {
            Some((stream_id, PcmView::F32(samples)))
        } else {
            None
        },
        _ => None,
    }
}

impl DraftView {
    /// The draft with one more sound command: samples travel as a packet, anything
    /// else as a command.
    pub open spec fn with_audio(self, command: AudioCommand) -> DraftView {
        let live = match pcm_of(command) {
            Some(packet) => LiveView {
                audio: self.live.audio.push(
                    PacketView {
                        sequence: self.sequence,
                        stream_id: packet.0,
                        sample_rate: 0,
                        channels: 0,
                        pcm: packet.1,
                    },
                ),
                ..self.live
            },
            None => LiveView {
                audio_commands: self.live.audio_commands.push((self.sequence, command)),
                ..self.live
            },
        };
        DraftView {
            live,
            sequence: bumped(self.sequence),
            coverage: LegacyCoverageDelta {
                audio_commands: bumped(self.coverage.audio_commands),
                ..self.coverage
            },
            ..self
        }
    }

    /// The draft with the commands from `i` on.
    pub open spec fn with_sound(self, commands: Seq<AudioCommand>, i: int) -> DraftView
        decreases commands.len() - i,
    {
        if i >= commands.len() {
            self
        } else {
            self.with_audio(commands[i]).with_sound(commands, i + 1)
        }
    }
}

impl StepDraft {
    fn push_packet(&mut self, stream_id: u32, pcm: LegacyPcmBufferV7)
        ensures
            final(self)@ == (DraftView {
                live: LiveView {
                    audio: old(self)@.live.audio.push(
                        PacketView {
                            sequence: old(self)@.sequence,
                            stream_id,
                            sample_rate: 0,
                            channels: 0,
                            pcm: match pcm {
                                LegacyPcmBufferV7::I16(samples) => PcmView::I16(samples@),
                                LegacyPcmBufferV7::F32(samples) => PcmView::F32(samples@),
                            },
                        },
                    ),
                    ..old(self)@.live
                },
                ..old(self)@
            }),
    {
        let packet = LegacyAudioPacketV7 {
            sequence: self.sequence,
            stream_id,
            sample_rate: 0,
            channels: 0,
            pcm,
        };
        let ghost before = self@;
        self.live.audio.push(packet);
        assert(self@.live.audio =~= before.live.audio.push(packet@));
    }

    fn push_command(&mut self, command: LegacyAudioCommandV1)
        ensures
            final(self)@ == (DraftView {
                live: LiveView {
                    audio_commands: old(self)@.live.audio_commands.push(
                        (old(self)@.sequence, command@),
                    ),
                    ..old(self)@.live
                },
                ..old(self)@
            }),
    {
        let ghost before = self@;
        let sequence: u64 = self.sequence;
        self.live.audio_commands.push(LegacySequenced { sequence, value: command });
        assert(self@.live.audio_commands =~= before.live.audio_commands.push((sequence, command@)));
    }

    fn add_audio(&mut self, command: LegacyAudioCommandV1)
        ensures
            final(self)@ == old(self)@.with_audio(command@),
    {
        match command {
            LegacyAudioCommandV1::SubmitI16 { stream_id, samples } => if samples.len() == 0 {
                self.push_command(LegacyAudioCommandV1::SubmitI16 { stream_id, samples });
            } else {
                self.push_packet(stream_id, LegacyPcmBufferV7::I16(samples));
            },
            LegacyAudioCommandV1::SubmitF32 { stream_id, samples } => if samples.len() == 0 {
                self.push_command(LegacyAudioCommandV1::SubmitF32 { stream_id, samples });
            } else {
                self.push_packet(stream_id, LegacyPcmBufferV7::F32(samples));
            },
            other => self.push_command(other),
        }
        self.sequence = self.sequence.saturating_add(1);
        self.coverage.audio_commands = self.coverage.audio_commands.saturating_add(1);
        assert(self@ =~= old(self)@.with_audio(command@));
    }

    /// Takes the sound of the step, with the boundary's verdict on each command.
    pub fn accept_audio(&mut self, audio: ConvertedAudio, verdicts: &Vec<Option<String>>) -> (r: Result<
        (),
        LegacyProviderError,
    >)
        requires
            verdicts@.len() == audio@.0.len(),
        ensures
            match crate::adapters::audio_verdict(audio@, verdicts@, 0) {
                Ok(commands) => r is Ok && final(self)@ == old(self)@.with_sound(commands, 0),
                Err(f) => {
                    &&& r is Err
                    &&& r->Err_0@ == (Fault { code: "ASTRA_FVP_AUDIO_DELTA"@, message: f.line() })
                    &&& final(self)@ == old(self)@
                },
            },
    {
        let commands = match audio.judged(verdicts) {
            Ok(v) => v,
            Err(e) => return Err(
                LegacyProviderError::invalid("ASTRA_FVP_AUDIO_DELTA", e.to_text().as_str()),
            ),
        };
        let ghost all = crate::adapters::audio_commands(commands@);
        for command in it: commands
            invariant
                all == crate::adapters::audio_commands(commands@),
                it.seq() == commands@,
                old(self)@.with_sound(all, 0) == self@.with_sound(all, it.index() as int),
        {
            assert(all[it.index() as int] == command@);
            self.add_audio(command);
        }
        Ok(())
    }
}

// ------------------------------------------------------------------ translations

/// A number in groups of seven bits, the lowest group first, with the high bit of
/// a byte telling that another one follows.
pub open spec fn varint(n: nat) -> Seq<u8>
    decreases n,
{
    if n < 128 {
        seq![n as u8]
    } else {
        seq![(n % 128 + 128) as u8] + varint(n / 128)
    }
}

/// The wire form of a message that holds one byte string.
pub open spec fn message_bytes(content: Seq<u8>) -> Seq<u8> {
    varint(content.len()) + content
}

/// Whether `bytes` begin with `head`.
pub open spec fn begins(bytes: Seq<u8>, head: Seq<u8>) -> bool {
    head.len() <= bytes.len() && bytes.subrange(0, head.len() as int) == head
}

/// The groups of the number that `payload` has at `i`: up to the first byte whose high
/// bit is clear; `None` if there is no such byte.
pub open spec fn groups_end(payload: Seq<u8>, i: int) -> Option<int>
    decreases payload.len() - i,
{
    if i < 0 || i >= payload.len() {
        None
    } else if payload[i] < 128 {
        Some(i + 1)
    } else {
        groups_end(payload, i + 1)
    }
}

/// The number in groups of seven bits, the lowest group first.
pub open spec fn groups_value(groups: Seq<u8>) -> nat
    decreases groups.len(),
{
    if groups.len() == 0 {
        0
    } else {
        groups[0] as nat % 128 + 128 * groups_value(groups.skip(1))
    }
}

/// Whether groups are as many as a length of this machine may take, the last of them
/// not beyond its width.
pub open spec fn groups_fit(groups: Seq<u8>) -> bool {
    let most: nat = if usize::MAX == u64::MAX {
        10
    } else {
        5
    };
    let last: u8 = if usize::MAX == u64::MAX {
        1
    } else {
        15
    };
    &&& groups.len() <= most
    &&& groups.len() == most ==> groups.last() <= last
}

/// The content of the message that `payload` begins with: a length, then as many
/// bytes. What lies behind them is ignored. `None` where there is no such message.
pub open spec fn message_content(payload: Seq<u8>) -> Option<Seq<u8>> {
    match groups_end(payload, 0) {
        None => None,
        Some(end) => {
            let groups = payload.subrange(0, end);
            let len = groups_value(groups);
            if groups_fit(groups) && end + len <= payload.len() {
                Some(payload.subrange(end, end + len))
            } else {
                None
            }
        },
    }
}

/// `postcard::to_allocvec` on a byte vector: the length as a varint, then the bytes.
/// It does not fail on one.
#[verifier::external_body]
fn encode_message(content: &Vec<u8>) -> (r: Option<Vec<u8>>)
    ensures
        r is Some && r->0@ == message_bytes(content@),
{
    postcard::to_allocvec(content).ok()
}

/// `postcard::from_bytes` into a byte vector: a length as a varint, then as many
/// bytes, and what lies behind them is ignored. It fails where the groups of the length
/// are too many for the machine's `usize` or go beyond it, and where the payload ends
/// too early.
#[verifier::external_body]
fn decode_message(payload: &[u8]) -> (r: Option<Vec<u8>>)
    ensures
        match r {
            Some(content) => message_content(payload@) == Some(content@),
            None => message_content(payload@) is None,
        },
{
    postcard::from_bytes::<Vec<u8>>(payload).ok()
}

/// A warning about a translation.
pub open spec fn translation_warning(code: Seq<char>, message: Seq<char>) -> DiagnosticView {
    DiagnosticView { code, severity: "warn"@, subject: "rfvp.translation"@, message }
}

impl DraftView {
    pub open spec fn warned(self, code: Seq<char>, message: Seq<char>) -> DraftView {
        DraftView { diagnostics: self.diagnostics.push(translation_warning(code, message)), ..self }
    }

    /// The draft after the companion's message was read, and the translation.
    pub open spec fn after_response(self, content: Option<Seq<u8>>) -> (
        DraftView,
        Option<Seq<char>>,
    ) {
        match content {
            None => (
                self.warned(
                    "ASTRA_FVP_HOOK_PROTOCOL"@,
                    "translation response did not match the companion contract; RFVP retained the original text"@,
                ),
                None,
            ),
            Some(bytes) => if vstd::utf8::valid_utf8(bytes) {
                (self, Some(vstd::utf8::decode_utf8(bytes)))
            } else {
                (
                    self.warned(
                        "ASTRA_FVP_HOOK_UTF8"@,
                        "translation response was not valid UTF-8; RFVP retained the original text"@,
                    ),
                    None,
                )
            },
        }
    }

    /// The draft with the companion's own diagnostics.
    pub open spec fn noted(self, diagnostics: Seq<DiagnosticView>) -> DraftView {
        DraftView { diagnostics: self.diagnostics + diagnostics, ..self }
    }
}

/// The text of an optional string.
pub open spec fn text_of(s: Option<String>) -> Option<Seq<char>> {
    match s {
        Some(t) => Some(t@),
        None => None,
    }
}

impl StepDraft {
    fn warn(&mut self, code: &str, message: &str)
        ensures
            final(self)@ == old(self)@.warned(code@, message@),
    {
        let d = diagnostic(code, "warn", "rfvp.translation", message);
        let ghost before = self@;
        self.diagnostics.push(d);
        assert(self@.diagnostics =~= before.diagnostics.push(d@));
    }

    /// The call that offers the text at `index` for translation.
    pub fn translation_request(
        &mut self,
        session: &FvpSession,
        session_id: &str,
        tick_index: u64,
        index: usize,
        hook_id: &str,
    ) -> (r: Result<LegacyHookInvocationV1, LegacyProviderError>)
        requires
            index < old(self)@.text.len(),
        ensures
            r is Ok,
            r->Ok_0@ == (InvocationView {
                session_id: session_id@,
                invocation_id: "fvp.translation."@ + text::decimal(tick_index as nat) + "."@
                    + text::decimal(index as nat),
                family_id: crate::FVP_FAMILY_ID@,
                family_game_id: session@.family_game_id,
                hook_id: hook_id@,
                timeout_ms: session@.hook_timeout_ms,
                payload: message_bytes(vstd::utf8::encode_utf8(old(self)@.text[index as int].1)),
            }),
            final(self)@ == (DraftView {
                coverage: LegacyCoverageDelta {
                    text_events: bumped(old(self)@.coverage.text_events),
                    ..old(self)@.coverage
                },
                ..old(self)@
            }),
    {
        self.coverage.text_events = self.coverage.text_events.saturating_add(1);
        let utf8 = vstd::slice::slice_to_vec(self.text[index].text.as_str().as_bytes());
        let payload = match encode_message(&utf8) {
            Some(v) => v,
            None => return Err(
                LegacyProviderError::invalid(
                    "ASTRA_FVP_HOOK_REQUEST",
                    "translation request encoding failed",
                ),
            ),
        };
        let tick = text::decimal_string(tick_index);
        let place = text::decimal_string(index as u64);
        let left = text::join3("fvp.translation.", tick.as_str(), ".");
        Ok(
            LegacyHookInvocationV1 {
                session_id: text::owned(session_id),
                invocation_id: text::join2(left.as_str(), place.as_str()),
                family_id: text::owned(crate::FVP_FAMILY_ID),
                family_game_id: text::owned(session.family_game_id.as_str()),
                hook_id: text::owned(hook_id),
                timeout_ms: session.hook_timeout_ms,
                payload,
            },
        )
    }

    /// Takes what was read from the companion's message: the translation, if it is
    /// one.
    pub fn accept_response(&mut self, content: Option<Vec<u8>>) -> (r: Option<String>)
        ensures
            (final(self)@, text_of(r)) == old(self)@.after_response(
                match content {
                    Some(bytes) => Some(bytes@),
                    None => None,
                },
            ),
    {
        match content {
            None => {
                self.warn(
                    "ASTRA_FVP_HOOK_PROTOCOL",
                    "translation response did not match the companion contract; RFVP retained the original text",
                );
                None
            },
            Some(bytes) => match text::text_from_utf8(bytes) {
                Some(t) => Some(t),
                None => {
                    self.warn(
                        "ASTRA_FVP_HOOK_UTF8",
                        "translation response was not valid UTF-8; RFVP retained the original text",
                    );
                    None
                },
            },
        }
    }

    fn note(&mut self, diagnostics: Vec<LegacyDiagnostic>)
        ensures
            final(self)@ == old(self)@.noted(crate::family::diagnostic_views(diagnostics@)),
    {
        let ghost added = crate::family::diagnostic_views(diagnostics@);
        let ghost before = self@;
        for d in it: diagnostics
            invariant
                added == crate::family::diagnostic_views(diagnostics@),
                it.seq() == diagnostics@,
                self@ == before.noted(added.subrange(0, it.index() as int)),
                before == old(self)@,
        {
            let ghost i = it.index() as int;
            let ghost now = self@;
            self.diagnostics.push(d);
            proof {
                assert(added[i] == d@);
                assert(self@.diagnostics =~= now.diagnostics.push(d@));
                assert(self@ =~= before.noted(added.subrange(0, i + 1)));
            }
        }
        assert(added.subrange(0, added.len() as int) =~= added);
    }

    /// Takes the companion's answer: the translation that the engine is to show in
    /// place of the text, if there is one. Otherwise the text stays as it is.
    pub fn accept_reply(&mut self, reply: Result<LegacyHookResultV1, LegacyProviderError>) -> (r:
        Option<String>)
        ensures
            match reply {
                Err(e) => {
                    &&& r is None
                    &&& final(self)@ == old(self)@.warned(
                        e@.code,
                        "translation Hook failed; RFVP retained the original text"@,
                    )
                },
                Ok(result) => {
                    let noted = old(self)@.noted(
                        crate::family::diagnostic_views(result.diagnostics@),
                    );
                    if result.completed {
                        (final(self)@, text_of(r)) == noted.after_response(
                            message_content(result.payload@),
                        )
                    } else {
                        r is None && final(self)@ == noted
                    }
                },
            },
    {
        match reply {
            Err(e) => {
                self.warn(
                    e.code(),
                    "translation Hook failed; RFVP retained the original text",
                );
                None
            },
            Ok(result) => {
                self.note(result.diagnostics);
                if !result.completed {
                    return None;
                }
                let content = decode_message(result.payload.as_slice());
                self.accept_response(content)
            },
        }
    }

    /// The engine could not lay the translation out.
    pub fn translation_refused(&mut self, error: &str)
        ensures
            final(self)@ == old(self)@.warned(
                "ASTRA_FVP_TRANSLATION_LAYOUT"@,
                "translated text was rejected by RFVP layout: "@ + error@,
            ),
    {
        let message = text::join2("translated text was rejected by RFVP layout: ", error);
        self.warn("ASTRA_FVP_TRANSLATION_LAYOUT", message.as_str());
    }
}

// ----------------------------------------------------------------------- surface

/// What a step does with the surface.
#[derive(Debug)]
pub struct SurfacePlan {
    /// The surface has to be drawn anew.
    pub changed: bool,
    pub generation: u64,
    pub transaction: LegacyLayerTransactionV9,
}

#[verifier::ext_equal]
pub struct PlanView {
    pub changed: bool,
    pub generation: u64,
    pub transaction: LayerTransactionView,
}

impl SurfacePlan {
    pub open spec fn view(&self) -> PlanView {
        PlanView {
            changed: self.changed,
            generation: self.generation,
            transaction: self.transaction@,
        }
    }
}

/// The one layer of a session.
pub open spec fn main_layer(session: StepSession, generation: u64, changed: bool) -> LayerView {
    LayerView {
        layer_id: "fvp.main"@,
        role: "content"@,
        z_index: 0,
        surface_id: "fvp.main"@,
        generation,
        width: session.stage_width,
        height: session.stage_height,
        stride: (4 * session.stage_width) as u32,
        format: LegacySurfaceFormatV9::Rgba8SrgbPremultiplied,
        damage: if changed {
            LegacySurfaceDamageV9::Full
        } else {
            LegacySurfaceDamageV9::Unchanged
        },
        transform: LegacyLayerTransformV9 {
            m11: Float32 { bits: ONE_BITS },
            m12: Float32 { bits: ZERO_BITS },
            m21: Float32 { bits: ZERO_BITS },
            m22: Float32 { bits: ONE_BITS },
            tx: Float32 { bits: ZERO_BITS },
            ty: Float32 { bits: ZERO_BITS },
        },
        opacity: Float32 { bits: ONE_BITS },
        texture_filter: LegacyLayerFilterV9::Linear,
        blend: LegacyLayerBlendV9::Opaque,
    }
}

/// The plan for the surface: a new generation where the picture changed or no
/// layer is there yet, the old one unchanged otherwise.
pub open spec fn surface_plan(session: StepSession, draft: DraftView) -> Result<PlanView, Fault> {
    let changed = draft.visual_changed || !session.layer_created;
    if changed && session.surface_generation == u64::MAX {
        Err(
            crate::fault::fault("ASTRA_FVP_SURFACE_GENERATION", "surface generation overflowed"),
        )
    } else if 4 * session.stage_width > u32::MAX {
        Err(crate::fault::fault("ASTRA_FVP_SURFACE_STRIDE", "surface row size overflowed"))
    } else {
        let generation = if changed {
            (session.surface_generation + 1) as u64
        } else {
            session.surface_generation
        };
        let layer = main_layer(session, generation, changed);
        Ok(
            PlanView {
                changed,
                generation,
                transaction: LayerTransactionView {
                    sequence: draft.sequence,
                    viewport_width: session.stage_width,
                    viewport_height: session.stage_height,
                    operation: if session.layer_created {
                        LayerOperationView::Update(layer)
                    } else {
                        LayerOperationView::Create(layer)
                    },
                },
            },
        )
    }
}

/// What is wrong with a lease, if anything is; whether it ends the session.
pub open spec fn lease_fault(
    session: StepSession,
    generation: u64,
    lease: LegacySurfaceLeaseV9,
) -> Option<(Fault, bool)> {
    let drifted = Some(
        (
            crate::fault::fault(
                "ASTRA_FVP_SURFACE_LEASE",
                "Host surface lease does not match the requested stable allocation",
            ),
            true,
        ),
    );
    if lease.generation != generation || lease.surface_id@ != "fvp.main"@ || lease.width
        != session.stage_width || lease.height != session.stage_height {
        drifted
    } else if 4 * session.stage_width > u32::MAX {
        Some(
            (
                crate::fault::fault("ASTRA_FVP_SURFACE_STRIDE", "surface row size overflowed"),
                false,
            ),
        )
    } else if lease.stride != 4 * session.stage_width || lease.format
        != LegacySurfaceFormatV9::Rgba8SrgbPremultiplied {
        drifted
    } else {
        None
    }
}

fn stride_overflow() -> (r: LegacyProviderError)
    ensures
        r@ == crate::fault::fault("ASTRA_FVP_SURFACE_STRIDE", "surface row size overflowed"),
{
    LegacyProviderError::invalid("ASTRA_FVP_SURFACE_STRIDE", "surface row size overflowed")
}

fn lease_drift() -> (r: LegacyProviderError)
    ensures
        r@ == crate::fault::fault(
            "ASTRA_FVP_SURFACE_LEASE",
            "Host surface lease does not match the requested stable allocation",
        ),
{
    LegacyProviderError::invalid(
        "ASTRA_FVP_SURFACE_LEASE",
        "Host surface lease does not match the requested stable allocation",
    )
}

impl DraftView {
    /// The draft with the layer transaction, and nothing where the live output has
    /// no further place.
    pub open spec fn presented(self, transaction: LayerTransactionView) -> DraftView {
        DraftView {
            live: LiveView { layers: self.live.layers.push(transaction), ..self.live },
            sequence: bumped(self.sequence),
            coverage: LegacyCoverageDelta {
                presentation_commands: bumped(self.coverage.presentation_commands),
                ..self.coverage
            },
            ..self
        }
    }
}

impl FvpSession {
    pub fn plan_surface(&self, draft: &StepDraft) -> (r: Result<SurfacePlan, LegacyProviderError>)
        ensures
            match surface_plan(self@, draft@) {
                Ok(plan) => r is Ok && r->Ok_0@ == plan,
                Err(f) => r is Err && r->Err_0@ == f,
            },
    {
        let changed = draft.visual_changed || !self.layer_created;
        let generation: u64 = if changed {
            match self.surface_generation.checked_add(1) {
                Some(v) => v,
                None => return Err(
                    LegacyProviderError::invalid(
                        "ASTRA_FVP_SURFACE_GENERATION",
                        "surface generation overflowed",
                    ),
                ),
            }
        } else {
            self.surface_generation
        };
        let stride: u32 = match self.stage_width.checked_mul(4) {
            Some(v) => v,
            None => return Err(stride_overflow()),
        };
        let layer = LegacyLayerStateV9 {
            layer_id: text::owned("fvp.main"),
            role: text::owned("content"),
            z_index: 0,
            surface_id: text::owned("fvp.main"),
            generation,
            width: self.stage_width,
            height: self.stage_height,
            stride,
            format: LegacySurfaceFormatV9::Rgba8SrgbPremultiplied,
            damage: if changed {
                LegacySurfaceDamageV9::Full
            } else {
                LegacySurfaceDamageV9::Unchanged
            },
            transform: LegacyLayerTransformV9 {
                m11: Float32 { bits: ONE_BITS },
                m12: Float32 { bits: ZERO_BITS },
                m21: Float32 { bits: ZERO_BITS },
                m22: Float32 { bits: ONE_BITS },
                tx: Float32 { bits: ZERO_BITS },
                ty: Float32 { bits: ZERO_BITS },
            },
            opacity: Float32 { bits: ONE_BITS },
            texture_filter: LegacyLayerFilterV9::Linear,
            blend: LegacyLayerBlendV9::Opaque,
        };
        let transaction = LegacyLayerTransactionV9 {
            sequence: draft.sequence,
            viewport_width: self.stage_width,
            viewport_height: self.stage_height,
            operation: if self.layer_created {
                LegacyLayerOperationV9::Update(layer)
            } else {
                LegacyLayerOperationV9::Create(layer)
            },
        };
        Ok(SurfacePlan { changed, generation, transaction })
    }

    /// The surface that a changed picture is drawn on.
    pub fn surface_request(&self, session_id: &str, tick_index: u64) -> (r: LegacySurfaceRequestV9)
        ensures
            r.session_id@ == session_id@,
            r.tick_index == tick_index,
            r.surface_id@ == "fvp.main"@,
            r.width == self@.stage_width,
            r.height == self@.stage_height,
            r.format == LegacySurfaceFormatV9::Rgba8SrgbPremultiplied,
    {
        LegacySurfaceRequestV9 {
            session_id: text::owned(session_id),
            tick_index,
            surface_id: text::owned("fvp.main"),
            width: self.stage_width,
            height: self.stage_height,
            format: LegacySurfaceFormatV9::Rgba8SrgbPremultiplied,
        }
    }

    /// Holds the lease of the host against the plan. A lease of another surface
    /// ends the session.
    pub fn check_lease(&mut self, plan: &SurfacePlan, lease: &LegacySurfaceLeaseV9) -> (r: Result<
        (),
        LegacyProviderError,
    >)
        ensures
            match lease_fault(old(self)@, plan@.generation, *lease) {
                None => r is Ok && final(self)@ == old(self)@,
                Some(f) => {
                    &&& r is Err && r->Err_0@ == f.0
                    &&& final(self)@ == if f.1 {
                        old(self)@.poison()
                    } else {
                        old(self)@
                    }
                },
            },
    {
        if lease.generation != plan.generation || !text::same_text(
            lease.surface_id.as_str(),
            "fvp.main",
        ) || lease.width != self.stage_width || lease.height != self.stage_height {
            self.poisoned = true;
            return Err(lease_drift());
        }
        let stride: u32 = match self.stage_width.checked_mul(4) {
            Some(v) => v,
            None => return Err(stride_overflow()),
        };
        let known = match lease.format {
            LegacySurfaceFormatV9::Rgba8SrgbPremultiplied => true,
            LegacySurfaceFormatV9::Other => false,
        };
        if lease.stride != stride || !known {
            self.poisoned = true;
            return Err(lease_drift());
        }
        Ok(())
    }

    /// The surface shows the step. The layer then exists in this generation.
    pub fn surface_presented(&mut self, draft: &mut StepDraft, plan: SurfacePlan) -> (r: Result<
        (),
        LegacyProviderError,
    >)
        ensures
            if old(draft)@.sequence == u64::MAX {
                &&& r is Err
                &&& r->Err_0@ == crate::fault::fault(
                    "ASTRA_FVP_LIVE_SEQUENCE",
                    "live sequence overflowed",
                )
                &&& final(self)@ == old(self)@
                &&& final(draft)@ == old(draft)@
            } else {
                &&& r is Ok
                &&& final(draft)@ == old(draft)@.presented(plan@.transaction)
                &&& final(self)@ == (StepSession {
                    surface_generation: plan@.generation,
                    layer_created: true,
                    ..old(self)@
                })
            },
    {
        draft.sequence = match draft.sequence.checked_add(1) {
            Some(v) => v,
            None => return Err(
                LegacyProviderError::invalid("ASTRA_FVP_LIVE_SEQUENCE", "live sequence overflowed"),
            ),
        };
        let ghost before = draft@;
        draft.live.layers.push(plan.transaction);
        assert(draft@.live.layers =~= before.live.layers.push(plan@.transaction));
        self.surface_generation = plan.generation;
        self.layer_created = true;
        draft.coverage.presentation_commands = draft.coverage.presentation_commands.saturating_add(
            1,
        );
        assert(draft@ =~= old(draft)@.presented(plan@.transaction));
        Ok(())
    }
}

/// The failure of drawing on a lent surface.
pub fn render_failure(text: &str) -> (r: LegacyProviderError)
    ensures
        r@ == (Fault { code: "ASTRA_FVP_SURFACE_RENDER"@, message: text@ }),
{
    LegacyProviderError::invalid("ASTRA_FVP_SURFACE_RENDER", text)
}

// ------------------------------------------------------------------------ movies

/// The token under which a step waits for its movie.
pub open spec fn movie_token(tick_index: u64) -> Seq<char> {
    "fvp.movie."@ + text::decimal(tick_index as nat)
}

/// The movie that a command starts.
pub open spec fn started_movie(command: VideoCommand, tick_index: u64) -> PendingMovie {
    PendingMovie {
        playback_id: command.playback_id,
        token_id: movie_token(tick_index),
        resource_uri: command.resource_uri,
        mode: command.mode,
        stage_width: command.stage_width,
        stage_height: command.stage_height,
    }
}

impl DraftView {
    /// The draft with a movie and the wait for its end.
    pub open spec fn with_movie(self, command: VideoCommand, tick_index: u64) -> DraftView {
        DraftView {
            live: LiveView {
                video: self.live.video.push((self.sequence, command)),
                ..self.live
            },
            sequence: bumped(self.sequence),
            waits: self.waits.push((movie_token(tick_index), command.playback_id)),
            coverage: LegacyCoverageDelta {
                presentation_commands: bumped(self.coverage.presentation_commands),
                ..self.coverage
            },
            ..self
        }
    }
}

/// Starting the movies from `i` on: session and draft afterwards, and the failure.
/// Only one movie plays at a time.
pub open spec fn movies_started(
    session: StepSession,
    draft: DraftView,
    commands: Seq<VideoCommand>,
    tick_index: u64,
    i: int,
) -> (StepSession, DraftView, Option<Fault>)
    decreases commands.len() - i,
{
    if i >= commands.len() {
        (session, draft, None)
    } else if session.pending_movie is Some {
        (
            session.poison(),
            draft,
            Some(
                crate::fault::fault(
                    "ASTRA_FVP_MOVIE_PLAYBACK_CONFLICT",
                    "a second movie started before the pending movie completed",
                ),
            ),
        )
    } else {
        movies_started(
            StepSession {
                pending_movie: Some(started_movie(commands[i], tick_index)),
                ..session
            },
            draft.with_movie(commands[i], tick_index),
            commands,
            tick_index,
            i + 1,
        )
    }
}

fn movie_token_text(tick_index: u64) -> (r: String)
    ensures
        r@ == movie_token(tick_index),
{
    text::join2("fvp.movie.", text::decimal_string(tick_index).as_str())
}

impl FvpSession {
    fn start_movie(&mut self, draft: &mut StepDraft, command: LegacyVideoCommandV1, tick_index: u64)
        requires
            old(self)@.pending_movie is None,
        ensures
            final(self)@ == (StepSession {
                pending_movie: Some(started_movie(command@, tick_index)),
                ..old(self)@
            }),
            final(draft)@ == old(draft)@.with_movie(command@, tick_index),
    {
        let playback = match &command {
            LegacyVideoCommandV1::Play {
                playback_id,
                resource_uri,
                mode,
                stage_width,
                stage_height,
            } => {
                self.pending_movie = Some(
                    PendingMovieV1 {
                        playback_id: text::owned(playback_id.as_str()),
                        token_id: movie_token_text(tick_index),
                        resource_uri: text::owned(resource_uri.as_str()),
                        mode: *mode,
                        stage_width: *stage_width,
                        stage_height: *stage_height,
                    },
                );
                text::owned(playback_id.as_str())
            },
        };
        let ghost before = draft@;
        let ghost shown = command@;
        let sequence: u64 = draft.sequence;
        draft.live.video.push(LegacySequenced { sequence, value: command });
        assert(draft@.live.video =~= before.live.video.push((sequence, shown)));
        draft.sequence = sequence.saturating_add(1);
        let wait = LegacyWaitRequest::MediaFence {
            token_id: movie_token_text(tick_index),
            media_id: playback,
        };
        draft.waits.push(wait);
        assert(draft@.waits =~= before.waits.push(wait@));
        draft.coverage.presentation_commands = draft.coverage.presentation_commands.saturating_add(
            1,
        );
        assert(draft@ =~= old(draft)@.with_movie(shown, tick_index));
    }

    /// Starts the movies of the step, with the boundary's verdict on each. A second
    /// movie beside one that still plays ends the session.
    pub fn start_movies(
        &mut self,
        draft: &mut StepDraft,
        tick_index: u64,
        verdicts: &Vec<Option<String>>,
    ) -> (r: Result<(), LegacyProviderError>)
        requires
            verdicts@.len() == old(draft)@.video.len(),
        ensures
            match crate::adapters::video_verdict(
                old(draft)@.frame_index,
                old(draft)@.video,
                verdicts@,
                0,
                Seq::empty(),
            ) {
                Err(f) => {
                    &&& r is Err
                    &&& r->Err_0@ == (Fault { code: "ASTRA_FVP_VIDEO_DELTA"@, message: f.line() })
                    &&& final(self)@ == old(self)@
                    &&& final(draft)@ == old(draft)@
                },
                Ok(commands) => {
                    let started = movies_started(
                        old(self)@,
                        old(draft)@,
                        commands,
                        tick_index,
                        0,
                    );
                    &&& final(self)@ == started.0
                    &&& final(draft)@ == started.1
                    &&& match started.2 {
                        None => r is Ok,
                        Some(f) => r is Err && r->Err_0@ == f,
                    }
                },
            },
    {
        let commands = match crate::adapters::video_commands_from_delta(
            draft.frame_index,
            &draft.video,
            verdicts,
        ) {
            Ok(v) => v,
            Err(e) => return Err(
                LegacyProviderError::invalid("ASTRA_FVP_VIDEO_DELTA", e.to_text().as_str()),
            ),
        };
        let ghost all = crate::adapters::video_commands(commands@);
        let ghost expected = movies_started(old(self)@, old(draft)@, all, tick_index, 0);
        for command in it: commands
            invariant
                all == crate::adapters::video_commands(commands@),
                it.seq() == commands@,
                crate::adapters::video_verdict(
                    old(draft)@.frame_index,
                    old(draft)@.video,
                    verdicts@,
                    0,
                    Seq::empty(),
                ) == Ok::<Seq<VideoCommand>, AdapterFault>(all),
                expected == movies_started(old(self)@, old(draft)@, all, tick_index, 0),
                expected == movies_started(self@, draft@, all, tick_index, it.index() as int),
        {
            assert(all[it.index() as int] == command@);
            if self.pending_movie.is_some() {
                self.poisoned = true;
                return Err(
                    LegacyProviderError::invalid(
                        "ASTRA_FVP_MOVIE_PLAYBACK_CONFLICT",
                        "a second movie started before the pending movie completed",
                    ),
                );
            }
            self.start_movie(draft, command, tick_index);
        }
        Ok(())
    }
}

// ------------------------------------------------------------------------ output

/// The state of a session behind a step.
pub open spec fn status_of(terminal: bool, waiting: bool) -> LegacyRuntimeStatus {
    if terminal {
        LegacyRuntimeStatus::Terminal
    } else if waiting {
        LegacyRuntimeStatus::Awaiting
    } else {
        LegacyRuntimeStatus::Active
    }
}

/// The answer that closes a draft.
pub open spec fn output_of(session: StepSession, draft: DraftView, terminal: bool) -> OutputView {
    OutputView {
        status: status_of(terminal, draft.waits.len() > 0),
        live: draft.live,
        waits: draft.waits,
        diagnostics: draft.diagnostics,
        coverage: draft.coverage,
        state_revision: (session.state_revision + 1) as u64,
    }
}

impl FvpSession {
    /// Closes the step: the answer, and the place of the next live output for
    /// `commit_step`. `terminal` is what the engine says of its end.
    pub fn finish_step(&mut self, draft: StepDraft, terminal: Result<bool, String>) -> (r: Result<
        (LegacyStepOutput, u64),
        LegacyProviderError,
    >)
        ensures
            match terminal {
                Err(text) => {
                    &&& r is Err
                    &&& r->Err_0@ == (Fault { code: "ASTRA_FVP_STATE"@, message: text@ })
                    &&& final(self)@ == old(self)@.poison()
                },
                Ok(ended) => if old(self)@.state_revision == u64::MAX {
                    &&& r is Err
                    &&& r->Err_0@ == crate::fault::fault(
                        "ASTRA_FVP_STATE_REVISION",
                        "state revision overflowed",
                    )
                    &&& final(self)@ == old(self)@.poison()
                } else {
                    &&& r is Ok
                    &&& r->Ok_0.0@ == output_of(old(self)@, draft@, ended)
                    &&& r->Ok_0.1 == draft@.sequence
                    &&& final(self)@ == (StepSession {
                        state_revision: (old(self)@.state_revision + 1) as u64,
                        ..old(self)@
                    })
                },
            },
    {
        let ended = match terminal {
            Ok(v) => v,
            Err(text) => {
                self.poisoned = true;
                return Err(LegacyProviderError::invalid("ASTRA_FVP_STATE", text.as_str()));
            },
        };
        let status = if ended {
            LegacyRuntimeStatus::Terminal
        } else if draft.waits.len() > 0 {
            LegacyRuntimeStatus::Awaiting
        } else {
            LegacyRuntimeStatus::Active
        };
        self.state_revision = match self.state_revision.checked_add(1) {
            Some(v) => v,
            None => {
                self.poisoned = true;
                return Err(
                    LegacyProviderError::invalid(
                        "ASTRA_FVP_STATE_REVISION",
                        "state revision overflowed",
                    ),
                );
            },
        };
        let output = LegacyStepOutput {
            status,
            live: draft.live,
            waits: draft.waits,
            diagnostics: draft.diagnostics,
            coverage: draft.coverage,
            state_revision: self.state_revision,
        };
        assert(output@ =~= output_of(old(self)@, draft@, ended));
        Ok((output, draft.sequence))
    }

    /// The boundary accepted the answer, so the next step goes on behind it.
    pub fn commit_step(&mut self, next_sequence: u64)
        ensures
            final(self)@ == (StepSession { next_live_sequence: next_sequence, ..old(self)@ }),
    {
        self.next_live_sequence = next_sequence;
    }
}

// ----------------------------------------------------------------------- laws

/// The input edges of an accepted step are in strictly increasing order, and each
/// becomes one event.
pub proof fn law_inputs_are_ordered(
    pointer: Pointer,
    edges: Seq<LegacyInputEdge>,
    i: int,
    events: Seq<RfvpEvent>,
)
    requires
        0 <= i <= edges.len(),
        input_events(pointer, edges, i, events).1 is Ok,
    ensures
        forall|k: int|
            #![trigger edges[k]]
            i <= k < edges.len() && k > 0 ==> edges[k - 1].sequence < edges[k].sequence,
        input_events(pointer, edges, i, events).1->Ok_0.len() == events.len() + edges.len() - i,
    decreases edges.len() - i,
{
    if i < edges.len() {
        let taken = edge_event(pointer, edges[i]);
        law_inputs_are_ordered(taken.0, edges, i + 1, events.push(taken.1->Ok_0));
    }
}

/// Sound is placed without gaps: behind `n` commands the live output goes on `n`
/// places further, and every piece of sound has a place of its own in between.
pub proof fn law_sound_is_sequenced(draft: DraftView, commands: Seq<AudioCommand>, i: int)
    requires
        0 <= i <= commands.len(),
        draft.sequence + (commands.len() - i) <= u64::MAX,
    ensures
        ({
            let after = draft.with_sound(commands, i);
            &&& after.sequence == draft.sequence + (commands.len() - i)
            &&& after.live.audio.len() + after.live.audio_commands.len()
                == draft.live.audio.len() + draft.live.audio_commands.len() + (commands.len() - i)
            &&& after.live.layers == draft.live.layers
            &&& after.live.video == draft.live.video
            &&& after.diagnostics == draft.diagnostics
        }),
    decreases commands.len() - i,
{
    if i < commands.len() {
        law_sound_is_sequenced(draft.with_audio(commands[i]), commands, i + 1);
    }
}

/// The places of the sound of a step increase.
pub open spec fn sound_places_increase(draft: DraftView) -> bool {
    &&& forall|a: int, b: int|
        0 <= a < b < draft.live.audio.len() ==> (#[trigger] draft.live.audio[a]).sequence < (
        #[trigger] draft.live.audio[b]).sequence
    &&& forall|a: int| 0 <= a < draft.live.audio.len() ==> (#[trigger] draft.live.audio[a]).sequence
        < draft.sequence
    &&& forall|a: int, b: int|
        0 <= a < b < draft.live.audio_commands.len() ==> (
        #[trigger] draft.live.audio_commands[a]).0 < (#[trigger] draft.live.audio_commands[b]).0
    &&& forall|a: int|
        0 <= a < draft.live.audio_commands.len() ==> (#[trigger] draft.live.audio_commands[a]).0
            < draft.sequence
    &&& forall|a: int, b: int|
        0 <= a < draft.live.audio.len() && 0 <= b < draft.live.audio_commands.len() ==> (
        #[trigger] draft.live.audio[a]).sequence != (#[trigger] draft.live.audio_commands[b]).0
}

/// No two pieces of sound share a place, and samples and commands each come in the
/// order of their places.
pub proof fn law_sound_places_increase(draft: DraftView, commands: Seq<AudioCommand>, i: int)
    requires
        0 <= i <= commands.len(),
        draft.sequence + (commands.len() - i) <= u64::MAX,
        sound_places_increase(draft),
    ensures
        sound_places_increase(draft.with_sound(commands, i)),
    decreases commands.len() - i,
{
    if i < commands.len() {
        let next = draft.with_audio(commands[i]);
        assert(sound_places_increase(next));
        law_sound_places_increase(next, commands, i + 1);
    }
}

/// A session never has more than one movie, and it waits for the movie that it
/// started: at most one command gets through.
pub proof fn law_one_movie_at_a_time(
    session: StepSession,
    draft: DraftView,
    commands: Seq<VideoCommand>,
    tick_index: u64,
)
    ensures
        ({
            let started = movies_started(session, draft, commands, tick_index, 0);
            &&& started.2 is None <==> commands.len() == 0 || (commands.len() == 1
                && session.pending_movie is None)
            &&& session.pending_movie is Some ==> started.0.pending_movie == session.pending_movie
            &&& started.0.poisoned == (session.poisoned || started.2 is Some)
            &&& started.1.waits.len() == draft.waits.len() + if commands.len() > 0
                && session.pending_movie is None {
                1int
            } else {
                0
            }
        }),
{
    reveal_with_fuel(movies_started, 3);
}

/// A movie that a step starts is the one whose end the session takes: the wait of
/// the step names it, and the completed result under that name ends it.
pub proof fn law_movie_wait_is_answered(
    session: StepSession,
    draft: DraftView,
    command: VideoCommand,
    tick_index: u64,
    result: LegacyAwaitResult,
)
    requires
        session.pending_movie is None,
        result.token_id@ == draft.with_movie(command, tick_index).waits.last().0,
        result.status@ == "completed"@,
    ensures
        ({
            let started = movies_started(session, draft, seq![command], tick_index, 0);
            next_completion(started.0.pending_movie, seq![result], 0) == Completion::Movie(0)
        }),
{
    reveal_with_fuel(movies_started, 3);
    let token = movie_token(tick_index);
    let waits = draft.with_movie(command, tick_index).waits;
    assert(waits.last() == (token, command.playback_id));
    assert(token.subrange(0, "fvp.movie."@.len() as int) =~= "fvp.movie."@);
}

/// The generation of the surface grows by one with each drawn picture and stays
/// otherwise; a session without a layer is always drawn.
pub proof fn law_surface_generation(session: StepSession, draft: DraftView)
    requires
        surface_plan(session, draft) is Ok,
    ensures
        ({
            let plan = surface_plan(session, draft)->Ok_0;
            &&& plan.changed == (draft.visual_changed || !session.layer_created)
            &&& plan.generation == session.surface_generation + if plan.changed {
                1int
            } else {
                0
            }
            &&& session.layer_created ==> plan.transaction.operation is Update
            &&& !session.layer_created ==> plan.transaction.operation is Create && plan.changed
        }),
{
}

proof fn lemma_varint_prefix(a: nat, b: nat, rest_a: Seq<u8>, rest_b: Seq<u8>)
    requires
        varint(a) + rest_a == varint(b) + rest_b,
    ensures
        a == b,
        rest_a == rest_b,
    decreases a,
{
    let x = varint(a) + rest_a;
    let y = varint(b) + rest_b;
    assert(x[0] == varint(a)[0]);
    assert(y[0] == varint(b)[0]);
    if a < 128 && b < 128 {
        assert(a == b);
        assert(x.subrange(1, x.len() as int) =~= rest_a);
        assert(y.subrange(1, y.len() as int) =~= rest_b);
    } else if a >= 128 && b >= 128 {
        assert(x.subrange(1, x.len() as int) =~= varint(a / 128) + rest_a);
        assert(y.subrange(1, y.len() as int) =~= varint(b / 128) + rest_b);
        lemma_varint_prefix(a / 128, b / 128, rest_a, rest_b);
        assert(a % 128 == b % 128);
    } else {
        assert(varint(a)[0] < 128 <==> a < 128);
        assert(varint(b)[0] < 128 <==> b < 128);
    }
}

/// The wire form of a message can be read in one way only.
pub proof fn law_message_is_unambiguous(a: Seq<u8>, b: Seq<u8>, payload: Seq<u8>)
    requires
        begins(payload, message_bytes(a)),
        begins(payload, message_bytes(b)),
    ensures
        a == b,
{
    let ra = payload.subrange(message_bytes(a).len() as int, payload.len() as int);
    let rb = payload.subrange(message_bytes(b).len() as int, payload.len() as int);
    assert(payload =~= message_bytes(a) + ra);
    assert(payload =~= message_bytes(b) + rb);
    assert(message_bytes(a) + ra =~= varint(a.len()) + (a + ra));
    assert(message_bytes(b) + rb =~= varint(b.len()) + (b + rb));
    lemma_varint_prefix(a.len(), b.len(), a + ra, b + rb);
    assert(a =~= (a + ra).subrange(0, a.len() as int));
    assert(b =~= (b + rb).subrange(0, b.len() as int));
}

/// What a length below `cap` times `128` to the power `g` takes.
spec fn span(g: nat, cap: nat) -> nat
    decreases g,
{
    if g == 0 {
        cap
    } else {
        128 * span((g - 1) as nat, cap)
    }
}

/// The wire form of a number is read back, and takes no more groups than it needs.
proof fn lemma_varint_read(n: nat, rest: Seq<u8>, g: nat, cap: nat)
    requires
        1 <= cap <= 128,
        n < span(g, cap),
    ensures
        groups_end(varint(n) + rest, 0) == Some(varint(n).len() as int),
        groups_value(varint(n)) == n,
        1 <= varint(n).len() <= g + 1,
        varint(n).len() == g + 1 ==> varint(n).last() < cap,
    decreases n,
{
    let all = varint(n) + rest;
    assert(all[0] == varint(n)[0]);
    reveal_with_fuel(groups_value, 2);
    reveal_with_fuel(span, 2);
    if n >= 128 {
        if g == 0 {
            assert(false);
        }
        let next = n / 128;
        lemma_varint_read(next, rest, (g - 1) as nat, cap);
        assert(all.skip(1) =~= varint(next) + rest);
        lemma_groups_shift(all, 0);
        assert(varint(n).skip(1) =~= varint(next));
        assert(varint(n).last() == varint(next).last());
    }
}

/// Where groups end does not depend on what lies before them.
proof fn lemma_groups_shift(payload: Seq<u8>, i: int)
    requires
        payload.len() > 0,
        0 <= i,
    ensures
        groups_end(payload, i + 1) == match groups_end(payload.skip(1), i) {
            Some(end) => Some(end + 1),
            None => None,
        },
    decreases payload.len() - i,
{
    if i + 1 < payload.len() {
        assert(payload.skip(1)[i] == payload[i + 1]);
        lemma_groups_shift(payload, i + 1);
    }
}

/// The length at the head of a message is read back.
proof fn lemma_message_head(content: Seq<u8>, rest: Seq<u8>)
    requires
        content.len() <= usize::MAX,
    ensures
        ({
            let head = varint(content.len());
            &&& groups_end(message_bytes(content) + rest, 0) == Some(head.len() as int)
            &&& groups_value(head) == content.len()
            &&& groups_fit(head)
        }),
{
    let tail = content + rest;
    assert(message_bytes(content) + rest =~= varint(content.len()) + tail);
    reveal_with_fuel(span, 11);
    if usize::MAX == u64::MAX {
        assert(span(9, 2) == 0x1_0000_0000_0000_0000);
        lemma_varint_read(content.len(), tail, 9, 2);
    } else {
        assert(span(4, 16) == 0x1_0000_0000);
        lemma_varint_read(content.len(), tail, 4, 16);
    }
}

/// A message is read back from its wire form, whatever lies behind it.
pub proof fn law_message_round_trip(content: Seq<u8>, rest: Seq<u8>)
    requires
        content.len() <= usize::MAX,
    ensures
        message_content(message_bytes(content) + rest) == Some(content),
{
    let payload = message_bytes(content) + rest;
    let head = varint(content.len());
    lemma_message_head(content, rest);
    assert(payload.subrange(0, head.len() as int) =~= head);
    assert(payload.subrange(head.len() as int, (head.len() + content.len()) as int) =~= content);
}

/// A message that is cut off anywhere is not read: a warning is left, and the text
/// stays.
pub proof fn law_broken_message_is_refused(draft: DraftView, content: Seq<u8>, kept: int)
    requires
        content.len() <= usize::MAX,
        0 <= kept < message_bytes(content).len(),
    ensures
        draft.after_response(message_content(message_bytes(content).subrange(0, kept))) == (
            draft.warned(
                "ASTRA_FVP_HOOK_PROTOCOL"@,
                "translation response did not match the companion contract; RFVP retained the original text"@,
            ),
            None::<Seq<char>>,
        ),
{
    let whole = message_bytes(content);
    let cut = whole.subrange(0, kept);
    let head = varint(content.len());
    lemma_message_head(content, Seq::empty());
    assert(whole + Seq::<u8>::empty() =~= whole);
    lemma_cut_groups(whole, kept, 0);
    if groups_end(cut, 0) is Some {
        assert(cut.subrange(0, head.len() as int) =~= head);
    }
}

/// What is cut off behind the groups of a number does not move their end.
proof fn lemma_cut_groups(payload: Seq<u8>, kept: int, i: int)
    requires
        0 <= i <= kept <= payload.len(),
    ensures
        groups_end(payload.subrange(0, kept), i) matches Some(end) ==> i < end <= kept
            && groups_end(payload, i) == Some(end),
    decreases kept - i,
{
    if i < kept {
        assert(payload.subrange(0, kept)[i] == payload[i]);
        lemma_cut_groups(payload, kept, i + 1);
    }
}

/// A companion that answers with the wire form of a text hands over that text and
/// leaves no warning.
pub proof fn law_translation_arrives(draft: DraftView, translation: Seq<char>)
    requires
        vstd::utf8::encode_utf8(translation).len() <= usize::MAX,
    ensures
        draft.after_response(message_content(message_bytes(vstd::utf8::encode_utf8(translation))))
            == (draft, Some(translation)),
{
    let bytes = vstd::utf8::encode_utf8(translation);
    law_message_round_trip(bytes, Seq::empty());
    assert(message_bytes(bytes) + Seq::<u8>::empty() =~= message_bytes(bytes));
    vstd::utf8::encode_utf8_valid_utf8(translation);
    vstd::utf8::encode_utf8_decode_utf8(translation);
}

/// What a step makes of the edges and one more behind them.
proof fn lemma_one_more_edge(
    pointer: Pointer,
    edges: Seq<LegacyInputEdge>,
    edge: LegacyInputEdge,
    i: int,
    events: Seq<RfvpEvent>,
)
    requires
        0 <= i <= edges.len(),
        input_events(pointer, edges, i, events).1 is Ok,
    ensures
        ({
            let (at, taken) = input_events(pointer, edges, i, events);
            let all = input_events(pointer, edges.push(edge), i, events);
            if edges.len() > 0 && edge.sequence <= edges.last().sequence {
                all.0 == at && all.1 is Err && all.1->Err_0.code == "ASTRA_FVP_INPUT_ORDER"@
            } else {
                &&& all.0 == edge_event(at, edge).0
                &&& match edge_event(at, edge).1 {
                    Ok(event) => all.1 == Ok::<Seq<RfvpEvent>, Fault>(taken->Ok_0.push(event)),
                    Err(f) => all.1 == Err::<Seq<RfvpEvent>, Fault>(f),
                }
            }
        }),
    decreases edges.len() - i,
{
    let all = edges.push(edge);
    if i < edges.len() {
        assert(all[i] == edges[i]);
        let taken = edge_event(pointer, edges[i]);
        lemma_one_more_edge(taken.0, edges, edge, i + 1, events.push(taken.1->Ok_0));
    } else {
        assert(all[i] == edge);
        if i > 0 {
            assert(all[i - 1] == edges.last());
        }
        let taken = edge_event(pointer, edge);
        if taken.1 is Ok {
            assert(input_events(taken.0, all, i + 1, events.push(taken.1->Ok_0)) == (
                taken.0,
                Ok::<Seq<RfvpEvent>, Fault>(events.push(taken.1->Ok_0)),
            ));
        }
    }
}

/// Whether a control is one of the pointer or the wheel and not a key.
pub open spec fn of_the_pointer(control: Seq<char>) -> bool {
    ||| control == "pointer.x"@
    ||| control == "pointer.y"@
    ||| control == "wheel"@
    ||| control == "pointer.primary"@
    ||| control == "pointer.secondary"@
}

/// A step without input hands nothing to the engine and leaves the pointer.
pub proof fn law_no_input_is_no_event(pointer: Pointer)
    ensures
        input_events(pointer, Seq::empty(), 0, Seq::empty()) == (
            pointer,
            Ok::<Seq<RfvpEvent>, Fault>(Seq::empty()),
        ),
{
}

/// A key that follows accepted input reaches the engine as the last event of the step, as
/// the key of the same meaning, going down where it was pressed and up where it was
/// released, and the pointer stays. A key that the engine does not have is refused.
pub proof fn law_keys_keep_their_meaning(
    pointer: Pointer,
    edges: Seq<LegacyInputEdge>,
    edge: LegacyInputEdge,
)
    requires
        input_events(pointer, edges, 0, Seq::empty()).1 is Ok,
        edges.len() > 0 ==> edges.last().sequence < edge.sequence,
        !of_the_pointer(edge.control@),
    ensures
        ({
            let (at, before) = input_events(pointer, edges, 0, Seq::empty());
            let (next, after) = input_events(pointer, edges.push(edge), 0, Seq::empty());
            let plain = InputModifiers { bits: 0 };
            let down = |key: KeyCode| RfvpEvent::KeyDown { key, repeat: false, modifiers: plain };
            let up = |key: KeyCode| RfvpEvent::KeyUp { key, modifiers: plain };
            let reaches = |key: KeyCode|
                after == Ok::<Seq<RfvpEvent>, Fault>(
                    before->Ok_0.push(
                        if edge.pressed {
                            down(key)
                        } else {
                            up(key)
                        },
                    ),
                );
            &&& next == at
            &&& edge.key == Some(InputKey::Enter) ==> reaches(KeyCode::Return)
            &&& edge.key == Some(InputKey::Escape) ==> reaches(KeyCode::Escape)
            &&& edge.key == Some(InputKey::Space) ==> reaches(KeyCode::Space)
            &&& edge.key == Some(InputKey::Shift) ==> reaches(KeyCode::Shift)
            &&& edge.key == Some(InputKey::Control) ==> reaches(KeyCode::Control)
            &&& edge.key == Some(InputKey::ArrowUp) ==> reaches(KeyCode::Up)
            &&& edge.key == Some(InputKey::ArrowDown) ==> reaches(KeyCode::Down)
            &&& edge.key == Some(InputKey::ArrowLeft) ==> reaches(KeyCode::Left)
            &&& edge.key == Some(InputKey::ArrowRight) ==> reaches(KeyCode::Right)
            &&& (edge.key is None || edge.key->0 is Other) ==> {
                &&& after is Err
                &&& after->Err_0.code == "ASTRA_FVP_INPUT_KEY"@
            }
        }),
{
    lemma_one_more_edge(pointer, edges, edge, 0, Seq::empty());
}

/// Whether a number that an edge carries is the whole number `n`.
pub open spec fn carries(edge: LegacyInputEdge, n: int) -> bool {
    &&& edge.value.finite()
    &&& crate::float::steps(edge.value) == crate::float::steps_of(n)
}

/// Whether an edge carries a whole number of 32 bits.
pub open spec fn carries_a_number(edge: LegacyInputEdge) -> bool {
    exists|n: i32| #[trigger] carries(edge, n as int)
}

proof fn lemma_carried(edge: LegacyInputEdge, subject: Seq<char>)
    ensures
        match input_number(edge.value, subject) {
            Ok(n) => carries(edge, n as int) && carries_a_number(edge),
            Err(f) => !carries_a_number(edge) && f.code == "ASTRA_FVP_INPUT_VALUE"@,
        },
        forall|n: i32| #[trigger]
            carries(edge, n as int) ==> input_number(edge.value, subject) == Ok::<i32, Fault>(n),
{
    assert forall|n: i32| #[trigger] carries(edge, n as int) implies input_number(
        edge.value,
        subject,
    ) == Ok::<i32, Fault>(n) by {
        crate::float::law_whole_is_the_value(edge.value, n as int);
    }
    match edge.value.whole() {
        Some(v) => {
            crate::float::law_whole_is_the_value(edge.value, v);
            if i32::MIN <= v <= i32::MAX {
                assert(carries(edge, (v as i32) as int));
            }
        },
        None => {},
    }
}

/// The pointer goes where the edges send it: an edge for one axis sets that axis to the
/// number that it carries and keeps the other, and tells whether the pointer is on the
/// screen. The engine is told the place that results. The wheel turns by the number that
/// its edge carries, upright. An edge that carries no whole number of 32 bits is refused and
/// leaves the pointer.
pub proof fn law_pointer_follows_its_edges(
    pointer: Pointer,
    edges: Seq<LegacyInputEdge>,
    edge: LegacyInputEdge,
)
    requires
        input_events(pointer, edges, 0, Seq::empty()).1 is Ok,
        edges.len() > 0 ==> edges.last().sequence < edge.sequence,
    ensures
        ({
            let (at, before) = input_events(pointer, edges, 0, Seq::empty());
            let (next, after) = input_events(pointer, edges.push(edge), 0, Seq::empty());
            let control = edge.control@;
            let numbered = control == "pointer.x"@ || control == "pointer.y"@ || control
                == "wheel"@;
            &&& numbered ==> {
                &&& after is Ok <==> carries_a_number(edge)
                &&& after is Err ==> next == at && after->Err_0.code == "ASTRA_FVP_INPUT_VALUE"@
                &&& after is Ok ==> after->Ok_0.len() == before->Ok_0.len() + 1
                    && after->Ok_0.drop_last() == before->Ok_0
            }
            &&& (control == "pointer.x"@ || control == "pointer.y"@) && after is Ok ==> {
                &&& next.in_screen == edge.pressed
                &&& after->Ok_0.last() == (RfvpEvent::PointerMove {
                    x: next.x,
                    y: next.y,
                    in_screen: next.in_screen,
                })
            }
            &&& control == "pointer.x"@ && after is Ok ==> carries(edge, next.x as int) && next.y
                == at.y
            &&& control == "pointer.y"@ && after is Ok ==> carries(edge, next.y as int) && next.x
                == at.x
            &&& control == "wheel"@ && after is Ok ==> {
                &&& next == at
                &&& after->Ok_0.last() matches RfvpEvent::Wheel { delta_x, delta_y } && delta_x == 0
                    && carries(edge, delta_y as int)
            }
        }),
{
    lemma_one_more_edge(pointer, edges, edge, 0, Seq::empty());
    lemma_controls_differ();
    let before = input_events(pointer, edges, 0, Seq::empty()).1->Ok_0;
    let at = input_events(pointer, edges, 0, Seq::empty()).0;
    lemma_carried(edge, "pointer x"@);
    lemma_carried(edge, "pointer y"@);
    lemma_carried(edge, "wheel"@);
    if edge_event(at, edge).1 is Ok {
        let event = edge_event(at, edge).1->Ok_0;
        assert(before.push(event).drop_last() =~= before);
    }
}

/// The primary button is the left one and the secondary button the right one. A button
/// goes down where its edge was pressed and up where it was released, at the place that
/// the pointer has, which stays.
pub proof fn law_buttons_act_at_the_pointer(
    pointer: Pointer,
    edges: Seq<LegacyInputEdge>,
    edge: LegacyInputEdge,
)
    requires
        input_events(pointer, edges, 0, Seq::empty()).1 is Ok,
        edges.len() > 0 ==> edges.last().sequence < edge.sequence,
        edge.control@ == "pointer.primary"@ || edge.control@ == "pointer.secondary"@,
    ensures
        ({
            let (at, before) = input_events(pointer, edges, 0, Seq::empty());
            let (next, after) = input_events(pointer, edges.push(edge), 0, Seq::empty());
            let primary = edge.control@ == "pointer.primary"@;
            &&& next == at
            &&& after is Ok
            &&& after->Ok_0.drop_last() == before->Ok_0
            &&& after->Ok_0.len() == before->Ok_0.len() + 1
            &&& edge.pressed ==> {
                &&& after->Ok_0.last() matches RfvpEvent::PointerDown { button, x, y } && x == at.x
                    && y == at.y && (primary ==> button == PointerButton::Left) && (!primary
                    ==> button == PointerButton::Right)
            }
            &&& !edge.pressed ==> {
                &&& after->Ok_0.last() matches RfvpEvent::PointerUp { button, x, y } && x == at.x
                    && y == at.y && (primary ==> button == PointerButton::Left) && (!primary
                    ==> button == PointerButton::Right)
            }
        }),
{
    lemma_one_more_edge(pointer, edges, edge, 0, Seq::empty());
    lemma_controls_differ();
    let before = input_events(pointer, edges, 0, Seq::empty()).1->Ok_0;
    let at = input_events(pointer, edges, 0, Seq::empty()).0;
    let event = edge_event(at, edge).1->Ok_0;
    assert(before.push(event).drop_last() =~= before);
}

/// An edge that does not come behind the last one is refused, and so is all input that
/// begins with refused input; the pointer keeps what was taken in before.
pub proof fn law_input_out_of_order_is_refused(
    pointer: Pointer,
    edges: Seq<LegacyInputEdge>,
    edge: LegacyInputEdge,
)
    requires
        edges.len() > 0,
    ensures
        input_events(pointer, edges, 0, Seq::empty()).1 is Ok && edge.sequence
            <= edges.last().sequence ==> {
            let (at, before) = input_events(pointer, edges, 0, Seq::empty());
            let (next, after) = input_events(pointer, edges.push(edge), 0, Seq::empty());
            next == at && after is Err && after->Err_0.code == "ASTRA_FVP_INPUT_ORDER"@
        },
        input_events(pointer, edges, 0, Seq::empty()).1 is Err ==> input_events(
            pointer,
            edges.push(edge),
            0,
            Seq::empty(),
        ) == input_events(pointer, edges, 0, Seq::empty()),
{
    if input_events(pointer, edges, 0, Seq::empty()).1 is Ok {
        lemma_one_more_edge(pointer, edges, edge, 0, Seq::empty());
    } else {
        lemma_refused_edges(pointer, edges, edge, 0, Seq::empty());
    }
}

proof fn lemma_refused_edges(
    pointer: Pointer,
    edges: Seq<LegacyInputEdge>,
    edge: LegacyInputEdge,
    i: int,
    events: Seq<RfvpEvent>,
)
    requires
        0 <= i <= edges.len(),
        input_events(pointer, edges, i, events).1 is Err,
    ensures
        input_events(pointer, edges.push(edge), i, events) == input_events(
            pointer,
            edges,
            i,
            events,
        ),
    decreases edges.len() - i,
{
    let all = edges.push(edge);
    if i < edges.len() {
        assert(all[i] == edges[i]);
        if i > 0 {
            assert(all[i - 1] == edges[i - 1]);
        }
        let taken = edge_event(pointer, edges[i]);
        if !(i > 0 && edges[i].sequence <= edges[i - 1].sequence) && taken.1 is Ok {
            lemma_refused_edges(taken.0, edges, edge, i + 1, events.push(taken.1->Ok_0));
        }
    }
}

proof fn lemma_controls_differ()
    ensures
        "pointer.x"@ != "pointer.y"@,
        "pointer.x"@ != "wheel"@,
        "pointer.y"@ != "wheel"@,
        "pointer.primary"@ != "pointer.x"@,
        "pointer.primary"@ != "pointer.y"@,
        "pointer.primary"@ != "wheel"@,
        "pointer.secondary"@ != "pointer.x"@,
        "pointer.secondary"@ != "pointer.y"@,
        "pointer.secondary"@ != "wheel"@,
        "pointer.secondary"@ != "pointer.primary"@,
{
    reveal_strlit("pointer.x");
    reveal_strlit("pointer.y");
    reveal_strlit("wheel");
    reveal_strlit("pointer.primary");
    reveal_strlit("pointer.secondary");
    assert("pointer.x"@[8] != "pointer.y"@[8]);
    assert("pointer.x"@.len() == 9 && "pointer.y"@.len() == 9 && "wheel"@.len() == 5);
    assert("pointer.primary"@.len() == 15 && "pointer.secondary"@.len() == 17);
}

/// A step that is not the next one, or that has another seed or length than the session,
/// is refused; the next one of the same seed and length is taken in every mode that goes
/// on.
pub proof fn law_steps_follow_one_another(session: StepSession, input: LegacyStepInput)
    ensures
        step_fault(session, input) is None <==> {
            &&& input.tick_index == session.last_step + 1
            &&& input.session_seed == session.seed
            &&& input.delta_ns == session.fixed_delta_ns
            &&& !(input.mode is Unsupported)
        },
        input.tick_index != session.last_step + 1 ==> step_fault(session, input)->0.code
            == "ASTRA_FVP_STEP_SEQUENCE"@,
        input.tick_index == session.last_step + 1 && (input.session_seed != session.seed
            || input.delta_ns != session.fixed_delta_ns) ==> step_fault(session, input)->0.code
            == "ASTRA_FVP_STEP_IDENTITY"@,
{
}

/// Of the results of a step only those for movies count. The first of them ends the movie
/// that plays, if it bears the name of its wait and says that it completed; one that does
/// not is refused and ends the session. With no movie it is refused and the session goes
/// on.
pub proof fn law_movies_end_by_their_own_result(
    pending: Option<PendingMovie>,
    results: Seq<LegacyAwaitResult>,
    i: int,
    k: int,
)
    requires
        0 <= i <= k <= results.len(),
        forall|j: int|
            i <= j < k ==> !text::has_prefix((#[trigger] results[j]).token_id@, "fvp.movie."@),
    ensures
        k == results.len() ==> next_completion(pending, results, i) is Done,
        k < results.len() && text::has_prefix(results[k].token_id@, "fvp.movie."@) ==> {
            let answer = next_completion(pending, results, i);
            &&& answer == Completion::Movie(k) <==> {
                &&& pending is Some
                &&& results[k].token_id@ == pending->0.token_id
                &&& results[k].status@ == "completed"@
            }
            &&& answer != Completion::Movie(k) ==> answer is Refused && answer->Refused_1 == (
            pending is Some)
            &&& pending is None ==> answer->Refused_0.code
                == "ASTRA_FVP_MOVIE_COMPLETION_UNSOLICITED"@
            &&& pending is Some && results[k].token_id@ != pending->0.token_id
                ==> answer->Refused_0.code == "ASTRA_FVP_MOVIE_COMPLETION_IDENTITY"@
            &&& pending is Some && results[k].token_id@ == pending->0.token_id
                && results[k].status@ != "completed"@ ==> answer->Refused_0.code
                == "ASTRA_FVP_MOVIE_COMPLETION_STATUS"@
        },
    decreases k - i,
{
    if i < k {
        law_movies_end_by_their_own_result(pending, results, i + 1, k);
    }
}

proof fn lemma_one_more_sound(draft: DraftView, commands: Seq<AudioCommand>, more: AudioCommand, i: int)
    requires
        0 <= i <= commands.len(),
    ensures
        draft.with_sound(commands.push(more), i) == draft.with_sound(commands, i).with_audio(more),
    decreases commands.len() - i,
{
    let all = commands.push(more);
    if i < commands.len() {
        assert(all[i] == commands[i]);
        lemma_one_more_sound(draft.with_audio(commands[i]), commands, more, i + 1);
    } else {
        assert(all[i] == more);
        let next = draft.with_audio(more);
        assert(next.with_sound(all, i + 1) == next);
    }
}

/// One more piece of sound takes the next place of the live output and counts once.
/// Samples go out as a packet for their stream, as they are; anything else, and a
/// submission without samples, goes out as the command that it is. What went out before
/// stays.
pub proof fn law_sound_goes_out_as_it_is(
    draft: DraftView,
    commands: Seq<AudioCommand>,
    more: AudioCommand,
)
    requires
        draft.with_sound(commands, 0).sequence < u64::MAX,
        draft.with_sound(commands, 0).coverage.audio_commands < u64::MAX,
    ensures
        draft.with_sound(Seq::empty(), 0) == draft,
        ({
            let before = draft.with_sound(commands, 0);
            let after = draft.with_sound(commands.push(more), 0);
            let samples = match more {
                AudioCommand::SubmitI16 { stream_id, samples } => samples.len() > 0,
                AudioCommand::SubmitF32 { stream_id, samples } => samples.len() > 0,
                _ => false,
            };
            &&& after.sequence == before.sequence + 1
            &&& after.coverage.audio_commands == before.coverage.audio_commands + 1
            &&& after.coverage.text_events == before.coverage.text_events
            &&& after.coverage.presentation_commands == before.coverage.presentation_commands
            &&& after.coverage.pcm_moved_bytes == before.coverage.pcm_moved_bytes
            &&& after.coverage.pcm_copied_bytes == before.coverage.pcm_copied_bytes
            &&& after.live.layers == before.live.layers
            &&& after.live.video == before.live.video
            &&& after.waits == before.waits
            &&& after.diagnostics == before.diagnostics
            &&& after.video == before.video
            &&& after.text == before.text
            &&& after.frame_index == before.frame_index
            &&& after.visual_changed == before.visual_changed
            &&& !samples ==> {
                &&& after.live.audio == before.live.audio
                &&& after.live.audio_commands == before.live.audio_commands.push(
                    (before.sequence, more),
                )
            }
            &&& samples ==> {
                let packet = after.live.audio.last();
                &&& after.live.audio_commands == before.live.audio_commands
                &&& after.live.audio == before.live.audio.push(packet)
                &&& packet.sequence == before.sequence
                &&& packet.sample_rate == 0
                &&& packet.channels == 0
                &&& match more {
                    AudioCommand::SubmitI16 { stream_id, samples } => packet.stream_id == stream_id
                        && packet.pcm == PcmView::I16(samples),
                    AudioCommand::SubmitF32 { stream_id, samples } => packet.stream_id == stream_id
                        && packet.pcm == PcmView::F32(samples),
                    _ => true,
                }
            }
        }),
{
    lemma_one_more_sound(draft, commands, more, 0);
    let before = draft.with_sound(commands, 0);
    let after = draft.with_sound(commands.push(more), 0);
    if pcm_of(more) is Some {
        assert(before.live.audio.push(after.live.audio.last()) =~= after.live.audio);
    }
}

/// A step starts out with what the engine made and nothing sent: its diagnostics tell of
/// each record, by its event and level and without its text, and then, as a warning, of
/// lost records, if there are any.
pub proof fn law_step_starts_from_the_engine(session: StepSession, delta: FamilyDelta)
    ensures
        ({
            let draft = drafted(session, delta);
            let words = draft.diagnostics;
            &&& draft.frame_index == delta.frame_index
            &&& draft.visual_changed == delta.visual_changed
            &&& draft.sequence == session.next_live_sequence
            &&& draft.coverage.pcm_moved_bytes == delta.pcm_moved_bytes
            &&& draft.coverage.pcm_copied_bytes == delta.pcm_copied_bytes
            &&& draft.coverage.audio_commands == 0
            &&& draft.coverage.text_events == 0
            &&& draft.coverage.presentation_commands == 0
            &&& draft.waits.len() == 0
            &&& draft.live.audio.len() == 0
            &&& draft.live.audio_commands.len() == 0
            &&& draft.live.video.len() == 0
            &&& draft.live.layers.len() == 0
            &&& draft.text.len() == delta.text@.len()
            &&& draft.video.len() == delta.video@.len()
            &&& words.len() == delta.logs@.len() + if delta.log_dropped_count == 0 {
                0int
            } else {
                1
            }
            &&& delta.log_dropped_count > 0 ==> words.last().code == "rfvp.host.log_overflow"@
                && words.last().severity == "warn"@
            &&& forall|i: int|
                #![trigger words[i]]
                0 <= i < delta.logs@.len() ==> {
                    &&& words[i].code == delta.logs@[i].event.name()
                    &&& words[i].message == "hosted RFVP diagnostic"@
                    &&& delta.logs@[i].level is Error ==> words[i].severity == "error"@
                    &&& delta.logs@[i].level is Warn ==> words[i].severity == "warn"@
                    &&& delta.logs@[i].level is Info ==> words[i].severity == "info"@
                    &&& delta.logs@[i].level is Debug ==> words[i].severity == "debug"@
                    &&& delta.logs@[i].level is Trace ==> words[i].severity == "trace"@
                }
        }),
{
}

/// The layer of a planned surface is the one of the session in the size of its stage,
/// rows of four bytes a pixel, shown as it is: in its own size, at the origin, opaque. It
/// is damaged as a whole where it is drawn and not at all where it is not. It takes the
/// next place of the live output. A plan fails only where the generations or the length
/// of a row run out.
pub proof fn law_surface_shows_the_stage(session: StepSession, draft: DraftView)
    ensures
        surface_plan(session, draft) is Err <==> {
            ||| session.stage_width >= 0x4000_0000
            ||| session.surface_generation == u64::MAX && (draft.visual_changed
                || !session.layer_created)
        },
        surface_plan(session, draft) matches Ok(plan) ==> {
            let sent = plan.transaction;
            let layer = match sent.operation {
                LayerOperationView::Update(layer) => layer,
                LayerOperationView::Create(layer) => layer,
            };
            &&& sent.sequence == draft.sequence
            &&& sent.viewport_width == session.stage_width
            &&& sent.viewport_height == session.stage_height
            &&& layer.width == session.stage_width
            &&& layer.height == session.stage_height
            &&& layer.stride == 4 * layer.width
            &&& layer.generation == plan.generation
            &&& plan.changed ==> layer.damage is Full
            &&& !plan.changed ==> layer.damage is Unchanged
            &&& layer.layer_id == "fvp.main"@
            &&& layer.surface_id == "fvp.main"@
            &&& layer.role == "content"@
            &&& layer.z_index == 0
            &&& layer.format is Rgba8SrgbPremultiplied
            &&& layer.texture_filter is Linear
            &&& layer.blend is Opaque
            &&& crate::float::steps(layer.opacity) == crate::float::steps_of(1)
            &&& crate::float::steps(layer.transform.m11) == crate::float::steps_of(1)
            &&& crate::float::steps(layer.transform.m22) == crate::float::steps_of(1)
            &&& crate::float::steps(layer.transform.m12) == 0
            &&& crate::float::steps(layer.transform.m21) == 0
            &&& crate::float::steps(layer.transform.tx) == 0
            &&& crate::float::steps(layer.transform.ty) == 0
        },
{
    crate::float::lemma_one();
}

/// A planned surface is lent as it was asked for: the lease of the plan's generation, of
/// the session's size with rows of four bytes a pixel and in the one known format is
/// taken, and any other is refused, which ends the session.
pub proof fn law_lease_matches_the_plan(
    session: StepSession,
    draft: DraftView,
    lease: LegacySurfaceLeaseV9,
)
    requires
        surface_plan(session, draft) is Ok,
    ensures
        ({
            let plan = surface_plan(session, draft)->Ok_0;
            let fault = lease_fault(session, plan.generation, lease);
            &&& fault is None <==> {
                &&& lease.generation == plan.generation
                &&& lease.surface_id@ == "fvp.main"@
                &&& lease.width == session.stage_width
                &&& lease.height == session.stage_height
                &&& lease.stride == 4 * session.stage_width
                &&& lease.format is Rgba8SrgbPremultiplied
            }
            &&& fault matches Some((why, ends)) ==> ends && why.code == "ASTRA_FVP_SURFACE_LEASE"@
        }),
{
}

/// A presented layer goes out behind what went out before, under the next place, and
/// counts once.
pub proof fn law_layer_goes_out_once(draft: DraftView, sent: LayerTransactionView)
    requires
        draft.sequence < u64::MAX,
        draft.coverage.presentation_commands < u64::MAX,
    ensures
        ({
            let after = draft.presented(sent);
            &&& after.live.layers == draft.live.layers.push(sent)
            &&& after.live.audio == draft.live.audio
            &&& after.live.audio_commands == draft.live.audio_commands
            &&& after.live.video == draft.live.video
            &&& after.sequence == draft.sequence + 1
            &&& after.coverage.presentation_commands == draft.coverage.presentation_commands + 1
            &&& after.coverage.audio_commands == draft.coverage.audio_commands
            &&& after.coverage.text_events == draft.coverage.text_events
            &&& after.waits == draft.waits
            &&& after.diagnostics == draft.diagnostics
        }),
{
}

/// A movie that starts is the one of its command, and so is the wait of the step: under
/// the playback of the command, by a token that holds the number of the step. The command
/// takes the next place of the live output.
pub proof fn law_started_movie_is_the_commanded_one(
    session: StepSession,
    draft: DraftView,
    command: VideoCommand,
    tick_index: u64,
)
    requires
        session.pending_movie is None,
        draft.sequence < u64::MAX,
        draft.coverage.presentation_commands < u64::MAX,
    ensures
        ({
            let (after, sent, fault) = movies_started(session, draft, seq![command], tick_index, 0);
            let token = "fvp.movie."@ + text::decimal(tick_index as nat);
            &&& fault is None
            &&& after.pending_movie matches Some(movie) && movie.playback_id == command.playback_id
                && movie.resource_uri == command.resource_uri && movie.mode == command.mode
                && movie.stage_width == command.stage_width && movie.stage_height
                == command.stage_height && movie.token_id == token
            &&& sent.live.video == draft.live.video.push((draft.sequence, command))
            &&& sent.live.audio == draft.live.audio
            &&& sent.live.audio_commands == draft.live.audio_commands
            &&& sent.live.layers == draft.live.layers
            &&& sent.waits == draft.waits.push((token, command.playback_id))
            &&& sent.sequence == draft.sequence + 1
            &&& sent.coverage.presentation_commands == draft.coverage.presentation_commands + 1
            &&& sent.coverage.audio_commands == draft.coverage.audio_commands
            &&& sent.coverage.text_events == draft.coverage.text_events
            &&& sent.diagnostics == draft.diagnostics
            &&& after.last_step == session.last_step
            &&& after.surface_generation == session.surface_generation
            &&& after.layer_created == session.layer_created
            &&& after.state_revision == session.state_revision
            &&& after.next_live_sequence == session.next_live_sequence
            &&& after.pointer == session.pointer
        }),
{
    reveal_with_fuel(movies_started, 3);
}

/// The answer of a step holds all that the step sent out, and the state of the session
/// counts on by one. A session that came to its end is terminal; one that waits for
/// something is waiting; any other is active.
pub proof fn law_answer_holds_the_step(session: StepSession, draft: DraftView, terminal: bool)
    requires
        session.state_revision < u64::MAX,
    ensures
        ({
            let answer = output_of(session, draft, terminal);
            &&& answer.live == draft.live
            &&& answer.waits == draft.waits
            &&& answer.diagnostics == draft.diagnostics
            &&& answer.coverage == draft.coverage
            &&& answer.state_revision == session.state_revision + 1
            &&& answer.status is Terminal <==> terminal
            &&& answer.status is Awaiting <==> !terminal && draft.waits.len() > 0
            &&& answer.status is Active <==> !terminal && draft.waits.len() == 0
        }),
{
}

/// A companion's answer that cannot be read leaves the text and is warned of, once.
pub proof fn law_unread_translation_is_warned_of(draft: DraftView, content: Option<Seq<u8>>)
    ensures
        ({
            let (after, translation) = draft.after_response(content);
            let readable = content is Some && vstd::utf8::valid_utf8(content->0);
            &&& translation is Some <==> readable
            &&& after.live == draft.live
            &&& after.waits == draft.waits
            &&& after.sequence == draft.sequence
            &&& after.coverage == draft.coverage
            &&& after.text == draft.text
            &&& readable ==> after.diagnostics == draft.diagnostics
            &&& !readable ==> {
                &&& after.diagnostics.drop_last() == draft.diagnostics
                &&& after.diagnostics.len() == draft.diagnostics.len() + 1
                &&& after.diagnostics.last().severity == "warn"@
                &&& after.diagnostics.last().subject == "rfvp.translation"@
                &&& after.diagnostics.last().code == if content is None {
                    "ASTRA_FVP_HOOK_PROTOCOL"@
                } else {
                    "ASTRA_FVP_HOOK_UTF8"@
                }
            }
        }),
{
    let after = draft.after_response(content).0;
    if after.diagnostics.len() > draft.diagnostics.len() {
        assert(after.diagnostics.drop_last() =~= draft.diagnostics);
    }
}

/// What is said of a session is said of its own fields.
pub proof fn law_session_is_seen_as_it_is(session: FvpSession)
    ensures
        session@.last_step == session.last_step,
        session@.seed == session.seed,
        session@.fixed_delta_ns == session.fixed_delta_ns,
        session@.instruction_count == session.instruction_count,
        session@.syscall_count == session.syscall_count,
        session@.pointer == session.pointer,
        session@.stage_width == session.stage_width,
        session@.stage_height == session.stage_height,
        session@.state_revision == session.state_revision,
        session@.next_live_sequence == session.next_live_sequence,
        session@.poisoned == session.poisoned,
        session@.family_game_id == session.family_game_id@,
        session@.hook_timeout_ms == session.hook_timeout_ms,
        session@.surface_generation == session.surface_generation,
        session@.layer_created == session.layer_created,
{
}

/// What is said of a playing movie is said of its own fields.
pub proof fn law_movie_is_seen_as_it_is(movie: PendingMovieV1)
    ensures
        movie@.playback_id == movie.playback_id@,
        movie@.token_id == movie.token_id@,
        movie@.resource_uri == movie.resource_uri@,
        movie@.mode == movie.mode,
        movie@.stage_width == movie.stage_width,
        movie@.stage_height == movie.stage_height,
{
}

/// A session that is ended takes no further step and is otherwise what it was.
pub proof fn law_ended_session_keeps_its_state(session: StepSession)
    ensures
        session.poison().poisoned,
        session.poison().last_step == session.last_step,
        session.poison().pointer == session.pointer,
        session.poison().pending_movie == session.pending_movie,
        session.poison().state_revision == session.state_revision,
        session.poison().next_live_sequence == session.next_live_sequence,
        session.poison().surface_generation == session.surface_generation,
        session.poison().layer_created == session.layer_created,
        session.poison().seed == session.seed,
        session.poison().stage_width == session.stage_width,
        session.poison().stage_height == session.stage_height,
{
}

}
