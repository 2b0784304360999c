//! The order of a step.
//!
//! A step alternates between what the provider decides and what the engine, the
//! host and the boundary do. `StepRun` holds how far it has come. It says what has to
//! be done next and takes in what came of it, until the step is over or has failed.

use vstd::prelude::*;

use crate::adapters::{AudioCommand, ConvertedAudio};
use crate::family::{
    InvocationView, LegacyHookInvocationV1, LegacyHookResultV1, LegacyStepInput, LegacyStepOutput,
    LegacySurfaceDamageV9, LegacySurfaceFormatV9, LegacySurfaceLeaseV9, LegacySurfaceRequestV9,
    OutputView,
};
use crate::fault::{Fault, LegacyProviderError};
use crate::host_api::RfvpEvent;
use crate::session::HostedStepInput;
use crate::step::{
    Completion, DraftView, EngineStep, FvpSession, PlanView, StepDraft, StepSession, SurfacePlan,
};
use crate::text;

verus! {

/// What a step is called with.
#[derive(Debug)]
pub struct StepCall {
    pub session_id: String,
    /// The hook that translates texts.
    pub hook_id: String,
    pub input: LegacyStepInput,
}

/// What has to be done next.
#[derive(Debug)]
pub enum StepAction {
    /// The engine ends its movie.
    CompleteMovie,
    /// The engine runs.
    RunEngine { delta_ns: u64, input: HostedStepInput },
    /// The boundary judges the sound commands of the phase.
    JudgeAudio,
    /// The boundary judges the sound packets of the draft.
    JudgePackets,
    /// The companion is asked for a translation.
    Translate { call: LegacyHookInvocationV1 },
    /// The engine shows another text.
    ReplaceText { slot: u8, text: String },
    /// The boundary judges the layer transaction of the plan.
    JudgeLayer,
    /// The host lends a surface.
    AcquireSurface { request: LegacySurfaceRequestV9 },
    /// The engine draws on the lent surface.
    Render { lease: LegacySurfaceLeaseV9 },
    /// The host takes the surface back.
    Commit { damage: LegacySurfaceDamageV9 },
    /// The boundary judges the movie commands of the draft.
    JudgeVideo,
    /// The engine tells whether the title has ended.
    AskTerminal,
    /// The boundary judges the answer.
    JudgeOutput { output: LegacyStepOutput },
    /// Nothing: the step is over.
    Finished,
}

/// What came of an action.
#[derive(Debug)]
pub enum StepEvent {
    MovieCompleted(Result<(), String>),
    EngineRan(EngineStep),
    AudioJudged(Vec<Option<String>>),
    PacketsJudged(Result<(), LegacyProviderError>),
    Answered(Result<LegacyHookResultV1, LegacyProviderError>),
    TextReplaced(Result<(), String>),
    LayerJudged(Result<(), LegacyProviderError>),
    Leased(Result<LegacySurfaceLeaseV9, LegacyProviderError>),
    Rendered(Result<(), String>),
    Committed(Result<(), LegacyProviderError>),
    VideoJudged(Vec<Option<String>>),
    Terminal(Result<bool, String>),
    OutputJudged(Result<(), LegacyProviderError>),
}

/// What a step waits for.
#[derive(Debug)]
pub enum StepPhase {
    /// The engine ends the movie that the result at this place is about.
    Movie { at: usize },
    Engine,
    Audio { draft: StepDraft, audio: ConvertedAudio },
    Packets { draft: StepDraft },
    /// The companion answers for the text at this place.
    Answer { draft: StepDraft, at: usize },
    /// The engine replaces the text at this place.
    Replacing { draft: StepDraft, at: usize },
    Layer { draft: StepDraft, plan: SurfacePlan },
    Lease { draft: StepDraft, plan: SurfacePlan },
    Drawing { draft: StepDraft, plan: SurfacePlan },
    Committing { draft: StepDraft, plan: SurfacePlan },
    Video { draft: StepDraft },
    End { draft: StepDraft },
    /// The boundary judges the answer; the next step's output goes on at this place.
    Output { next: u64 },
    Over,
}

// --------------------------------------------------------------------- the model

/// The surface that a step asks for.
#[verifier::ext_equal]
pub struct RequestView {
    pub session_id: Seq<char>,
    pub tick_index: u64,
    pub surface_id: Seq<char>,
    pub width: u32,
    pub height: u32,
    pub format: LegacySurfaceFormatV9,
}

impl LegacySurfaceRequestV9 {
    pub open spec fn view(&self) -> RequestView {
        RequestView {
            session_id: self.session_id@,
            tick_index: self.tick_index,
            surface_id: self.surface_id@,
            width: self.width,
            height: self.height,
            format: self.format,
        }
    }
}

#[verifier::ext_equal]
pub enum ActionView {
    CompleteMovie,
    RunEngine(u64, Seq<RfvpEvent>),
    JudgeAudio,
    JudgePackets,
    Translate(InvocationView),
    ReplaceText(u8, Seq<char>),
    JudgeLayer,
    AcquireSurface(RequestView),
    Render(LegacySurfaceLeaseV9),
    Commit(LegacySurfaceDamageV9),
    JudgeVideo,
    AskTerminal,
    JudgeOutput(OutputView),
    Finished,
}

impl StepAction {
    pub open spec fn view(&self) -> ActionView {
        match *self {
            StepAction::CompleteMovie => ActionView::CompleteMovie,
            StepAction::RunEngine { delta_ns, input } => {
                ActionView::RunEngine(delta_ns, input.events@)
            },
            StepAction::JudgeAudio => ActionView::JudgeAudio,
            StepAction::JudgePackets => ActionView::JudgePackets,
            StepAction::Translate { call } => ActionView::Translate(call@),
            StepAction::ReplaceText { slot, text } => ActionView::ReplaceText(slot, text@),
            StepAction::JudgeLayer => ActionView::JudgeLayer,
            StepAction::AcquireSurface { request } => ActionView::AcquireSurface(request@),
            StepAction::Render { lease } => ActionView::Render(lease),
            StepAction::Commit { damage } => ActionView::Commit(damage),
            StepAction::JudgeVideo => ActionView::JudgeVideo,
            StepAction::AskTerminal => ActionView::AskTerminal,
            StepAction::JudgeOutput { output } => ActionView::JudgeOutput(output@),
            StepAction::Finished => ActionView::Finished,
        }
    }
}

#[verifier::ext_equal]
pub enum PhaseView {
    Movie(int),
    Engine,
    Audio(DraftView, (Seq<AudioCommand>, bool)),
    Packets(DraftView),
    Answer(DraftView, int),
    Replacing(DraftView, int),
    Layer(DraftView, PlanView),
    Lease(DraftView, PlanView),
    Drawing(DraftView, PlanView),
    Committing(DraftView, PlanView),
    Video(DraftView),
    End(DraftView),
    Output(u64),
    Over,
}

impl StepPhase {
    pub open spec fn view(&self) -> PhaseView {
        match *self {
            StepPhase::Movie { at } => PhaseView::Movie(at as int),
            StepPhase::Engine => PhaseView::Engine,
            StepPhase::Audio { draft, audio } => PhaseView::Audio(draft@, audio@),
            StepPhase::Packets { draft } => PhaseView::Packets(draft@),
            StepPhase::Answer { draft, at } => PhaseView::Answer(draft@, at as int),
            StepPhase::Replacing { draft, at } => PhaseView::Replacing(draft@, at as int),
            StepPhase::Layer { draft, plan } => PhaseView::Layer(draft@, plan@),
            StepPhase::Lease { draft, plan } => PhaseView::Lease(draft@, plan@),
            StepPhase::Drawing { draft, plan } => PhaseView::Drawing(draft@, plan@),
            StepPhase::Committing { draft, plan } => PhaseView::Committing(draft@, plan@),
            StepPhase::Video { draft } => PhaseView::Video(draft@),
            StepPhase::End { draft } => PhaseView::End(draft@),
            StepPhase::Output { next } => PhaseView::Output(next),
            StepPhase::Over => PhaseView::Over,
        }
    }
}

/// A session and where its step goes from there: the next phase with its action, or
/// the failure of the step.
#[verifier::ext_equal]
pub struct Turn {
    pub session: StepSession,
    pub next: Result<(PhaseView, ActionView), Fault>,
}

pub open spec fn goes_on(session: StepSession, phase: PhaseView, action: ActionView) -> Turn {
    Turn { session, next: Ok((phase, action)) }
}

pub open spec fn fails(session: StepSession, fault: Fault) -> Turn {
    Turn { session, next: Err(fault) }
}

/// The input goes to the engine.
pub open spec fn to_engine(session: StepSession, call: StepCall) -> Turn {
    match crate::step::step_fault(session, call.input) {
        Some(f) => fails(session, f),
        None => {
            let taken = crate::step::input_events(
                session.pointer,
                call.input.input_edges@,
                0,
                Seq::empty(),
            );
            let moved = StepSession { pointer: taken.0, ..session };
            match taken.1 {
                Ok(events) => goes_on(
                    moved,
                    PhaseView::Engine,
                    ActionView::RunEngine(call.input.delta_ns, events),
                ),
                Err(f) => fails(moved, f),
            }
        },
    }
}

/// The results from `from` on are taken in.
pub open spec fn to_results(session: StepSession, call: StepCall, from: int) -> Turn {
    match crate::step::next_completion(session.pending_movie, call.input.await_results@, from) {
        Completion::Movie(i) => goes_on(session, PhaseView::Movie(i), ActionView::CompleteMovie),
        Completion::Done => to_engine(session, call),
        Completion::Refused(f, ends) => fails(
            if ends {
                session.poison()
            } else {
                session
            },
            f,
        ),
    }
}

/// The draft of which one text more was offered.
pub open spec fn offered(draft: DraftView) -> DraftView {
    DraftView {
        coverage: crate::family::LegacyCoverageDelta {
            text_events: crate::step::bumped(draft.coverage.text_events),
            ..draft.coverage
        },
        ..draft
    }
}

/// The call that offers the text at `i`.
pub open spec fn offer(session: StepSession, call: StepCall, draft: DraftView, i: int) -> InvocationView {
    InvocationView {
        session_id: call.session_id@,
        invocation_id: "fvp.translation."@ + text::decimal(call.input.tick_index as nat) + "."@
            + text::decimal(i as nat),
        family_id: crate::FVP_FAMILY_ID@,
        family_game_id: session.family_game_id,
        hook_id: call.hook_id@,
        timeout_ms: session.hook_timeout_ms,
        payload: crate::step::message_bytes(vstd::utf8::encode_utf8(draft.text[i].1)),
    }
}

/// The surface is planned.
pub open spec fn to_surface(session: StepSession, draft: DraftView) -> Turn {
    match crate::step::surface_plan(session, draft) {
        Err(f) => fails(session, f),
        Ok(plan) => goes_on(session, PhaseView::Layer(draft, plan), ActionView::JudgeLayer),
    }
}

/// The texts from `i` on are offered for translation.
pub open spec fn to_texts(session: StepSession, call: StepCall, draft: DraftView, i: int) -> Turn {
    if i < draft.text.len() {
        goes_on(
            session,
            PhaseView::Answer(offered(draft), i),
            ActionView::Translate(offer(session, call, draft, i)),
        )
    } else {
        to_surface(session, draft)
    }
}

/// The surface shows the step.
pub open spec fn to_movies(session: StepSession, draft: DraftView, plan: PlanView) -> Turn {
    if draft.sequence == u64::MAX {
        fails(
            session,
            crate::fault::fault("ASTRA_FVP_LIVE_SEQUENCE", "live sequence overflowed"),
        )
    } else {
        goes_on(
            StepSession {
                surface_generation: plan.generation,
                layer_created: true,
                ..session
            },
            PhaseView::Video(draft.presented(plan.transaction)),
            ActionView::JudgeVideo,
        )
    }
}

/// The surface that a step of this session draws on.
pub open spec fn wanted_surface(session: StepSession, call: StepCall) -> RequestView {
    RequestView {
        session_id: call.session_id@,
        tick_index: call.input.tick_index,
        surface_id: "fvp.main"@,
        width: session.stage_width,
        height: session.stage_height,
        format: LegacySurfaceFormatV9::Rgba8SrgbPremultiplied,
    }
}

/// Where a step goes with the companion's answer for the text at `i`.
pub open spec fn answered(
    session: StepSession,
    call: StepCall,
    draft: DraftView,
    i: int,
    reply: Result<LegacyHookResultV1, LegacyProviderError>,
) -> Turn {
    match reply {
        Err(e) => to_texts(
            session,
            call,
            draft.warned(
                e@.code,
                "translation Hook failed; RFVP retained the original text"@,
            ),
            i + 1,
        ),
        Ok(result) => {
            let noted = draft.noted(crate::family::diagnostic_views(result.diagnostics@));
            if result.completed {
                let read = noted.after_response(
                    crate::step::message_content(result.payload@),
                );
                match read.1 {
                    Some(text) => goes_on(
                        session,
                        PhaseView::Replacing(read.0, i),
                        ActionView::ReplaceText(draft.text[i].0, text),
                    ),
                    None => to_texts(session, call, read.0, i + 1),
                }
            } else {
                to_texts(session, call, noted, i + 1)
            }
        },
    }
}

/// Whether an event is what a phase waits for; commands are judged one by one.
pub open spec fn awaits(phase: PhaseView, event: StepEvent) -> bool {
    match phase {
        PhaseView::Movie(_) => event is MovieCompleted,
        PhaseView::Engine => event is EngineRan,
        PhaseView::Audio(_, audio) => event matches StepEvent::AudioJudged(verdicts)
            && verdicts@.len() == audio.0.len(),
        PhaseView::Packets(_) => event is PacketsJudged,
        PhaseView::Answer(draft, i) => event is Answered && 0 <= i < draft.text.len(),
        PhaseView::Replacing(draft, i) => event is TextReplaced && 0 <= i < draft.text.len(),
        PhaseView::Layer(_, _) => event is LayerJudged,
        PhaseView::Lease(_, _) => event is Leased,
        PhaseView::Drawing(_, _) => event is Rendered,
        PhaseView::Committing(_, _) => event is Committed,
        PhaseView::Video(draft) => event matches StepEvent::VideoJudged(verdicts)
            && verdicts@.len() == draft.video.len(),
        PhaseView::End(_) => event is Terminal,
        PhaseView::Output(_) => event is OutputJudged,
        PhaseView::Over => false,
    }
}

/// Where a step in `phase` goes with `event`.
pub open spec fn turns(
    phase: PhaseView,
    session: StepSession,
    call: StepCall,
    event: StepEvent,
    turn: Turn,
) -> bool {
    match (phase, event) {
        (PhaseView::Movie(i), StepEvent::MovieCompleted(outcome)) => turn == match outcome {
            Ok(_) => to_results(StepSession { pending_movie: None, ..session }, call, i + 1),
            Err(text) => fails(
                session.poison(),
                Fault { code: "ASTRA_FVP_MOVIE_COMPLETION"@, message: text@ },
            ),
        },
        (PhaseView::Engine, StepEvent::EngineRan(outcome)) => turn == match outcome {
            EngineStep::Done(delta) => goes_on(
                StepSession { last_step: call.input.tick_index, ..session },
                PhaseView::Audio(
                    crate::step::drafted(session, delta),
                    crate::adapters::converted(crate::recording::audio_ops(delta.audio@)),
                ),
                ActionView::JudgeAudio,
            ),
            EngineStep::Failed(text) => fails(
                session.poison(),
                Fault { code: "ASTRA_FVP_STEP_FAILED"@, message: text@ },
            ),
            EngineStep::Panicked => fails(
                session.poison(),
                crate::fault::fault(
                    "ASTRA_FVP_STEP_PANIC",
                    "rfvp runtime panicked; session is poisoned",
                ),
            ),
        },
        (PhaseView::Audio(draft, audio), StepEvent::AudioJudged(verdicts)) => turn
            == match crate::adapters::audio_verdict(audio, verdicts@, 0) {
            Ok(commands) => goes_on(
                session,
                PhaseView::Packets(draft.with_sound(commands, 0)),
                ActionView::JudgePackets,
            ),
            Err(f) => fails(session, Fault { code: "ASTRA_FVP_AUDIO_DELTA"@, message: f.line() }),
        },
        (PhaseView::Packets(draft), StepEvent::PacketsJudged(verdict)) => turn == match verdict {
            Ok(_) => to_texts(session, call, draft, 0),
            Err(e) => fails(session, e@),
        },
        (PhaseView::Answer(draft, i), StepEvent::Answered(reply)) => turn == answered(
            session,
            call,
            draft,
            i,
            reply,
        ),
        (PhaseView::Replacing(draft, i), StepEvent::TextReplaced(outcome)) => turn == match outcome {
            Ok(_) => to_texts(session, call, draft, i + 1),
            Err(error) => to_texts(
                session,
                call,
                draft.warned(
                    "ASTRA_FVP_TRANSLATION_LAYOUT"@,
                    "translated text was rejected by RFVP layout: "@ + error@,
                ),
                i + 1,
            ),
        },
        (PhaseView::Layer(draft, plan), StepEvent::LayerJudged(verdict)) => turn == match verdict {
            Err(e) => fails(session, e@),
            Ok(_) => if plan.changed {
                goes_on(
                    session,
                    PhaseView::Lease(draft, plan),
                    ActionView::AcquireSurface(wanted_surface(session, call)),
                )
            } else {
                to_movies(session, draft, plan)
            },
        },
        (PhaseView::Lease(draft, plan), StepEvent::Leased(reply)) => turn == match reply {
            Err(e) => fails(session, e@),
            Ok(lease) => match crate::step::lease_fault(session, plan.generation, lease) {
                Some(f) => fails(
                    if f.1 {
                        session.poison()
                    } else {
                        session
                    },
                    f.0,
                ),
                None => goes_on(session, PhaseView::Drawing(draft, plan), ActionView::Render(lease)),
            },
        },
        (PhaseView::Drawing(draft, plan), StepEvent::Rendered(outcome)) => turn == match outcome {
            Ok(_) => goes_on(
                session,
                PhaseView::Committing(draft, plan),
                ActionView::Commit(LegacySurfaceDamageV9::Full),
            ),
            Err(text) => fails(
                session,
                Fault { code: "ASTRA_FVP_SURFACE_RENDER"@, message: text@ },
            ),
        },
        (PhaseView::Committing(draft, plan), StepEvent::Committed(verdict)) => turn == match verdict {
            Ok(_) => to_movies(session, draft, plan),
            Err(e) => fails(session, e@),
        },
        (PhaseView::Video(draft), StepEvent::VideoJudged(verdicts)) => turn
            == match crate::adapters::video_verdict(
            draft.frame_index,
            draft.video,
            verdicts@,
            0,
            Seq::empty(),
        ) {
            Err(f) => fails(session, Fault { code: "ASTRA_FVP_VIDEO_DELTA"@, message: f.line() }),
            Ok(commands) => {
                let started = crate::step::movies_started(
                    session,
                    draft,
                    commands,
                    call.input.tick_index,
                    0,
                );
                match started.2 {
                    None => goes_on(started.0, PhaseView::End(started.1), ActionView::AskTerminal),
                    Some(f) => fails(started.0, f),
                }
            },
        },
        (PhaseView::End(draft), StepEvent::Terminal(terminal)) => turn == match terminal {
            Err(text) => fails(
                session.poison(),
                Fault { code: "ASTRA_FVP_STATE"@, message: text@ },
            ),
            Ok(ended) => if session.state_revision == u64::MAX {
                fails(
                    session.poison(),
                    crate::fault::fault("ASTRA_FVP_STATE_REVISION", "state revision overflowed"),
                )
            } else {
                goes_on(
                    StepSession {
                        state_revision: (session.state_revision + 1) as u64,
                        ..session
                    },
                    PhaseView::Output(draft.sequence),
                    ActionView::JudgeOutput(crate::step::output_of(session, draft, ended)),
                )
            },
        },
        (PhaseView::Output(next), StepEvent::OutputJudged(verdict)) => turn == match verdict {
            Ok(_) => goes_on(
                StepSession { next_live_sequence: next, ..session },
                PhaseView::Over,
                ActionView::Finished,
            ),
            Err(e) => fails(session, e@),
        },
        _ => false,
    }
}

// ---------------------------------------------------------------------- the code

/// How far a step has come.
#[derive(Debug)]
pub struct StepRun {
    pub phase: StepPhase,
}

/// The turn that a session and a result stand for.
pub open spec fn turn_of(
    session: StepSession,
    r: Result<(StepRun, StepAction), LegacyProviderError>,
) -> Turn {
    Turn {
        session,
        next: match r {
            Ok(next) => Ok((next.0.phase@, next.1@)),
            Err(e) => Err(e@),
        },
    }
}

impl StepRun {
    /// The result or text in hand is one of the step's.
    pub open spec fn wf(&self, call: StepCall) -> bool {
        match self.phase {
            StepPhase::Movie { at } => at < call.input.await_results@.len(),
            StepPhase::Answer { draft, at } => at < draft@.text.len(),
            StepPhase::Replacing { draft, at } => at < draft@.text.len(),
            _ => true,
        }
    }

    /// Starts a step of `session`.
    pub fn begin(call: &StepCall, session: &mut FvpSession) -> (r: Result<
        (Self, StepAction),
        LegacyProviderError,
    >)
        ensures
            r is Ok ==> r->Ok_0.0.wf(*call),
            turn_of(final(session)@, r) == to_results(old(session)@, *call, 0),
    {
        Self::results(call, session, 0)
    }

    fn results(call: &StepCall, session: &mut FvpSession, from: usize) -> (r: Result<
        (Self, StepAction),
        LegacyProviderError,
    >)
        ensures
            r is Ok ==> r->Ok_0.0.wf(*call),
            turn_of(final(session)@, r) == to_results(old(session)@, *call, from as int),
    {
        let total: usize = call.input.await_results.len();
        assert(total == call.input.await_results@.len());
        match session.take_results(&call.input.await_results, from) {
            Err(e) => Err(e),
            Ok(Some(at)) => Ok((StepRun { phase: StepPhase::Movie { at } }, StepAction::CompleteMovie)),
            Ok(None) => match session.begin_step(&call.input) {
                Err(e) => Err(e),
                Ok(input) => Ok(
                    (
                        StepRun { phase: StepPhase::Engine },
                        StepAction::RunEngine { delta_ns: call.input.delta_ns, input },
                    ),
                ),
            },
        }
    }

    fn texts(call: &StepCall, session: &FvpSession, draft: StepDraft, from: usize) -> (r: Result<
        (Self, StepAction),
        LegacyProviderError,
    >)
        ensures
            r is Ok ==> r->Ok_0.0.wf(*call),
            turn_of(session@, r) == to_texts(session@, *call, draft@, from as int),
    {
        let mut draft = draft;
        if from < draft.text.len() {
            let ghost before = draft@;
            assert(before.text.len() == draft.text@.len());
            match draft.translation_request(
                session,
                call.session_id.as_str(),
                call.input.tick_index,
                from,
                call.hook_id.as_str(),
            ) {
                Err(e) => Err(e),
                Ok(invocation) => {
                    assert(draft@ =~= offered(before));
                    Ok(
                        (
                            StepRun { phase: StepPhase::Answer { draft, at: from } },
                            StepAction::Translate { call: invocation },
                        ),
                    )
                },
            }
        } else {
            assert(draft@.text.len() == draft.text@.len());
            match session.plan_surface(&draft) {
                Err(e) => Err(e),
                Ok(plan) => Ok(
                    (StepRun { phase: StepPhase::Layer { draft, plan } }, StepAction::JudgeLayer),
                ),
            }
        }
    }

    fn presented(call: &StepCall, session: &mut FvpSession, draft: StepDraft, plan: SurfacePlan) -> (r: Result<
        (Self, StepAction),
        LegacyProviderError,
    >)
        ensures
            r is Ok ==> r->Ok_0.0.wf(*call),
            turn_of(final(session)@, r) == to_movies(old(session)@, draft@, plan@),
    {
        let mut draft = draft;
        match session.surface_presented(&mut draft, plan) {
            Err(e) => Err(e),
            Ok(_) => Ok((StepRun { phase: StepPhase::Video { draft } }, StepAction::JudgeVideo)),
        }
    }

    fn answer(
        call: &StepCall,
        session: &FvpSession,
        draft: StepDraft,
        at: usize,
        reply: Result<LegacyHookResultV1, LegacyProviderError>,
    ) -> (r: Result<(Self, StepAction), LegacyProviderError>)
        requires
            at < draft@.text.len(),
        ensures
            r is Ok ==> r->Ok_0.0.wf(*call),
            turn_of(session@, r) == answered(session@, *call, draft@, at as int, reply),
    {
        let mut draft = draft;
        let ghost before = draft@;
        assert(before.text.len() == draft.text@.len());
        let total: usize = draft.text.len();
        assert(at < total);
        let slot: u8 = draft.text[at].slot;
        let translation = draft.accept_reply(reply);
        assert(draft@.text == before.text);
        match translation {
            Some(text) => Ok(
                (
                    StepRun { phase: StepPhase::Replacing { draft, at } },
                    StepAction::ReplaceText { slot, text },
                ),
            ),
            None => Self::texts(call, session, draft, at + 1),
        }
    }

    /// Takes in what came of the last action: the next phase with its action, or the
    /// failure of the step.
    pub fn advance(self, call: &StepCall, session: &mut FvpSession, event: StepEvent) -> (r: Result<
        (Self, StepAction),
        LegacyProviderError,
    >)
        requires
            self.wf(*call),
            awaits(self.phase@, event),
        ensures
            r is Ok ==> r->Ok_0.0.wf(*call),
            turns(self.phase@, old(session)@, *call, event, turn_of(final(session)@, r)),
    {
        match (self.phase, event) {
            (StepPhase::Movie { at }, StepEvent::MovieCompleted(outcome)) => {
                let total: usize = call.input.await_results.len();
                assert(at < total);
                match session.movie_completed(outcome) {
                    Err(e) => Err(e),
                    Ok(_) => Self::results(call, session, at + 1),
                }
            },
            (StepPhase::Engine, StepEvent::EngineRan(outcome)) => {
                match session.ticked(call.input.tick_index, outcome) {
                    Err(e) => Err(e),
                    Ok((draft, audio)) => Ok(
                        (
                            StepRun { phase: StepPhase::Audio { draft, audio } },
                            StepAction::JudgeAudio,
                        ),
                    ),
                }
            },
            (StepPhase::Audio { draft, audio }, StepEvent::AudioJudged(verdicts)) => {
                let mut draft = draft;
                match draft.accept_audio(audio, &verdicts) {
                    Err(e) => Err(e),
                    Ok(_) => Ok(
                        (StepRun { phase: StepPhase::Packets { draft } }, StepAction::JudgePackets),
                    ),
                }
            },
            (StepPhase::Packets { draft }, StepEvent::PacketsJudged(verdict)) => match verdict {
                Err(e) => Err(e),
                Ok(_) => Self::texts(call, session, draft, 0),
            },
            (StepPhase::Answer { draft, at }, StepEvent::Answered(reply)) => {
                Self::answer(call, session, draft, at, reply)
            },
            (StepPhase::Replacing { draft, at }, StepEvent::TextReplaced(outcome)) => {
                let mut draft = draft;
                let total: usize = draft.text.len();
                assert(at < total == draft@.text.len());
                match outcome {
                    Err(error) => draft.translation_refused(error.as_str()),
                    Ok(_) => {},
                }
                Self::texts(call, session, draft, at + 1)
            },
            (StepPhase::Layer { draft, plan }, StepEvent::LayerJudged(verdict)) => match verdict {
                Err(e) => Err(e),
                Ok(_) => if plan.changed {
                    let request = session.surface_request(
                        call.session_id.as_str(),
                        call.input.tick_index,
                    );
                    Ok(
                        (
                            StepRun { phase: StepPhase::Lease { draft, plan } },
                            StepAction::AcquireSurface { request },
                        ),
                    )
                } else {
                    Self::presented(call, session, draft, plan)
                },
            },
            (StepPhase::Lease { draft, plan }, StepEvent::Leased(reply)) => match reply {
                Err(e) => Err(e),
                Ok(lease) => match session.check_lease(&plan, &lease) {
                    Err(e) => Err(e),
                    Ok(_) => Ok(
                        (
                            StepRun { phase: StepPhase::Drawing { draft, plan } },
                            StepAction::Render { lease },
                        ),
                    ),
                },
            },
            (StepPhase::Drawing { draft, plan }, StepEvent::Rendered(outcome)) => match outcome {
                Err(text) => Err(crate::step::render_failure(text.as_str())),
                Ok(_) => Ok(
                    (
                        StepRun { phase: StepPhase::Committing { draft, plan } },
                        StepAction::Commit { damage: LegacySurfaceDamageV9::Full },
                    ),
                ),
            },
            (StepPhase::Committing { draft, plan }, StepEvent::Committed(verdict)) => match verdict {
                Err(e) => Err(e),
                Ok(_) => Self::presented(call, session, draft, plan),
            },
            (StepPhase::Video { draft }, StepEvent::VideoJudged(verdicts)) => {
                let mut draft = draft;
                match session.start_movies(&mut draft, call.input.tick_index, &verdicts) {
                    Err(e) => Err(e),
                    Ok(_) => Ok(
                        (StepRun { phase: StepPhase::End { draft } }, StepAction::AskTerminal),
                    ),
                }
            },
            (StepPhase::End { draft }, StepEvent::Terminal(terminal)) => {
                match session.finish_step(draft, terminal) {
                    Err(e) => Err(e),
                    Ok((output, next)) => Ok(
                        (
                            StepRun { phase: StepPhase::Output { next } },
                            StepAction::JudgeOutput { output },
                        ),
                    ),
                }
            },
            (StepPhase::Output { next }, StepEvent::OutputJudged(verdict)) => match verdict {
                Err(e) => Err(e),
                Ok(_) => {
                    session.commit_step(next);
                    Ok((StepRun { phase: StepPhase::Over }, StepAction::Finished))
                },
            },
            _ => vstd::pervasive::unreached(),
        }
    }
}

// -------------------------------------------------------------------------- laws

/// What no part of a step changes.
pub open spec fn same_identity(a: StepSession, b: StepSession) -> bool {
    &&& a.seed == b.seed
    &&& a.fixed_delta_ns == b.fixed_delta_ns
    &&& a.instruction_count == b.instruction_count
    &&& a.syscall_count == b.syscall_count
    &&& a.stage_width == b.stage_width
    &&& a.stage_height == b.stage_height
    &&& a.family_game_id == b.family_game_id
    &&& a.hook_timeout_ms == b.hook_timeout_ms
}

/// What starting movies leaves as it is.
proof fn lemma_movies_keep(
    session: StepSession,
    draft: DraftView,
    commands: Seq<crate::adapters::VideoCommand>,
    tick_index: u64,
    i: int,
)
    ensures
        ({
            let started = crate::step::movies_started(session, draft, commands, tick_index, i);
            &&& same_identity(session, started.0)
            &&& session.poisoned ==> started.0.poisoned
            &&& started.0.last_step == session.last_step
            &&& started.0.state_revision == session.state_revision
            &&& started.0.next_live_sequence == session.next_live_sequence
            &&& started.0.surface_generation == session.surface_generation
            &&& started.0.layer_created == session.layer_created
        }),
    decreases commands.len() - i,
{
    if i < commands.len() && session.pending_movie is None {
        lemma_movies_keep(
            StepSession {
                pending_movie: Some(crate::step::started_movie(commands[i], tick_index)),
                ..session
            },
            draft.with_movie(commands[i], tick_index),
            commands,
            tick_index,
            i + 1,
        );
    }
}

/// A step changes of its session only what it is about. Who the session is stays; a
/// session that has ended stays so; the count of steps moves when the engine ran, the
/// revision when the answer is closed, the generation of the surface when it shows
/// the step, and the place of the live output when the boundary took the answer.
pub proof fn law_turn_changes(
    phase: PhaseView,
    session: StepSession,
    call: StepCall,
    event: StepEvent,
    turn: Turn,
)
    requires
        turns(phase, session, call, event, turn),
    ensures
        same_identity(session, turn.session),
        session.poisoned ==> turn.session.poisoned,
        turn.session.last_step != session.last_step ==> phase is Engine && turn.next is Ok
            && turn.session.last_step == call.input.tick_index,
        turn.session.state_revision != session.state_revision ==> phase is End && turn.next is Ok
            && turn.session.state_revision == session.state_revision + 1,
        turn.session.next_live_sequence != session.next_live_sequence ==> phase is Output
            && turn.next is Ok,
        turn.session.surface_generation != session.surface_generation ==> (phase is Layer
            || phase is Committing) && turn.next is Ok,
{
    match (phase, event) {
        (PhaseView::Video(draft), StepEvent::VideoJudged(verdicts)) => {
            let verdict = crate::adapters::video_verdict(
                draft.frame_index,
                draft.video,
                verdicts@,
                0,
                Seq::empty(),
            );
            if verdict is Ok {
                lemma_movies_keep(session, draft, verdict->Ok_0, call.input.tick_index, 0);
            }
        },
        _ => {},
    }
}

proof fn lemma_completion_place(
    pending: Option<crate::step::PendingMovie>,
    results: Seq<crate::family::LegacyAwaitResult>,
    i: int,
)
    ensures
        crate::step::next_completion(pending, results, i) matches Completion::Movie(k) ==> i <= k
            < results.len(),
    decreases results.len() - i,
{
    if i < results.len() {
        lemma_completion_place(pending, results, i + 1);
    }
}

/// How much of a step is ahead: the parts, and within a part the results or texts.
pub open spec fn ahead(phase: PhaseView, call: StepCall) -> (int, int) {
    match phase {
        PhaseView::Movie(i) => (11, call.input.await_results@.len() - i),
        PhaseView::Engine => (10, 0),
        PhaseView::Audio(_, _) => (9, 0),
        PhaseView::Packets(_) => (8, 0),
        PhaseView::Answer(draft, i) => (7, 2 * (draft.text.len() - i)),
        PhaseView::Replacing(draft, i) => (7, 2 * (draft.text.len() - i) - 1),
        PhaseView::Layer(_, _) => (6, 0),
        PhaseView::Lease(_, _) => (5, 0),
        PhaseView::Drawing(_, _) => (4, 0),
        PhaseView::Committing(_, _) => (3, 0),
        PhaseView::Video(_) => (2, 0),
        PhaseView::End(_) => (1, 0),
        PhaseView::Output(_) => (0, 1),
        PhaseView::Over => (0, 0),
    }
}

/// A step comes to an end: each turn that goes on leaves less ahead.
pub proof fn law_step_ends(
    phase: PhaseView,
    session: StepSession,
    call: StepCall,
    event: StepEvent,
    turn: Turn,
)
    requires
        awaits(phase, event),
        phase is Movie ==> phase->Movie_0 < call.input.await_results@.len(),
        turns(phase, session, call, event, turn),
    ensures
        turn.next matches Ok(next) ==> {
            let before = ahead(phase, call);
            let after = ahead(next.0, call);
            &&& 0 <= after.0 && 0 <= after.1
            &&& after.0 < before.0 || (after.0 == before.0 && after.1 < before.1)
        },
{
    match (phase, event) {
        (PhaseView::Movie(i), StepEvent::MovieCompleted(outcome)) => {
            lemma_completion_place(None, call.input.await_results@, i + 1);
        },
        _ => {},
    }
}

/// The engine is run with the length of the step and the events of its input. What it made is
/// judged for its sound; a failure or a panic of the engine ends the session.
pub proof fn law_engine_runs_with_the_input(
    session: StepSession,
    call: StepCall,
    delta: crate::family::FamilyDelta,
    words: String,
    turn: Turn,
)
    ensures
        ({
            let asked = to_engine(session, call);
            let (pointer, events) = crate::step::input_events(
                session.pointer,
                call.input.input_edges@,
                0,
                Seq::empty(),
            );
            crate::step::step_fault(session, call.input) is None && events is Ok ==> {
                &&& asked.next == Ok::<(PhaseView, ActionView), Fault>(
                    (
                        PhaseView::Engine,
                        ActionView::RunEngine(call.input.delta_ns, events->Ok_0),
                    ),
                )
                &&& asked.session.pointer == pointer
                &&& asked.session.last_step == session.last_step
            }
        }),
        turns(PhaseView::Engine, session, call, StepEvent::EngineRan(EngineStep::Done(delta)), turn)
            ==> {
            &&& turn.session.last_step == call.input.tick_index
            &&& !turn.session.poisoned == !session.poisoned
            &&& turn.next matches Ok((phase, action)) && action is JudgeAudio && phase
                == PhaseView::Audio(
                crate::step::drafted(session, delta),
                crate::adapters::converted(crate::recording::audio_ops(delta.audio@)),
            )
        },
        turns(
            PhaseView::Engine,
            session,
            call,
            StepEvent::EngineRan(EngineStep::Failed(words)),
            turn,
        ) ==> turn.session.poisoned && turn.next is Err && turn.next->Err_0.message == words@,
        turns(PhaseView::Engine, session, call, StepEvent::EngineRan(EngineStep::Panicked), turn)
            ==> turn.session.poisoned && turn.next is Err,
{
}

/// Texts are offered one after the other, each as the text that the script printed, for the
/// session and its case, under a name of its own, and each counts once. A translation replaces
/// the text in its own slot. Behind the last text the surface is planned.
pub proof fn law_texts_are_offered_in_order(
    session: StepSession,
    call: StepCall,
    draft: DraftView,
    i: int,
    turn: Turn,
    result: LegacyHookResultV1,
)
    requires
        0 <= i <= draft.text.len(),
        draft.coverage.text_events < u64::MAX,
    ensures
        i < draft.text.len() ==> {
            &&& to_texts(session, call, draft, i).session == session
            &&& to_texts(session, call, draft, i).next matches Ok((phase, action)) && {
                &&& phase matches PhaseView::Answer(d, at) && at == i && d.text == draft.text
                    && d.live == draft.live && d.coverage.text_events == draft.coverage.text_events
                    + 1 && d.coverage.audio_commands == draft.coverage.audio_commands
                    && d.coverage.presentation_commands == draft.coverage.presentation_commands
                &&& action matches ActionView::Translate(asked) && asked.session_id
                    == call.session_id@ && asked.hook_id == call.hook_id@ && asked.family_game_id
                    == session.family_game_id && asked.timeout_ms == session.hook_timeout_ms
                    && asked.payload == crate::step::message_bytes(
                    vstd::utf8::encode_utf8(draft.text[i].1),
                ) && asked.invocation_id == "fvp.translation."@ + text::decimal(
                    call.input.tick_index as nat,
                ) + "."@ + text::decimal(i as nat)
            }
        },
        i == draft.text.len() ==> to_texts(session, call, draft, i) == to_surface(session, draft),
        i < draft.text.len() && turns(
            PhaseView::Answer(draft, i),
            session,
            call,
            StepEvent::Answered(Ok(result)),
            turn,
        ) && result.completed ==> (crate::step::message_content(result.payload@) matches Some(content)
            ==> vstd::utf8::valid_utf8(content) ==> {
            &&& turn.session == session
            &&& turn.next matches Ok((phase, action)) && action == ActionView::ReplaceText(
                draft.text[i].0,
                vstd::utf8::decode_utf8(content),
            ) && phase is Replacing
        }),
{
}

/// A changed surface is asked for in the size of the stage, drawn as it was lent, handed back
/// as changed in whole and then shown; an unchanged one is shown at once. A shown surface is
/// the generation that was planned.
pub proof fn law_surface_is_drawn_and_shown(
    session: StepSession,
    call: StepCall,
    draft: DraftView,
    plan: PlanView,
    lease: LegacySurfaceLeaseV9,
    turn: Turn,
)
    requires
        draft.sequence < u64::MAX,
    ensures
        turns(
            PhaseView::Layer(draft, plan),
            session,
            call,
            StepEvent::LayerJudged(Ok(())),
            turn,
        ) && plan.changed ==> {
            &&& turn.session == session
            &&& turn.next matches Ok((phase, action)) && phase == PhaseView::Lease(draft, plan)
                && (action matches ActionView::AcquireSurface(asked) && asked.session_id
                == call.session_id@ && asked.tick_index == call.input.tick_index && asked.surface_id
                == "fvp.main"@ && asked.width == session.stage_width && asked.height
                == session.stage_height && asked.format is Rgba8SrgbPremultiplied)
        },
        turns(
            PhaseView::Lease(draft, plan),
            session,
            call,
            StepEvent::Leased(Ok(lease)),
            turn,
        ) && crate::step::lease_fault(session, plan.generation, lease) is None ==> {
            &&& turn.session == session
            &&& turn.next == Ok::<(PhaseView, ActionView), Fault>(
                (PhaseView::Drawing(draft, plan), ActionView::Render(lease)),
            )
        },
        turns(PhaseView::Drawing(draft, plan), session, call, StepEvent::Rendered(Ok(())), turn)
            ==> turn.session == session && (turn.next matches Ok((phase, action)) && phase
            == PhaseView::Committing(draft, plan) && (action matches ActionView::Commit(damage)
            && damage is Full)),
        turns(
            PhaseView::Committing(draft, plan),
            session,
            call,
            StepEvent::Committed(Ok(())),
            turn,
        ) || (turns(
            PhaseView::Layer(draft, plan),
            session,
            call,
            StepEvent::LayerJudged(Ok(())),
            turn,
        ) && !plan.changed) ==> {
            &&& turn.session.surface_generation == plan.generation
            &&& turn.session.layer_created
            &&& turn.session.pointer == session.pointer
            &&& turn.session.pending_movie == session.pending_movie
            &&& turn.next matches Ok((phase, action)) && action is JudgeVideo && (
            phase matches PhaseView::Video(d) && d.live.layers == draft.live.layers.push(
                plan.transaction,
            ) && d.sequence == draft.sequence + 1)
        },
{
}

/// A step that is closed hands out its answer and counts the state on; once the answer is
/// accepted, the next step goes on behind its output.
pub proof fn law_step_is_closed(
    session: StepSession,
    call: StepCall,
    draft: DraftView,
    ended: bool,
    next: u64,
    turn: Turn,
)
    requires
        session.state_revision < u64::MAX,
    ensures
        turns(PhaseView::End(draft), session, call, StepEvent::Terminal(Ok(ended)), turn) ==> {
            &&& turn.session.state_revision == session.state_revision + 1
            &&& turn.session.next_live_sequence == session.next_live_sequence
            &&& turn.next == Ok::<(PhaseView, ActionView), Fault>(
                (
                    PhaseView::Output(draft.sequence),
                    ActionView::JudgeOutput(crate::step::output_of(session, draft, ended)),
                ),
            )
        },
        turns(PhaseView::Output(next), session, call, StepEvent::OutputJudged(Ok(())), turn) ==> {
            &&& turn.session.next_live_sequence == next
            &&& turn.session.state_revision == session.state_revision
            &&& turn.next == Ok::<(PhaseView, ActionView), Fault>(
                (PhaseView::Over, ActionView::Finished),
            )
        },
{
}

/// A refusal of the boundary or the host ends the step with its own words and leaves the
/// session as it is; a text that is refused is kept, and only warned of.
pub proof fn law_refusals_end_the_step(
    session: StepSession,
    call: StepCall,
    draft: DraftView,
    plan: PlanView,
    why: LegacyProviderError,
    i: int,
    next: u64,
    turn: Turn,
)
    ensures
        turns(PhaseView::Packets(draft), session, call, StepEvent::PacketsJudged(Err(why)), turn)
            || turns(
            PhaseView::Layer(draft, plan),
            session,
            call,
            StepEvent::LayerJudged(Err(why)),
            turn,
        ) || turns(PhaseView::Lease(draft, plan), session, call, StepEvent::Leased(Err(why)), turn)
            || turns(
            PhaseView::Committing(draft, plan),
            session,
            call,
            StepEvent::Committed(Err(why)),
            turn,
        ) || turns(PhaseView::Output(next), session, call, StepEvent::OutputJudged(Err(why)), turn)
            ==> turn.session == session && turn.next == Err::<(PhaseView, ActionView), Fault>(why@),
        turns(PhaseView::Answer(draft, i), session, call, StepEvent::Answered(Err(why)), turn)
            ==> turn == to_texts(
            session,
            call,
            DraftView {
                diagnostics: draft.diagnostics.push(
                    crate::family::DiagnosticView {
                        code: why@.code,
                        severity: "warn"@,
                        subject: "rfvp.translation"@,
                        message: "translation Hook failed; RFVP retained the original text"@,
                    },
                ),
                ..draft
            },
            i + 1,
        ),
{
}

}
