use rfvp_hosted_provider::adapters::{
    audio_commands_from_delta, convert_audio, video_commands_from_delta, HostedAdapterError,
    LegacyAudioCommandV1, LegacyVideoCommandV1, LegacyVideoMode,
};
use rfvp_hosted_provider::engine_core::HostedTextEvent;
use rfvp_hosted_provider::family::{
    FamilyDelta, InputKey, LegacyAwaitResult, LegacyDiagnostic, LegacyHookResultV1, LegacyInputEdge,
    LegacyLayerOperationV9, LegacyReplayMode, LegacyRuntimeStatus, LegacyStepInput,
    LegacySurfaceDamageV9, LegacySurfaceFormatV9, LegacySurfaceLeaseV9, LegacyWaitRequest,
};
use rfvp_hosted_provider::fault::LegacyProviderError;
use rfvp_hosted_provider::float::Float32;
use rfvp_hosted_provider::host_api::{
    AudioStreamId, InputModifiers, KeyCode, PointerButton, RfvpEvent, RfvpLogLevel,
};
use rfvp_hosted_provider::recording::{HostedAudioOperation, HostedLogEvent, HostedLogRecord};
use rfvp_hosted_provider::session::HostedVideoOperation;
use rfvp_hosted_provider::step::{
    hosted_diagnostics, hosted_inputs, input_i32, render_failure, EngineStep, FvpSession,
    PendingMovieV1, Pointer, StepDraft,
};
use rfvp_hosted_provider::stepper::{StepAction, StepCall, StepEvent, StepRun};

fn float(value: f32) -> Float32 {
    Float32 { bits: value.to_bits() }
}

fn session() -> FvpSession {
    FvpSession {
        last_step: 0,
        seed: 5,
        fixed_delta_ns: 16_666_667,
        instruction_count: 0,
        syscall_count: 0,
        pointer: Pointer { x: 0, y: 0, in_screen: false },
        stage_width: 1024,
        stage_height: 768,
        state_revision: 0,
        next_live_sequence: 1,
        poisoned: false,
        pending_movie: None,
        family_game_id: "game".to_string(),
        hook_timeout_ms: 2_000,
        surface_generation: 0,
        layer_created: false,
    }
}

fn delta() -> FamilyDelta {
    FamilyDelta {
        frame_index: 7,
        visual_changed: false,
        audio: Vec::new(),
        video: Vec::new(),
        text: Vec::new(),
        logs: Vec::new(),
        log_dropped_count: 0,
        pcm_moved_bytes: 0,
        pcm_copied_bytes: 0,
    }
}

fn draft(session: &mut FvpSession, tick: u64, delta: FamilyDelta) -> StepDraft {
    let (mut draft, audio) = session.ticked(tick, EngineStep::Done(delta)).unwrap();
    let verdicts = audio.commands.iter().map(|_| None).collect();
    draft.accept_audio(audio, &verdicts).unwrap();
    draft
}

fn play(uri: &str) -> HostedVideoOperation {
    HostedVideoOperation::Play {
        resource_uri: uri.to_string(),
        byte_len: 10,
        modal_with_audio: true,
        stage_width: 640,
        stage_height: 480,
    }
}

fn input(tick_index: u64) -> LegacyStepInput {
    LegacyStepInput {
        tick_index,
        session_seed: 5,
        delta_ns: 16_666_667,
        mode: LegacyReplayMode::Live,
        input_edges: Vec::new(),
        await_results: Vec::new(),
    }
}

fn edge(sequence: u64, control: &str, value: f32, pressed: bool) -> LegacyInputEdge {
    LegacyInputEdge { sequence, control: control.to_string(), key: None, value: float(value), pressed }
}

fn key(sequence: u64, key: InputKey, pressed: bool) -> LegacyInputEdge {
    LegacyInputEdge {
        sequence,
        control: "key".to_string(),
        key: Some(key),
        value: float(0.0),
        pressed,
    }
}

#[test]
fn inputs_become_events() {
    let mut pointer = Pointer { x: 1, y: 2, in_screen: false };
    let edges = vec![
        edge(1, "pointer.x", 30.0, true),
        edge(2, "pointer.y", -4.0, true),
        edge(3, "pointer.primary", 0.0, true),
        edge(4, "pointer.secondary", 0.0, false),
        edge(5, "wheel", -2.0, true),
        key(6, InputKey::Enter, true),
        key(9, InputKey::ArrowLeft, false),
    ];
    let none = InputModifiers::empty();
    assert_eq!(
        hosted_inputs(&mut pointer, &edges).unwrap(),
        vec![
            RfvpEvent::PointerMove { x: 30, y: 2, in_screen: true },
            RfvpEvent::PointerMove { x: 30, y: -4, in_screen: true },
            RfvpEvent::PointerDown { button: PointerButton::Left, x: 30, y: -4 },
            RfvpEvent::PointerUp { button: PointerButton::Right, x: 30, y: -4 },
            RfvpEvent::Wheel { delta_x: 0, delta_y: -2 },
            RfvpEvent::KeyDown { key: KeyCode::Return, repeat: false, modifiers: none },
            RfvpEvent::KeyUp { key: KeyCode::Left, modifiers: none },
        ]
    );
    assert_eq!((pointer.x, pointer.y, pointer.in_screen), (30, -4, true));
}

#[test]
fn inputs_are_refused_with_a_code() {
    let code = |edges: Vec<LegacyInputEdge>| {
        let mut pointer = Pointer { x: 0, y: 0, in_screen: false };
        hosted_inputs(&mut pointer, &edges).unwrap_err().code().to_string()
    };
    assert_eq!(
        code(vec![edge(2, "wheel", 1.0, true), edge(2, "wheel", 1.0, true)]),
        "ASTRA_FVP_INPUT_ORDER"
    );
    assert_eq!(code(vec![edge(1, "wheel", 0.5, true)]), "ASTRA_FVP_INPUT_VALUE");
    assert_eq!(code(vec![edge(1, "joystick", 0.0, true)]), "ASTRA_FVP_INPUT_KEY");
    assert_eq!(
        code(vec![key(1, InputKey::Other("F13".to_string()), true)]),
        "ASTRA_FVP_INPUT_KEY"
    );
}

#[test]
fn input_numbers_are_whole() {
    for value in [0.0f32, -0.0, 1.0, -1.0, 16_777_216.0, -2_147_483_648.0, 2_147_483_520.0] {
        assert_eq!(input_i32(float(value), "wheel").unwrap(), value as i32);
    }
    for value in [0.5f32, -0.25, 2_147_483_648.0, -2_147_483_904.0, f32::NAN, f32::INFINITY] {
        assert!(input_i32(float(value), "wheel").is_err());
    }
    assert_eq!(
        input_i32(float(0.5), "pointer x").unwrap_err().message(),
        "pointer x must be a finite integer inside i32 bounds"
    );
}

#[test]
fn steps_are_consecutive() {
    let mut session = session();
    let code = |session: &mut FvpSession, input: LegacyStepInput| {
        session.begin_step(&input).unwrap_err().code().to_string()
    };
    assert_eq!(code(&mut session, input(2)), "ASTRA_FVP_STEP_SEQUENCE");
    assert_eq!(
        code(&mut session, LegacyStepInput { session_seed: 6, ..input(1) }),
        "ASTRA_FVP_STEP_IDENTITY"
    );
    assert_eq!(
        code(&mut session, LegacyStepInput { mode: LegacyReplayMode::Unsupported, ..input(1) }),
        "ASTRA_FVP_STEP_MODE"
    );
    assert!(session.begin_step(&input(1)).unwrap().events.is_empty());
    draft(&mut session, 1, delta());
    assert_eq!(session.last_step, 1);
    assert!(session.begin_step(&input(2)).is_ok());
}

#[test]
fn engine_failures_end_the_session() {
    let mut failed = session();
    let error = failed.ticked(1, EngineStep::Failed("bad opcode".to_string())).err().unwrap();
    assert_eq!((error.code(), error.message()), ("ASTRA_FVP_STEP_FAILED", "bad opcode"));
    assert!(failed.poisoned);
    let mut panicked = session();
    let error = panicked.ticked(1, EngineStep::Panicked).err().unwrap();
    assert_eq!(error.code(), "ASTRA_FVP_STEP_PANIC");
    assert!(panicked.poisoned);
}

#[test]
fn sound_is_sequenced_in_order() {
    let mut session = session();
    let id = AudioStreamId(3);
    let draft = draft(
        &mut session,
        1,
        FamilyDelta {
            audio: vec![
                HostedAudioOperation::Tick { elapsed_us: 5 },
                HostedAudioOperation::SubmitI16 { id, samples: vec![1, 2] },
                HostedAudioOperation::Pause(id),
                HostedAudioOperation::SubmitF32 { id, samples: Vec::new() },
            ],
            pcm_moved_bytes: 4,
            ..delta()
        },
    );
    assert_eq!(draft.live.audio.len(), 1);
    assert_eq!(draft.live.audio[0].sequence, 1);
    assert_eq!(draft.live.audio[0].stream_id, 3);
    let commands: Vec<u64> = draft.live.audio_commands.iter().map(|c| c.sequence).collect();
    assert_eq!(commands, [2, 3]);
    assert_eq!(draft.coverage.audio_commands, 3);
    assert_eq!(draft.coverage.pcm_moved_bytes, 4);
    assert_eq!(draft.sequence, 4);
}

#[test]
fn sound_is_judged_by_the_boundary() {
    let id = AudioStreamId(3);
    let operations = || vec![HostedAudioOperation::Pause(id), HostedAudioOperation::Resume(id)];
    assert_eq!(audio_commands_from_delta(operations(), &vec![None, None]).unwrap().len(), 2);
    let refused = audio_commands_from_delta(operations(), &vec![None, Some("BAD".to_string())]);
    assert_eq!(refused.err().unwrap().to_text(), "ASTRA_FVP_HOSTED_PACKET:BAD");
    let mut session = session();
    let (mut draft, audio) = session
        .ticked(1, EngineStep::Done(FamilyDelta { audio: operations(), ..delta() }))
        .unwrap();
    let error = draft
        .accept_audio(audio, &vec![Some("BAD".to_string()), None])
        .err()
        .unwrap();
    assert_eq!((error.code(), error.message()), ("ASTRA_FVP_AUDIO_DELTA", "ASTRA_FVP_HOSTED_PACKET:BAD"));
    assert!(draft.live.audio_commands.is_empty());
}

#[test]
fn encoded_sound_must_name_its_resource() {
    let audio = convert_audio(vec![HostedAudioOperation::LoadEncoded {
        id: AudioStreamId(1),
        kind: rfvp_hosted_provider::host_api::EncodedAudioKind::Ogg,
        bytes: vec![1],
    }]);
    assert!(matches!(
        audio.judged(&Vec::new()),
        Err(HostedAdapterError::EncodedAudioRequiresResource)
    ));
    let commands = audio_commands_from_delta(
        vec![HostedAudioOperation::LoadResource {
            id: AudioStreamId(1),
            kind: rfvp_hosted_provider::host_api::EncodedAudioKind::Ogg,
            resource_uri: "bgm/1.ogg".to_string(),
        }],
        &vec![None],
    )
    .unwrap();
    assert!(matches!(
        &commands[0],
        LegacyAudioCommandV1::LoadResource { resource_uri, .. } if resource_uri == "bgm/1.ogg"
    ));
}

#[test]
fn movies_are_numbered_within_their_frame() {
    let commands =
        video_commands_from_delta(9, &vec![play("a.wmv"), play("b.wmv")], &vec![None, None]).unwrap();
    let LegacyVideoCommandV1::Play { playback_id, resource_uri, mode, .. } = &commands[1];
    assert_eq!(playback_id, "rfvp-9-1");
    assert_eq!(resource_uri, "b.wmv");
    assert_eq!(*mode, LegacyVideoMode::ModalWithAudio);
    let empty = HostedVideoOperation::Play {
        resource_uri: "a.wmv".to_string(),
        byte_len: 0,
        modal_with_audio: false,
        stage_width: 1,
        stage_height: 1,
    };
    assert!(matches!(
        video_commands_from_delta(9, &vec![empty], &vec![None]),
        Err(HostedAdapterError::VideoResourceBounds)
    ));
}

#[test]
fn dropped_log_records_are_warned_about() {
    let records = vec![HostedLogRecord { level: RfvpLogLevel::Error, event: HostedLogEvent::CoreFailure }];
    let diagnostics = hosted_diagnostics(&records, 3);
    assert_eq!(diagnostics.len(), 2);
    assert_eq!(
        (diagnostics[0].code.as_str(), diagnostics[0].severity.as_str()),
        ("rfvp.core.failure", "error")
    );
    assert_eq!(
        (diagnostics[1].code.as_str(), diagnostics[1].severity.as_str()),
        ("rfvp.host.log_overflow", "warn")
    );
    assert_eq!(hosted_diagnostics(&records, 0).len(), 1);
}

fn with_text(session: &mut FvpSession, text: &str) -> StepDraft {
    draft(
        session,
        1,
        FamilyDelta { text: vec![HostedTextEvent { slot: 1, text: text.to_string() }], ..delta() },
    )
}

fn answer(payload: Vec<u8>) -> Result<LegacyHookResultV1, LegacyProviderError> {
    Ok(LegacyHookResultV1 { completed: true, payload, diagnostics: Vec::new() })
}

#[test]
fn texts_are_offered_for_translation() {
    let mut session = session();
    let long = "x".repeat(200);
    let mut draft = with_text(&mut session, &long);
    let call = draft.translation_request(&session, "s", 1, 0, "hook").unwrap();
    assert_eq!(call.invocation_id, "fvp.translation.1.0");
    assert_eq!((call.family_id.as_str(), call.family_game_id.as_str()), ("fvp", "game"));
    assert_eq!((call.hook_id.as_str(), call.timeout_ms), ("hook", 2_000));
    assert_eq!(&call.payload[..2], &[0xc8, 0x01]);
    assert_eq!(&call.payload[2..], long.as_bytes());
    assert_eq!(draft.coverage.text_events, 1);
}

#[test]
fn a_broken_message_leaves_the_text() {
    let mut session = session();
    let mut beyond = vec![0xff; 9];
    beyond.push(2);
    let mut endless = vec![0x80; 11];
    endless.push(0);
    for payload in [vec![], vec![0x80], vec![5, 1, 2], vec![1], beyond, endless] {
        let mut draft = with_text(&mut session, "a");
        assert_eq!(draft.accept_reply(answer(payload)), None);
        assert_eq!(draft.diagnostics.len(), 1);
        assert_eq!(draft.diagnostics[0].code, "ASTRA_FVP_HOOK_PROTOCOL");
        session.last_step = 0;
    }
    let mut draft = with_text(&mut session, "a");
    assert_eq!(draft.accept_reply(answer(vec![0x81, 0x00, b'x'])).unwrap(), "x");
    assert_eq!(draft.accept_reply(answer(vec![0])).unwrap(), "");
    assert!(draft.diagnostics.is_empty());
}

#[test]
fn translations_come_back() {
    let mut session = session();
    let mut draft = with_text(&mut session, "a");
    let mut payload = vec![6];
    payload.extend("\u{4f60}\u{597d}".as_bytes());
    payload.push(0);
    assert_eq!(draft.accept_reply(answer(payload)).unwrap(), "\u{4f60}\u{597d}");
    assert!(draft.diagnostics.is_empty());
    assert_eq!(draft.accept_reply(answer(vec![5, 1])), None);
    assert_eq!(draft.diagnostics[0].code, "ASTRA_FVP_HOOK_PROTOCOL");
    assert_eq!(draft.accept_reply(answer(vec![1, 0xff])), None);
    assert_eq!(draft.diagnostics[1].code, "ASTRA_FVP_HOOK_UTF8");
    let failed = Err(LegacyProviderError::invalid("HOOK_TIMEOUT", "late"));
    assert_eq!(draft.accept_reply(failed), None);
    assert_eq!(draft.diagnostics[2].code, "HOOK_TIMEOUT");
    let skipped = LegacyHookResultV1 {
        completed: false,
        payload: vec![1, b'x'],
        diagnostics: vec![LegacyDiagnostic {
            code: "NOTE".to_string(),
            severity: "info".to_string(),
            subject: "hook".to_string(),
            message: "m".to_string(),
        }],
    };
    assert_eq!(draft.accept_reply(Ok(skipped)), None);
    assert_eq!(draft.diagnostics[3].code, "NOTE");
    draft.translation_refused("too wide");
    assert_eq!(draft.diagnostics[4].code, "ASTRA_FVP_TRANSLATION_LAYOUT");
    assert_eq!(
        draft.diagnostics[4].message,
        "translated text was rejected by RFVP layout: too wide"
    );
    assert_eq!(draft.accept_response(Some(b"ok".to_vec())).unwrap(), "ok");
}

#[test]
fn a_step_presents_and_waits_for_its_movie() {
    let mut session = session();
    let mut draft = draft(&mut session, 1, FamilyDelta { video: vec![play("op.wmv")], ..delta() });
    let plan = session.plan_surface(&draft).unwrap();
    assert!(plan.changed);
    assert_eq!(plan.generation, 1);
    assert!(matches!(plan.transaction.operation, LegacyLayerOperationV9::Create(_)));
    let request = session.surface_request("s", 1);
    assert_eq!((request.surface_id.as_str(), request.width, request.height), ("fvp.main", 1024, 768));
    let lease = LegacySurfaceLeaseV9 {
        surface_id: "fvp.main".to_string(),
        generation: 1,
        width: 1024,
        height: 768,
        stride: 4096,
        format: LegacySurfaceFormatV9::Rgba8SrgbPremultiplied,
        pixels: Vec::new(),
    };
    session.check_lease(&plan, &lease).unwrap();
    session.surface_presented(&mut draft, plan).unwrap();
    assert_eq!((session.surface_generation, session.layer_created), (1, true));
    session.start_movies(&mut draft, 1, &vec![None]).unwrap();
    let (output, next) = session.finish_step(draft, Ok(false)).unwrap();
    session.commit_step(next);
    assert_eq!(output.status, LegacyRuntimeStatus::Awaiting);
    assert_eq!(output.live.layers[0].sequence, 1);
    assert_eq!(output.live.video[0].sequence, 2);
    assert_eq!(session.next_live_sequence, 3);
    assert_eq!(output.state_revision, 1);
    assert_eq!(output.coverage.presentation_commands, 2);
    let LegacyWaitRequest::MediaFence { token_id, media_id } = &output.waits[0];
    assert_eq!((token_id.as_str(), media_id.as_str()), ("fvp.movie.1", "rfvp-7-0"));
    let result = |token: &str, status: &str| LegacyAwaitResult {
        token_id: token.to_string(),
        status: status.to_string(),
    };
    let results = vec![result("other", "failed"), result("fvp.movie.1", "completed")];
    assert_eq!(session.take_results(&results, 0).unwrap(), Some(1));
    session.movie_completed(Ok(())).unwrap();
    assert_eq!(session.take_results(&results, 2).unwrap(), None);
    assert_eq!(
        session.take_results(&results, 0).unwrap_err().code(),
        "ASTRA_FVP_MOVIE_COMPLETION_UNSOLICITED"
    );
    assert!(!session.poisoned);
}

#[test]
fn movie_answers_must_fit_the_wait() {
    let with_movie = || {
        let mut session = session();
        let mut draft = draft(&mut session, 1, FamilyDelta { video: vec![play("op.wmv")], ..delta() });
        let plan = session.plan_surface(&draft).unwrap();
        session.surface_presented(&mut draft, plan).unwrap();
        session.start_movies(&mut draft, 1, &vec![None]).unwrap();
        session
    };
    let code = |token: &str, status: &str| {
        let mut session = with_movie();
        let results =
            vec![LegacyAwaitResult { token_id: token.to_string(), status: status.to_string() }];
        let error = session.take_results(&results, 0).unwrap_err();
        assert!(session.poisoned);
        error.code().to_string()
    };
    assert_eq!(code("fvp.movie.2", "completed"), "ASTRA_FVP_MOVIE_COMPLETION_IDENTITY");
    assert_eq!(code("fvp.movie.1", "cancelled"), "ASTRA_FVP_MOVIE_COMPLETION_STATUS");
    let mut failed = with_movie();
    assert_eq!(
        failed.movie_completed(Err("no movie".to_string())).unwrap_err().code(),
        "ASTRA_FVP_MOVIE_COMPLETION"
    );
    let mut twice = with_movie();
    let mut draft = draft(&mut twice, 2, FamilyDelta { video: vec![play("ed.wmv")], ..delta() });
    assert_eq!(
        twice.start_movies(&mut draft, 2, &vec![None]).unwrap_err().code(),
        "ASTRA_FVP_MOVIE_PLAYBACK_CONFLICT"
    );
    assert!(twice.poisoned);
}

#[test]
fn an_unchanged_picture_keeps_its_surface() {
    let mut session = session();
    session.layer_created = true;
    session.surface_generation = 4;
    let draft = draft(&mut session, 1, delta());
    let plan = session.plan_surface(&draft).unwrap();
    assert!(!plan.changed);
    assert_eq!(plan.generation, 4);
    match &plan.transaction.operation {
        LegacyLayerOperationV9::Update(layer) => {
            assert_eq!(layer.damage, LegacySurfaceDamageV9::Unchanged);
            assert_eq!(layer.stride, 4096);
            assert_eq!(layer.opacity, float(1.0));
            assert_eq!(layer.transform.m11, float(1.0));
            assert_eq!(layer.transform.m12, float(0.0));
        }
        LegacyLayerOperationV9::Create(_) => panic!("the layer exists"),
    }
}

#[test]
fn surfaces_are_refused_with_a_code() {
    let mut session = session();
    let draft = draft(&mut session, 1, delta());
    let plan = session.plan_surface(&draft).unwrap();
    let lease = LegacySurfaceLeaseV9 {
        surface_id: "fvp.main".to_string(),
        generation: 2,
        width: 1024,
        height: 768,
        stride: 4096,
        format: LegacySurfaceFormatV9::Rgba8SrgbPremultiplied,
        pixels: Vec::new(),
    };
    assert_eq!(
        session.check_lease(&plan, &lease).unwrap_err().code(),
        "ASTRA_FVP_SURFACE_LEASE"
    );
    assert!(session.poisoned);
    session.surface_generation = u64::MAX;
    assert_eq!(session.plan_surface(&draft).unwrap_err().code(), "ASTRA_FVP_SURFACE_GENERATION");
    assert_eq!(render_failure("x").code(), "ASTRA_FVP_SURFACE_RENDER");
}

#[test]
fn a_finished_game_is_terminal() {
    let mut done = session();
    let finished = draft(&mut done, 1, delta());
    let (output, _) = done.finish_step(finished, Ok(true)).unwrap();
    assert_eq!(output.status, LegacyRuntimeStatus::Terminal);
    let mut lost = session();
    let unknown = draft(&mut lost, 1, delta());
    assert_eq!(
        lost.finish_step(unknown, Err("gone".to_string())).unwrap_err().code(),
        "ASTRA_FVP_STATE"
    );
    assert!(lost.poisoned);
    let mut last = session();
    last.state_revision = u64::MAX;
    let more = draft(&mut last, 1, delta());
    assert_eq!(
        last.finish_step(more, Ok(false)).unwrap_err().code(),
        "ASTRA_FVP_STATE_REVISION"
    );
}

fn call(tick_index: u64) -> StepCall {
    StepCall {
        session_id: "s".to_string(),
        hook_id: "hook".to_string(),
        input: input(tick_index),
    }
}

fn lease(generation: u64) -> LegacySurfaceLeaseV9 {
    LegacySurfaceLeaseV9 {
        surface_id: "fvp.main".to_string(),
        generation,
        width: 1024,
        height: 768,
        stride: 4096,
        format: LegacySurfaceFormatV9::Rgba8SrgbPremultiplied,
        pixels: vec![1],
    }
}

#[test]
fn a_step_asks_in_order() {
    let mut session = session();
    let call = call(1);
    let (mut run, mut action) = StepRun::begin(&call, &mut session).unwrap();
    let mut asked = Vec::new();
    let output = loop {
        let (name, event) = match action {
            StepAction::RunEngine { delta_ns, input } => {
                assert_eq!((delta_ns, input.events.len()), (16_666_667, 0));
                let done = FamilyDelta {
                    audio: vec![HostedAudioOperation::SubmitI16 {
                        id: AudioStreamId(1),
                        samples: vec![1],
                    }],
                    text: vec![
                        HostedTextEvent { slot: 3, text: "a".to_string() },
                        HostedTextEvent { slot: 4, text: "b".to_string() },
                    ],
                    video: vec![play("op.wmv")],
                    ..delta()
                };
                ("engine", StepEvent::EngineRan(EngineStep::Done(done)))
            }
            StepAction::JudgeAudio => ("audio", StepEvent::AudioJudged(vec![None])),
            StepAction::JudgePackets => ("packets", StepEvent::PacketsJudged(Ok(()))),
            StepAction::Translate { call } => {
                assert_eq!(call.hook_id, "hook");
                let reply = if call.invocation_id == "fvp.translation.1.0" {
                    answer(vec![1, b'A'])
                } else {
                    answer(vec![9])
                };
                ("translate", StepEvent::Answered(reply))
            }
            StepAction::ReplaceText { slot, text } => {
                assert_eq!((slot, text.as_str()), (3, "A"));
                ("replace", StepEvent::TextReplaced(Ok(())))
            }
            StepAction::JudgeLayer => ("layer", StepEvent::LayerJudged(Ok(()))),
            StepAction::AcquireSurface { request } => {
                assert_eq!((request.tick_index, request.width), (1, 1024));
                ("acquire", StepEvent::Leased(Ok(lease(1))))
            }
            StepAction::Render { lease } => {
                assert_eq!(lease.pixels, [1]);
                ("render", StepEvent::Rendered(Ok(())))
            }
            StepAction::Commit { damage } => {
                assert_eq!(damage, LegacySurfaceDamageV9::Full);
                ("commit", StepEvent::Committed(Ok(())))
            }
            StepAction::JudgeVideo => ("video", StepEvent::VideoJudged(vec![None])),
            StepAction::AskTerminal => ("terminal", StepEvent::Terminal(Ok(false))),
            StepAction::JudgeOutput { output } => {
                assert_eq!(session.next_live_sequence, 1);
                run.advance(&call, &mut session, StepEvent::OutputJudged(Ok(()))).unwrap();
                break output;
            }
            other => panic!("unexpected {other:?}"),
        };
        asked.push(name);
        (run, action) = run.advance(&call, &mut session, event).unwrap();
    };
    assert_eq!(
        asked,
        [
            "engine", "audio", "packets", "translate", "replace", "translate", "layer", "acquire",
            "render", "commit", "video", "terminal"
        ]
    );
    assert_eq!(output.status, LegacyRuntimeStatus::Awaiting);
    assert_eq!(output.live.audio[0].sequence, 1);
    assert_eq!(output.live.layers[0].sequence, 2);
    assert_eq!(output.live.video[0].sequence, 3);
    assert_eq!(output.diagnostics.len(), 1);
    assert_eq!(session.next_live_sequence, 4);
    assert_eq!((session.last_step, session.state_revision), (1, 1));
}

#[test]
fn a_waiting_step_takes_its_movie_first() {
    let mut session = session();
    session.pending_movie = Some(PendingMovieV1 {
        playback_id: "rfvp-1-0".to_string(),
        token_id: "fvp.movie.1".to_string(),
        resource_uri: "op.wmv".to_string(),
        mode: LegacyVideoMode::ModalWithAudio,
        stage_width: 1,
        stage_height: 1,
    });
    session.layer_created = true;
    session.last_step = 1;
    let mut call = call(2);
    call.input.await_results.push(LegacyAwaitResult {
        token_id: "fvp.movie.1".to_string(),
        status: "completed".to_string(),
    });
    let (run, action) = StepRun::begin(&call, &mut session).unwrap();
    assert!(matches!(action, StepAction::CompleteMovie));
    let (run, action) =
        run.advance(&call, &mut session, StepEvent::MovieCompleted(Ok(()))).unwrap();
    assert!(session.pending_movie.is_none());
    assert!(matches!(action, StepAction::RunEngine { .. }));
    let event = StepEvent::EngineRan(EngineStep::Done(delta()));
    let (run, _) = run.advance(&call, &mut session, event).unwrap();
    let (run, _) = run.advance(&call, &mut session, StepEvent::AudioJudged(Vec::new())).unwrap();
    let (run, action) = run.advance(&call, &mut session, StepEvent::PacketsJudged(Ok(()))).unwrap();
    assert!(matches!(action, StepAction::JudgeLayer));
    let (_, action) = run.advance(&call, &mut session, StepEvent::LayerJudged(Ok(()))).unwrap();
    assert!(matches!(action, StepAction::JudgeVideo));
}

#[test]
fn a_refused_answer_leaves_the_place_of_the_output() {
    let mut session = session();
    session.layer_created = true;
    let call = call(1);
    let refusal = || LegacyProviderError::invalid("REFUSED", "no");
    let (mut run, mut action) = StepRun::begin(&call, &mut session).unwrap();
    let error = loop {
        let event = match action {
            StepAction::RunEngine { .. } => StepEvent::EngineRan(EngineStep::Done(delta())),
            StepAction::JudgeAudio => StepEvent::AudioJudged(Vec::new()),
            StepAction::JudgePackets => StepEvent::PacketsJudged(Ok(())),
            StepAction::JudgeLayer => StepEvent::LayerJudged(Ok(())),
            StepAction::JudgeVideo => StepEvent::VideoJudged(Vec::new()),
            StepAction::AskTerminal => StepEvent::Terminal(Ok(false)),
            StepAction::JudgeOutput { .. } => StepEvent::OutputJudged(Err(refusal())),
            other => panic!("unexpected {other:?}"),
        };
        match run.advance(&call, &mut session, event) {
            Ok(next) => (run, action) = next,
            Err(error) => break error,
        }
    };
    assert_eq!(error.code(), "REFUSED");
    assert_eq!((session.next_live_sequence, session.last_step), (1, 1));
    assert!(!session.poisoned);
}
