use rfvp_hosted_provider::digest::Hash256;
use rfvp_hosted_provider::engine_core::{
    boot_config_ok, build_host_vfs, find_hcb, pack_folder, AudioCommand, BootEvidence, CanonicalParts,
    EngineReply, FatalErrorCode, FontReply, HostedTextEvent, PackFailure, PackReply, RenderCall,
    RfvpBootConfig, RfvpCore, RfvpCoreConfig, RfvpCoreRunState, ScriptFacts, MAX_TRACE_CAPACITY,
};
use rfvp_hosted_provider::float::Float32;
use rfvp_hosted_provider::framebuffer::{SoftFramebuffer, SoftPixelStorage, SoftRenderError, SurfacePixelFormat};
use rfvp_hosted_provider::global::{Global, Variant};
use rfvp_hosted_provider::host_api::{
    AudioStreamId, EncodedAudioKind, InputModifiers, KeyCode, PixelFormat, PointerButton, RfvpError,
    RfvpEvent, RfvpFileInfo, RfvpFileKind, RfvpLogLevel, TextureDesc, TextureId,
};
use rfvp_hosted_provider::input::{
    apply_pending_events_to_game_data, hosted_keycode, input_action, wants_quit, InputAction,
    InputKeyCode,
};
use rfvp_hosted_provider::recording::{HostedAudioOperation, HostedLimits, HostedLogEvent};
use rfvp_hosted_provider::session::{
    BootPorts, FileReply, HostedSession, HostedStepInput, HostedTraceProfile, HostedVideoOperation,
};
use rfvp_hosted_provider::surface::HostedVisualDamage;
use rfvp_hosted_provider::videoplayer::{HostMovieCommand, MovieMode, VideoPlayerManager};

fn session() -> HostedSession {
    HostedSession::new(RfvpCoreConfig::default(), HostedLimits::default())
        .expect("default hosted session is valid")
}

fn evidence() -> BootEvidence {
    BootEvidence {
        listing: Ok(vec![
            ("game.hcb".to_string(), RfvpFileInfo::file(3)),
            ("other.hcb".to_string(), RfvpFileInfo::file(9)),
        ]),
        script_bytes: Ok(vec![1, 2, 3]),
        script: Ok(ScriptFacts {
            screen_width: 1280,
            screen_height: 720,
            non_volatile_global_count: 2,
            volatile_global_count: 3,
            entry_point: 4,
        }),
        font: FontReply::Loaded,
        packs: Ok(()),
        trace_accepted: true,
    }
}

fn quiet_ports() -> BootPorts {
    BootPorts { render: Vec::new(), audio_operations: 0 }
}

fn quiet_engine() -> EngineReply {
    EngineReply {
        script: Ok(()),
        globals: Vec::new(),
        movies: Vec::new(),
        text: Vec::new(),
        main_thread_exited: false,
        should_exit: false,
        halted: false,
        audio: Vec::new(),
        render: Vec::new(),
    }
}

fn booted() -> HostedSession {
    let mut session = session();
    let (outcome, result) = session.boot(RfvpBootConfig::default(), evidence(), quiet_ports());
    assert!(outcome.result.is_ok());
    assert!(result.is_ok());
    session
}

#[test]
fn evidence_profile_requires_a_fixed_positive_ring_capacity() {
    let mut session = session();
    assert_eq!(
        session.set_trace_profile(HostedTraceProfile::Evidence { crash_trace_capacity: 0 }),
        Err(RfvpError::InvalidArgument)
    );
    session
        .set_trace_profile(HostedTraceProfile::Evidence { crash_trace_capacity: 32 })
        .expect("bounded evidence profile is valid");
    session
        .set_trace_profile(HostedTraceProfile::Shipping)
        .expect("shipping profile disables trace capture");
}

#[test]
fn evidence_capacity_has_an_upper_bound() {
    let mut session = session();
    assert!(session
        .set_trace_profile(HostedTraceProfile::Evidence { crash_trace_capacity: MAX_TRACE_CAPACITY })
        .is_ok());
    assert_eq!(
        session.set_trace_profile(HostedTraceProfile::Evidence {
            crash_trace_capacity: MAX_TRACE_CAPACITY + 1
        }),
        Err(RfvpError::CapacityExceeded)
    );
}

#[test]
fn maps_hosted_confirm_and_navigation_keys() {
    assert!(matches!(hosted_keycode(KeyCode::Return), Some(InputKeyCode::Enter)));
    assert!(matches!(hosted_keycode(KeyCode::Left), Some(InputKeyCode::LeftArrow)));
    assert!(matches!(hosted_keycode(KeyCode::Function(12)), Some(InputKeyCode::F12)));
}

#[test]
fn rejects_hosted_keys_without_an_fvp_input_bit() {
    assert!(hosted_keycode(KeyCode::Character('x')).is_none());
    assert!(hosted_keycode(KeyCode::Function(13)).is_none());
}

#[test]
fn events_become_input_in_their_order() {
    let events = vec![
        RfvpEvent::KeyDown { key: KeyCode::Space, repeat: true, modifiers: InputModifiers::empty() },
        RfvpEvent::KeyUp { key: KeyCode::Character('q'), modifiers: InputModifiers::empty() },
        RfvpEvent::PointerMove { x: 4, y: 5, in_screen: true },
        RfvpEvent::PointerDown { button: PointerButton::Right, x: 1, y: 1 },
        RfvpEvent::PointerUp { button: PointerButton::Left, x: 1, y: 1 },
        RfvpEvent::Wheel { delta_x: 9, delta_y: -2 },
    ];
    assert_eq!(
        apply_pending_events_to_game_data(&events),
        vec![
            InputAction::KeyDown { key: InputKeyCode::Space, repeat: true },
            InputAction::MouseMove { x: 4, y: 5, in_screen: true },
            InputAction::MouseLeftUp,
            InputAction::MouseWheel { delta: -2 },
        ]
    );
    assert!(!wants_quit(&events));
    assert!(wants_quit(&vec![RfvpEvent::Quit]));
    assert_eq!(input_action(RfvpEvent::Quit), None);
}

#[test]
fn a_boot_loads_the_first_script() {
    let session = booted();
    let core = session.core_state();
    assert_eq!(core.run_state(), RfvpCoreRunState::Booted);
    assert_eq!(core.last_error(), None);
    assert_eq!(core.config().virtual_width, 1280);
    assert_eq!(core.config().virtual_height, 720);
    let game = core.loaded_game().unwrap();
    assert_eq!(game.hcb_path, "game.hcb");
    assert_eq!(game.hcb_bytes, vec![1, 2, 3]);
    assert_eq!(game.hcb_manifest.len(), 1);
    assert_eq!(game.hcb_manifest[0].path, "other.hcb");
}

#[test]
fn a_boot_reports_why_it_failed() {
    let cases: Vec<(BootEvidence, RfvpError)> = vec![
        (BootEvidence { listing: Err(RfvpError::Io), ..evidence() }, RfvpError::Io),
        (BootEvidence { listing: Ok(Vec::new()), ..evidence() }, RfvpError::NotFound),
        (
            BootEvidence { script_bytes: Err(RfvpError::EndOfFile), ..evidence() },
            RfvpError::EndOfFile,
        ),
        (BootEvidence { script: Err("bad".to_string()), ..evidence() }, RfvpError::InvalidData),
        (BootEvidence { font: FontReply::Missing, ..evidence() }, RfvpError::NotFound),
        (BootEvidence { font: FontReply::Invalid, ..evidence() }, RfvpError::InvalidData),
        (
            BootEvidence {
                packs: Err(PackFailure { error: RfvpError::Backend, rejected: None }),
                ..evidence()
            },
            RfvpError::Backend,
        ),
        (BootEvidence { trace_accepted: false, ..evidence() }, RfvpError::CapacityExceeded),
    ];
    for (facts, error) in cases {
        let mut core = RfvpCore::new(RfvpCoreConfig::default());
        let outcome = core.boot(RfvpBootConfig::default(), facts);
        assert_eq!(outcome.result, Err(error));
        assert_eq!(core.run_state(), RfvpCoreRunState::BootFailed);
        assert_eq!(core.last_error(), Some(error));
    }
    let mut core = RfvpCore::new(RfvpCoreConfig::default());
    let outcome = core.boot(
        RfvpBootConfig::default(),
        BootEvidence { font: FontReply::Missing, ..evidence() },
    );
    assert_eq!(outcome.fatal.unwrap().0, FatalErrorCode::MissingDefaultFont);
    assert_eq!(
        core.last_error_detail(),
        Some("Required font file default.ttf was not found in the game directory.")
    );
}

#[test]
fn a_boot_needs_a_usable_configuration() {
    assert!(boot_config_ok(&RfvpBootConfig::default()));
    assert!(!boot_config_ok(&RfvpBootConfig { asset_root: "", ..RfvpBootConfig::default() }));
    assert!(!boot_config_ok(&RfvpBootConfig { hcb_extension: "h\0", ..RfvpBootConfig::default() }));
    assert!(!boot_config_ok(&RfvpBootConfig { max_hcb_bytes: 0, ..RfvpBootConfig::default() }));
    assert_eq!(find_hcb(evidence().listing, 1).err(), Some(RfvpError::CapacityExceeded));
}

#[test]
fn a_rejected_pack_is_named_in_the_log() {
    let mut core = RfvpCore::new(RfvpCoreConfig::default());
    let outcome = core.boot(
        RfvpBootConfig::default(),
        BootEvidence {
            packs: Err(PackFailure {
                error: RfvpError::InvalidData,
                rejected: Some(("bg.bin".to_string(), "InvalidData".to_string())),
            }),
            ..evidence()
        },
    );
    assert_eq!(outcome.logs.len(), 2);
    assert_eq!(outcome.logs[1].level, RfvpLogLevel::Warn);
    assert_eq!(
        outcome.logs[1].message,
        "failed to parse host pack metadata bg.bin: InvalidData"
    );
}

#[test]
fn a_boot_that_draws_or_plays_is_refused() {
    let desc = TextureDesc { width: 1, height: 1, format: PixelFormat::Rgba8, mip_count: 1 };
    let drawings = [
        vec![RenderCall::BeginFrame { width: 1, height: 1, clear: None }],
        vec![
            RenderCall::BeginFrame { width: 1, height: 1, clear: None },
            RenderCall::EndFrame,
            RenderCall::Present,
        ],
        vec![
            RenderCall::CreateTexture { id: TextureId(1), desc, pixels: None },
            RenderCall::DestroyTexture { id: TextureId(1) },
        ],
    ];
    for render in drawings {
        let mut drawing = session();
        let ports = BootPorts { render, audio_operations: 0 };
        let (outcome, result) = drawing.boot(RfvpBootConfig::default(), evidence(), ports);
        assert_eq!(outcome.result, Ok(()));
        assert_eq!(result, Err(RfvpError::InvalidData));
    }
    let mut playing = session();
    let (_, result) = playing.boot(
        RfvpBootConfig::default(),
        evidence(),
        BootPorts { render: Vec::new(), audio_operations: 1 },
    );
    assert_eq!(result, Err(RfvpError::InvalidData));
    let mut failing = session();
    let (outcome, result) = failing.boot(
        RfvpBootConfig::default(),
        BootEvidence { font: FontReply::Invalid, ..evidence() },
        BootPorts { render: vec![RenderCall::Present], audio_operations: 1 },
    );
    assert_eq!(outcome.result, Err(RfvpError::InvalidData));
    assert!(matches!(outcome.fatal, Some((FatalErrorCode::InvalidDefaultFont, _))));
    assert_eq!(result, Err(RfvpError::InvalidData));
}

#[test]
fn a_step_reports_one_delta() {
    let mut session = booted();
    let start = session
        .begin_step(
            HostedStepInput { events: vec![RfvpEvent::PointerMove { x: 1, y: 2, in_screen: true }] },
            16_667,
        )
        .unwrap();
    assert_eq!(start.tick.consumed_events, 1);
    assert_eq!(start.tick.input.len(), 1);
    let engine = EngineReply {
        movies: vec![HostMovieCommand {
            resource_uri: "movie/op.wmv".to_string(),
            byte_len: 12,
            mode: MovieMode::ModalWithAudio,
            screen_w: 640,
            screen_h: 480,
        }],
        text: vec![HostedTextEvent { slot: 2, text: "line".to_string() }],
        audio: vec![AudioCommand::LoadEncoded {
            id: AudioStreamId(4),
            kind: EncodedAudioKind::Ogg,
            resource_uri: Some("bgm/1.ogg".to_string()),
            bytes: Vec::new(),
        }],
        render: vec![
            RenderCall::BeginFrame { width: 640, height: 480, clear: None },
            RenderCall::EndFrame,
            RenderCall::Present,
        ],
        ..quiet_engine()
    };
    let delta = session.step(start, engine).unwrap();
    assert_eq!(delta.tick.frame_index, 1);
    assert_eq!(delta.tick.consumed_events, 1);
    assert!(delta.visual_changed);
    assert_eq!(delta.visual_damage, HostedVisualDamage::Full);
    assert!(matches!(
        &delta.audio[..],
        [HostedAudioOperation::Tick { elapsed_us: 0 }, HostedAudioOperation::LoadResource { resource_uri, .. }]
            if resource_uri == "bgm/1.ogg"
    ));
    assert!(matches!(
        &delta.video[..],
        [HostedVideoOperation::Play { resource_uri, byte_len: 12, modal_with_audio: true, .. }]
            if resource_uri == "movie/op.wmv"
    ));
    let text = session.take_text_events();
    assert_eq!((text[0].slot, text[0].text.as_str()), (2, "line"));
    assert!(session.take_text_events().is_empty());
    assert_eq!(session.complete_video(), Ok(()));
    assert_eq!(session.complete_video(), Err(RfvpError::InvalidData));
}

#[test]
fn a_step_advances_by_the_clock() {
    let mut session = booted();
    let start = session.begin_step(HostedStepInput::default(), 5_000).unwrap();
    assert_eq!(start.tick.elapsed_us, 0);
    session.step(start, quiet_engine()).unwrap();
    let start = session.begin_step(HostedStepInput::default(), 21_667).unwrap();
    assert_eq!(start.tick.elapsed_us, 16_667);
    assert_eq!(start.tick.frame_time_ms, 16);
}

#[test]
fn a_step_fails_with_the_engine() {
    let mut session = booted();
    let start = session.begin_step(HostedStepInput::default(), 1).unwrap();
    let failed = session.step(
        start,
        EngineReply { script: Err("stack underflow".to_string()), ..quiet_engine() },
    );
    assert_eq!(failed.err(), Some(RfvpError::Unsupported));
    assert_eq!(session.core_state().last_error_detail(), Some("stack underflow"));
}

#[test]
fn quitting_ends_the_session() {
    let mut session = booted();
    assert!(!session.quit_requested());
    let start = session
        .begin_step(HostedStepInput { events: vec![RfvpEvent::Quit] }, 1)
        .unwrap();
    assert!(start.tick.quit);
    session.step(start, quiet_engine()).unwrap();
    assert!(session.quit_requested());
    assert!(session.is_terminal());
}

#[test]
fn evidence_of_a_quit_is_recorded_when_asked_for() {
    let mut session = session();
    session
        .set_trace_profile(HostedTraceProfile::Evidence { crash_trace_capacity: 8 })
        .unwrap();
    session.boot(RfvpBootConfig::default(), evidence(), quiet_ports()).1.unwrap();
    let start = session
        .begin_step(HostedStepInput { events: vec![RfvpEvent::Quit] }, 1)
        .unwrap();
    let delta = session.step(start, quiet_engine()).unwrap();
    assert_eq!(delta.logs.len(), 1);
    assert_eq!(delta.logs[0].event, HostedLogEvent::QuitRequested);
    assert_eq!(session.crash_trace(vec![1, 2]), Ok(vec![1, 2]));
}

#[test]
fn too_many_events_do_not_fit() {
    let config = RfvpCoreConfig { max_pending_events: 1, ..RfvpCoreConfig::default() };
    let mut session = HostedSession::new(config, HostedLimits::default()).unwrap();
    session.boot(RfvpBootConfig::default(), evidence(), quiet_ports()).1.unwrap();
    assert_eq!(
        session
            .begin_step(HostedStepInput { events: vec![RfvpEvent::Quit, RfvpEvent::Quit] }, 1)
            .err(),
        Some(RfvpError::CapacityExceeded)
    );
}

#[test]
fn a_snapshot_brings_the_core_back() {
    let mut core = RfvpCore::new(RfvpCoreConfig::default());
    core.boot(RfvpBootConfig::default(), evidence());
    core.game.globals.set(2, Variant::Int(41));
    core.frame_index = 7;
    let snapshot = core.capture_hosted_snapshot(vec![9]).unwrap();
    core.game.globals.set(2, Variant::Nil);
    core.frame_index = 8;
    assert_eq!(core.restore_hosted_snapshot(&snapshot, true), Ok(()));
    assert_eq!(core.frame_index(), 7);
    assert_eq!(core.game.globals.get_int_var(0), 41);
    assert_eq!(core.restore_hosted_snapshot(&snapshot, false), Err(RfvpError::InvalidData));
}

#[test]
fn a_checkpoint_holds_what_the_script_set() {
    let mut session = booted();
    let start = session.begin_step(HostedStepInput::default(), 1).unwrap();
    let engine = EngineReply {
        globals: vec![
            (0, Variant::True),
            (1, Variant::Kept(7)),
            (3, Variant::Int(1)),
            (3, Variant::Int(41)),
            (9, Variant::Int(5)),
        ],
        ..quiet_engine()
    };
    session.step(start, engine).unwrap();
    let snapshot = session.engine.capture_hosted_snapshot(Vec::new()).unwrap();
    assert!(matches!(
        snapshot.globals.values.as_slice(),
        [Variant::True, Variant::Kept(7), Variant::Nil, Variant::Int(41), Variant::Nil]
    ));
    let start = session.begin_step(HostedStepInput::default(), 2).unwrap();
    let failed = EngineReply {
        script: Err("stack underflow".to_string()),
        globals: vec![(3, Variant::Nil)],
        ..quiet_engine()
    };
    assert!(session.step(start, failed).is_err());
    assert_eq!(session.engine.game.globals.get_int_var(1), 0);
    assert_eq!(session.engine.restore_hosted_snapshot(&snapshot, true), Ok(()));
    assert_eq!(session.engine.game.globals.get_int_var(1), 41);
}

#[test]
fn canonical_state_starts_with_the_session_part() {
    let mut core = RfvpCore::new(RfvpCoreConfig::default());
    let parts = CanonicalParts {
        globals: vec![0xa1],
        input_and_time: vec![0xa2],
        runtime: vec![0xa3],
        motion: vec![0xa4],
        audio: vec![0xa5],
        vm: vec![0xa6],
    };
    assert_eq!(
        core.canonical_hosted_state_bytes(&parts),
        Err(RfvpError::InvalidData)
    );
    core.boot(RfvpBootConfig::default(), evidence());
    core.frame_index = 0x0102;
    core.last_tick_us = Some(3);
    core.quit_requested = true;
    let session = [1, 0, 2, 1, 0, 0, 0, 0, 0, 0, 1, 3, 0, 0, 0, 0, 0, 0, 0, 1];
    let mut expected = session.to_vec();
    expected.extend([0xa1, 0xa2, 0xa3, 0xa4, 0xa5, 0xa6]);
    assert_eq!(core.canonical_hosted_state_bytes(&parts), Ok(expected));
    let hashes = core.canonical_hosted_state_component_hashes(&parts).unwrap();
    assert_eq!(hashes.session.to_hex(), Hash256::from_sha256(&session).to_hex());
    assert_eq!(hashes.vm.to_hex(), Hash256::from_sha256(&[0xa6]).to_hex());
}

#[test]
fn a_file_that_cannot_be_read_is_a_failure() {
    let session = booted();
    let packed = || PackReply::Stream { known_len: Some(1), bytes: Some(vec![7]) };
    for error in [RfvpError::NotFound, RfvpError::Io, RfvpError::CapacityExceeded] {
        assert_eq!(
            session.read_resource("a", 10, FileReply::Unreadable(error), packed()),
            Err(error)
        );
    }
    assert_eq!(
        session.read_resource("a", 10, FileReply::Unopened(RfvpError::Io), packed()),
        Err(RfvpError::Io)
    );
}

#[test]
fn a_restore_brings_the_state_and_its_hashes_back() {
    let parts = || CanonicalParts {
        globals: vec![1],
        input_and_time: vec![2],
        runtime: vec![3],
        motion: vec![4],
        audio: vec![5],
        vm: vec![6],
    };
    let movie = HostMovieCommand {
        resource_uri: "op.wmv".to_string(),
        byte_len: 3,
        mode: MovieMode::ModalWithAudio,
        screen_w: 1,
        screen_h: 2,
    };
    let mut session = booted();
    let start = session.begin_step(HostedStepInput::default(), 5).unwrap();
    let engine = EngineReply { movies: vec![movie], halted: true, ..quiet_engine() };
    session.step(start, engine).unwrap();
    let snapshot = session.engine.capture_hosted_snapshot(Vec::new()).unwrap();
    let bytes = session.engine.canonical_hosted_state_bytes(&parts()).unwrap();
    let hashes = session.engine.canonical_hosted_state_component_hashes(&parts()).unwrap();
    session.complete_video().unwrap();
    let start = session.begin_step(HostedStepInput { events: vec![RfvpEvent::Quit] }, 9).unwrap();
    let engine = EngineReply { main_thread_exited: true, should_exit: true, ..quiet_engine() };
    session.step(start, engine).unwrap();
    assert!(session.is_terminal());
    let later = session.engine.canonical_hosted_state_component_hashes(&parts()).unwrap();
    assert_ne!(later.session.to_hex(), hashes.session.to_hex());
    assert_eq!(session.engine.restore_hosted_snapshot(&snapshot, true), Ok(()));
    assert!(!session.is_terminal());
    assert!(session.engine.game.halted);
    assert!(session.engine.game.video_manager.is_modal_active());
    let now = session.engine.canonical_hosted_state_component_hashes(&parts()).unwrap();
    assert_eq!(now.session.to_hex(), hashes.session.to_hex());
    assert_eq!(now.vm.to_hex(), hashes.vm.to_hex());
    assert_eq!(session.engine.canonical_hosted_state_bytes(&parts()).unwrap(), bytes);
}

#[test]
fn resources_come_from_files_first() {
    let session = booted();
    assert_eq!(
        session.read_resource("a", 10, FileReply::Read(vec![1]), PackReply::Missing),
        Ok(vec![1])
    );
    let packed = PackReply::Stream { known_len: Some(2), bytes: Some(vec![7, 8]) };
    assert_eq!(
        session.read_resource("a", 10, FileReply::Unopened(RfvpError::NotFound), packed),
        Ok(vec![7, 8])
    );
    let long = PackReply::Stream { known_len: Some(11), bytes: None };
    assert_eq!(
        session.read_resource("a", 10, FileReply::Unopened(RfvpError::NotFound), long),
        Err(RfvpError::CapacityExceeded)
    );
    assert_eq!(
        session.read_resource("", 10, FileReply::Unopened(RfvpError::NotFound), PackReply::Missing),
        Err(RfvpError::InvalidArgument)
    );
}

#[test]
fn a_surface_is_lent_and_returned() {
    let mut session = booted();
    let buffer = session
        .take_surface(2, 1, SurfacePixelFormat::Rgba8, vec![5; 8])
        .unwrap();
    assert!(matches!(buffer.pixels, SoftPixelStorage::Lent(_)));
    assert_eq!(HostedSession::return_surface(buffer, Ok(())), Ok(vec![5; 8]));
    assert!(session.take_surface(2, 1, SurfacePixelFormat::Rgba8, vec![5; 7]).is_err());
}

#[test]
fn archive_folders_are_named_after_the_archive() {
    assert_eq!(pack_folder("data/graph.bin"), "graph");
    assert_eq!(pack_folder("data/graph"), "data/graph");
    let lines = vec![
        ("a.bin".to_string(), RfvpFileInfo::file(1)),
        ("dir".to_string(), RfvpFileInfo { len: 0, kind: RfvpFileKind::Directory }),
        ("b.bin".to_string(), RfvpFileInfo::file(2)),
    ];
    assert_eq!(build_host_vfs(&lines), vec!["a.bin".to_string(), "b.bin".to_string()]);
}

#[test]
fn global_variables_keep_their_kinds_apart() {
    let mut globals = Global::new();
    globals.init_with(2, 1);
    globals.set(0, Variant::Text("kept".to_string()));
    globals.set(2, Variant::Int(5));
    assert_eq!(globals.get_int_var(0), 5);
    assert_eq!(globals.get_int_var(1), 0);
    let kept = globals.snapshot_non_volatile();
    let rest = globals.snapshot_volatile_globals();
    assert_eq!((kept.len(), rest.len()), (2, 1));
    globals.init_with(2, 1);
    assert!(matches!(globals.get(0), Some(Variant::Nil)));
    globals.restore_non_volatile(&kept);
    assert!(matches!(globals.get(0), Some(Variant::Text(text)) if text == "kept"));
    assert_eq!(globals.get_int_var(0), 0);
    assert!(!globals.restore_volatile_globals(2, 2, &rest));
    assert!(globals.restore_volatile_globals(2, 1, &rest));
    assert_eq!(globals.get_int_var(0), 5);
    if let Some(value) = globals.get_mut(1) {
        *value = Variant::Float(Float32 { bits: 0 });
    }
    assert!(matches!(globals.get(1), Some(Variant::Float(_))));
    let snapshot = globals.capture_hosted_snapshot();
    globals.set(2, Variant::True);
    assert!(globals.restore_hosted_snapshot(&snapshot));
    assert_eq!(globals.get_int_var(0), 5);
    let mut other = Global::new();
    other.init_with(1, 1);
    assert!(!other.restore_hosted_snapshot(&snapshot));
}

#[test]
fn movies_queue_and_stop() {
    let mut video = VideoPlayerManager::new();
    assert!(video
        .start_from_resource("movie/op.wmv", 0, MovieMode::LayerNoAudio, 1, 1)
        .is_err());
    assert!(!video.is_playing());
    video
        .start_from_resource("movie/op.wmv", 9, MovieMode::ModalWithAudio, 640, 480)
        .unwrap();
    assert!(video.is_playing() && video.is_loaded() && video.is_modal_active());
    let mut out = Vec::new();
    video.drain_host_commands(&mut out);
    assert_eq!(out.len(), 1);
    assert_eq!(out[0].byte_len, 9);
    video.drain_host_commands(&mut out);
    assert_eq!(out.len(), 1);
    video.stop();
    assert!(!video.is_playing() && !video.is_modal_active());
}

#[test]
fn framebuffers_hold_four_bytes_per_pixel() {
    let mut buffer = SoftFramebuffer::new(2, 3, SurfacePixelFormat::Rgba8).unwrap();
    assert_eq!((buffer.stride(), buffer.pixels().len()), (8, 24));
    buffer.clear_rgba(1, 2, 3, 4);
    assert_eq!(&buffer.pixels()[20..], &[1, 2, 3, 4]);
    assert!(buffer.resize(1, 1).is_ok());
    assert_eq!(buffer.pixels().len(), 4);
    let error = SoftFramebuffer::from_pixels(2, 2, SurfacePixelFormat::Rgba8, vec![0; 3]).err().unwrap();
    assert_eq!(error, SoftRenderError::DimensionsTooLarge { width: 2, height: 2 });
    assert_eq!(error.to_text(), "software framebuffer dimensions are too large: 2x2");
}
