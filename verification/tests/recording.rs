use rfvp_hosted_provider::float::Float32;
use rfvp_hosted_provider::host_api::{
    AudioParams, AudioSampleFormat, AudioStreamDesc, AudioStreamId, ColorRgba, DrawSolidCommand,
    EncodedAudioKind, PixelBuffer, PixelFormat, RectI32, BlendMode, RfvpError, RfvpLogLevel, TextureDesc,
    TextureId, TextureRect,
};
use rfvp_hosted_provider::recording::{
    classify_hosted_log, HostedAudioOperation, HostedLimits, HostedLogEvent, HostedLogRecord,
    RecordingAudio, RecordingLogs, ACCOUNTED_BYTES,
};
use rfvp_hosted_provider::surface::{
    direct_frame_damage, union_rect, DirectFrameCommand, DirectSurfaceTracker, HostedDamageRect,
    HostedVisualDamage,
};

fn float(value: f32) -> Float32 {
    Float32 { bits: value.to_bits() }
}

fn black() -> ColorRgba {
    ColorRgba { r: float(0.0), g: float(0.0), b: float(0.0), a: float(1.0) }
}

fn white() -> ColorRgba {
    ColorRgba { r: float(1.0), g: float(1.0), b: float(1.0), a: float(1.0) }
}

fn solid(rect: RectI32) -> DrawSolidCommand {
    DrawSolidCommand { rect, color: white(), blend: BlendMode::Opaque, scissor: None }
}

fn solid_frame(rect: RectI32) -> Vec<DirectFrameCommand> {
    vec![
        DirectFrameCommand::BeginFrame { width: 100, height: 100, clear: Some(black()) },
        DirectFrameCommand::DrawSolid(solid(rect)),
        DirectFrameCommand::EndFrame,
        DirectFrameCommand::Present,
    ]
}

#[test]
fn recording_audio_preserves_resource_identity_without_payload_bytes() {
    let mut audio = RecordingAudio::new();
    audio
        .load_resource(AudioStreamId(3), EncodedAudioKind::Ogg, "audio/theme.ogg")
        .expect("resource audio is accepted");
    assert!(matches!(
        audio.operations.as_slice(),
        [HostedAudioOperation::LoadResource { resource_uri, .. }]
            if resource_uri == "audio/theme.ogg"
    ));
}

#[test]
fn direct_surface_tracker_validates_texture_lifetime_without_retaining_pixels() {
    let mut renderer = DirectSurfaceTracker::new();
    let desc = TextureDesc { width: 1, height: 1, format: PixelFormat::Rgba8, mip_count: 1 };
    let pixels = [1, 2, 3, 4];

    renderer
        .create_texture(TextureId(7), desc, Some(PixelBuffer::Borrowed(&pixels)))
        .expect("the first texture write is accepted");
    assert_eq!(renderer.textures, vec![(TextureId(7), desc)]);
    assert!(renderer.direct_frame.is_empty());
    renderer
        .create_texture(TextureId(7), desc, Some(PixelBuffer::Borrowed(&pixels)))
        .expect("a same-id texture write is an update");
    assert_eq!(renderer.textures, vec![(TextureId(7), desc)]);
}

#[test]
fn shipping_log_recorder_does_not_allocate_records() {
    let mut logs = RecordingLogs::new(HostedLimits::default(), false);
    logs.record(RfvpLogLevel::Error, "core failure");
    assert!(logs.take().is_empty());
    assert_eq!(logs.dropped_count, 0);
}

#[test]
fn evidence_log_recorder_keeps_only_structured_identity() {
    let mut logs = RecordingLogs::new(HostedLimits::default(), true);
    logs.record(RfvpLogLevel::Info, "a local path must not escape");
    assert_eq!(
        logs.take(),
        vec![HostedLogRecord { level: RfvpLogLevel::Info, event: HostedLogEvent::HostMessage }]
    );
}

#[test]
fn evidence_log_overflow_is_reported_without_blocking_the_step() {
    let limits = HostedLimits {
        max_log_records: 1,
        max_log_bytes: ACCOUNTED_BYTES,
        ..HostedLimits::default()
    };
    let mut logs = RecordingLogs::new(limits, true);
    logs.record(RfvpLogLevel::Info, "first");
    logs.record(RfvpLogLevel::Info, "second");
    assert_eq!(logs.take().len(), 1);
    assert_eq!(logs.dropped_count, 1);
}

#[test]
fn direct_frame_damage_is_unchanged_without_semantic_changes() {
    let frame = solid_frame(RectI32 { x: 10, y: 20, width: 30, height: 40 });
    assert_eq!(
        direct_frame_damage(&frame, &frame, &Vec::new()),
        HostedVisualDamage::Unchanged
    );
}

#[test]
fn direct_frame_damage_unions_old_and_new_draw_bounds() {
    let previous = solid_frame(RectI32 { x: 10, y: 20, width: 30, height: 40 });
    let current = solid_frame(RectI32 { x: 25, y: 30, width: 30, height: 10 });
    assert_eq!(
        direct_frame_damage(&previous, &current, &Vec::new()),
        HostedVisualDamage::Rect(HostedDamageRect { x: 10, y: 20, width: 45, height: 40 })
    );
}

#[test]
fn a_frame_of_another_size_is_new_as_a_whole() {
    let previous = solid_frame(RectI32 { x: 0, y: 0, width: 1, height: 1 });
    let mut current = previous.clone();
    current[0] = DirectFrameCommand::BeginFrame { width: 50, height: 100, clear: Some(black()) };
    assert_eq!(
        direct_frame_damage(&previous, &current, &Vec::new()),
        HostedVisualDamage::Full
    );
}

#[test]
fn bounds_join_to_the_smallest_rectangle() {
    let a = HostedDamageRect { x: 5, y: 6, width: 10, height: 10 };
    let b = HostedDamageRect { x: 1, y: 20, width: 2, height: 5 };
    assert_eq!(union_rect(None, a), a);
    assert_eq!(
        union_rect(Some(a), b),
        HostedDamageRect { x: 1, y: 6, width: 14, height: 19 }
    );
}

#[test]
fn presented_frames_report_their_damage_once() {
    let mut tracker = DirectSurfaceTracker::new();
    let rect = RectI32 { x: 1, y: 2, width: 3, height: 4 };
    for expected in [HostedVisualDamage::Full, HostedVisualDamage::Unchanged] {
        tracker.begin_frame(10, 10, Some(black())).unwrap();
        tracker.draw_solid(&solid(rect)).unwrap();
        tracker.end_frame().unwrap();
        tracker.present().unwrap();
        let changed = expected != HostedVisualDamage::Unchanged;
        assert_eq!(tracker.take_visual_changed(), changed);
        assert_eq!(tracker.take_visual_damage(), expected);
        assert!(!tracker.take_visual_changed());
        assert_eq!(tracker.take_visual_damage(), HostedVisualDamage::Unchanged);
    }
}

#[test]
fn textures_must_exist_and_fit() {
    let mut tracker = DirectSurfaceTracker::new();
    let desc = TextureDesc { width: 2, height: 2, format: PixelFormat::Rgba8, mip_count: 1 };
    let rect = TextureRect { x: 0, y: 0, width: 1, height: 1 };
    assert!(tracker.update_sized(TextureId(1), rect, 4).is_err());
    let mut tracker = DirectSurfaceTracker::new();
    assert_eq!(tracker.create_sized(TextureId(1), desc, Some(16)), Ok(()));
    assert_eq!(tracker.update_sized(TextureId(1), rect, 4), Ok(()));
    assert!(tracker.update_sized(TextureId(1), rect, 3).is_err());
    let mut tracker = DirectSurfaceTracker::new();
    assert!(tracker.create_sized(TextureId(1), desc, Some(15)).is_err());
}

#[test]
fn audio_operations_are_recorded_in_order() {
    let mut audio = RecordingAudio::new();
    let desc = AudioStreamDesc { sample_rate: 44_100, channels: 2, sample_format: AudioSampleFormat::I16 };
    audio.create_stream(AudioStreamId(1), desc).unwrap();
    audio.submit_i16(AudioStreamId(1), &[1, 2, 3]).unwrap();
    audio.submit_f32(AudioStreamId(1), &[float(0.5)]).unwrap();
    audio.pause(AudioStreamId(1)).unwrap();
    audio.destroy_stream(AudioStreamId(1));
    assert_eq!(audio.operations.len(), 5);
    assert!(matches!(
        &audio.operations[1],
        HostedAudioOperation::SubmitI16 { samples, .. } if samples == &[1, 2, 3]
    ));
    assert!(audio.finish().is_ok());
}

#[test]
fn bad_audio_operations_are_refused() {
    let mut audio = RecordingAudio::new();
    assert_eq!(
        audio.load_resource(AudioStreamId(1), EncodedAudioKind::Wav, ""),
        Err(RfvpError::InvalidArgument)
    );
    assert_eq!(
        audio.set_master_volume(float(f32::NAN)),
        Err(RfvpError::InvalidArgument)
    );
    assert_eq!(audio.set_master_volume(float(0.25)), Ok(()));
    let params = AudioParams { volume: float(1.0), pan: float(0.0), repeat: false };
    assert_eq!(audio.play(AudioStreamId(1), params, 10), Ok(()));
}

#[test]
fn log_messages_have_identities() {
    assert_eq!(
        classify_hosted_log(RfvpLogLevel::Info, "quit requested by host event"),
        HostedLogEvent::QuitRequested
    );
    assert_eq!(classify_hosted_log(RfvpLogLevel::Error, "x"), HostedLogEvent::CoreFailure);
    assert_eq!(classify_hosted_log(RfvpLogLevel::Warn, "x"), HostedLogEvent::ResourceWarning);
    assert_eq!(classify_hosted_log(RfvpLogLevel::Debug, "x"), HostedLogEvent::HostMessage);
    assert_eq!(HostedLogEvent::QuitRequested.code(), "rfvp.host.quit_requested");
    assert_eq!(HostedLogEvent::CoreFailure.code(), "rfvp.core.failure");
    assert_eq!(HostedLogEvent::ResourceWarning.code(), "rfvp.resource.warning");
    assert_eq!(HostedLogEvent::HostMessage.code(), "rfvp.host.message");
}
