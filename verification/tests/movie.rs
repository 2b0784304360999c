use rfvp_hosted_provider::float::Float32;
use rfvp_hosted_provider::movie::{
    decode_fvp_movie, fvp_movie_compatibility, normalize_timeline, open_fvp_movie_stream, AudioOpening,
    FvpDecodedMovie, FvpMovieAudioChunk, FvpMovieCompatibility, FvpMovieDecodeError, FvpMovieFrame,
    FvpMoviePacket, FvpMoviePacketStream, MovieCodec, MpegEvent, MpegFeed, MpegStep, QueueReply,
    WmvInterleave, WmvRequest, MPEG_INPUT_CHUNK_BYTES,
};
use rfvp_hosted_provider::yuv::{pixel, yuv420_to_rgba, YuvFrame};

fn frame(pts_ms: u64) -> FvpMovieFrame {
    FvpMovieFrame { pts_ms, width: 2, height: 2, rgba8: vec![0; 16] }
}

fn chunk(pts_ms: u64, samples: usize) -> FvpMovieAudioChunk {
    FvpMovieAudioChunk {
        pts_ms,
        sample_rate: 1_000,
        channels: 2,
        samples: vec![Float32 { bits: 0 }; samples],
    }
}

#[test]
fn compatibility_probe_distinguishes_native_platform_and_unsupported() {
    for (platform, own) in [
        (true, FvpMovieCompatibility::PlatformProviderRequired),
        (false, FvpMovieCompatibility::Native),
    ] {
        assert_eq!(fvp_movie_compatibility("WMV", platform), own);
        assert_eq!(fvp_movie_compatibility(".mpeg", platform), own);
        assert_eq!(
            fvp_movie_compatibility("mp4", platform),
            FvpMovieCompatibility::PlatformProviderRequired
        );
        assert_eq!(
            fvp_movie_compatibility("avi", platform),
            FvpMovieCompatibility::Unsupported
        );
    }
}

#[test]
fn timeline_requires_frames_and_monotonic_pts() {
    let mut empty = FvpDecodedMovie { frames: Vec::new(), audio: None, duration_ms: 0 };
    assert!(matches!(
        normalize_timeline(&mut empty),
        Err(FvpMovieDecodeError::Decode)
    ));
    let mut movie = FvpDecodedMovie {
        frames: vec![
            FvpMovieFrame { pts_ms: 20, width: 2, height: 2, rgba8: vec![0; 16] },
            FvpMovieFrame { pts_ms: 10, width: 2, height: 2, rgba8: vec![0; 16] },
        ],
        audio: None,
        duration_ms: 0,
    };
    assert!(matches!(
        normalize_timeline(&mut movie),
        Err(FvpMovieDecodeError::Timeline)
    ));
}

#[test]
fn decode_rejects_empty_and_unknown_inputs_before_codec_dispatch() {
    assert!(matches!(
        decode_fvp_movie("wmv", &[], 1, 16, 16),
        Err(FvpMovieDecodeError::Budget)
    ));
    assert!(matches!(
        decode_fvp_movie("avi", &[1], 1, 16, 16),
        Err(FvpMovieDecodeError::Unsupported)
    ));
}

#[test]
fn a_movie_lasts_one_step_beyond_its_last_picture() {
    let mut movie =
        FvpDecodedMovie { frames: vec![frame(100), frame(100), frame(140)], audio: None, duration_ms: 0 };
    normalize_timeline(&mut movie).unwrap();
    assert_eq!(movie.duration_ms, 180);
    let mut single = FvpDecodedMovie { frames: vec![frame(7)], audio: None, duration_ms: 0 };
    normalize_timeline(&mut single).unwrap();
    assert_eq!(single.duration_ms, 41);
}

#[test]
fn a_movie_is_collected_from_its_packets() {
    let (codec, mut stream, mut movie) = decode_fvp_movie("mpg", &[1], 4, 64, 600).unwrap();
    assert_eq!(codec, MovieCodec::Mpeg);
    for packet in [
        FvpMoviePacket::Video(frame(10)),
        FvpMoviePacket::Audio(chunk(10, 400)),
        FvpMoviePacket::Audio(chunk(210, 200)),
        FvpMoviePacket::Video(frame(50)),
    ] {
        assert!(movie.collect(stream.next_packet(Ok(packet)).unwrap()));
    }
    assert!(!movie.collect(stream.next_packet(Ok(FvpMoviePacket::End)).unwrap()));
    normalize_timeline(&mut movie).unwrap();
    let audio = movie.audio.unwrap();
    assert_eq!((audio.sample_rate, audio.channels, audio.samples.len()), (1_000, 2, 600));
    assert_eq!(movie.frames.len(), 2);
    assert_eq!(movie.duration_ms, 90);
}

#[test]
fn streams_keep_their_budgets() {
    assert_eq!(
        open_fvp_movie_stream("avi", 1, 1, 16, 1).err(),
        Some(FvpMovieDecodeError::Unsupported)
    );
    assert_eq!(open_fvp_movie_stream("wmv", 1, 0, 16, 1).err(), Some(FvpMovieDecodeError::Budget));
    let (codec, mut stream) = open_fvp_movie_stream(".WMV", 1, 1, 16, 2).unwrap();
    assert_eq!(codec, MovieCodec::Wmv);
    assert!(stream.next_packet(Ok(FvpMoviePacket::Video(frame(5)))).is_ok());
    assert_eq!(
        stream.next_packet(Ok(FvpMoviePacket::Video(frame(6)))).err(),
        Some(FvpMovieDecodeError::Budget)
    );
    let (_, mut stream) = open_fvp_movie_stream("wmv", 1, 4, 64, 2).unwrap();
    stream.next_packet(Ok(FvpMoviePacket::Video(frame(5)))).unwrap();
    assert_eq!(
        stream.next_packet(Ok(FvpMoviePacket::Video(frame(4)))).err(),
        Some(FvpMovieDecodeError::Timeline)
    );
    let (_, mut stream) = open_fvp_movie_stream("wmv", 1, 4, 20, 2).unwrap();
    stream.next_packet(Ok(FvpMoviePacket::Video(frame(5)))).unwrap();
    assert_eq!(
        stream.next_packet(Ok(FvpMoviePacket::Video(frame(5)))).err(),
        Some(FvpMovieDecodeError::Budget)
    );
    let (_, mut stream) = open_fvp_movie_stream("wmv", 1, 4, 64, 2).unwrap();
    assert_eq!(
        stream.next_packet(Ok(FvpMoviePacket::Audio(chunk(0, 4)))).err(),
        Some(FvpMovieDecodeError::Budget)
    );
    assert_eq!(
        stream.next_packet(Ok(FvpMoviePacket::Audio(chunk(0, 1)))).err(),
        Some(FvpMovieDecodeError::Decode)
    );
    assert_eq!(
        stream.next_packet(Ok(FvpMoviePacket::End)).err(),
        Some(FvpMovieDecodeError::Decode)
    );
    let (_, mut stream) = open_fvp_movie_stream("wmv", 1, 4, 64, 8).unwrap();
    stream.next_packet(Ok(FvpMoviePacket::Audio(chunk(0, 2)))).unwrap();
    let other = FvpMovieAudioChunk { sample_rate: 2_000, ..chunk(0, 2) };
    assert!(stream.next_packet(Ok(FvpMoviePacket::Audio(other))).is_err());
    let (_, mut stream) = open_fvp_movie_stream("wmv", 1, 4, 64, 8).unwrap();
    stream.next_packet(Ok(FvpMoviePacket::Video(frame(0)))).unwrap();
    assert!(matches!(stream.next_packet(Ok(FvpMoviePacket::End)), Ok(FvpMoviePacket::End)));
    assert!(!stream.wants_packet());
}

#[test]
fn pictures_and_sound_come_in_order_of_time() {
    let picture = || YuvFrame { width: 2, height: 2, y: vec![16; 4], cb: vec![128], cr: vec![128] };
    assert!(WmvInterleave::open(false, AudioOpening::Opened).is_err());
    assert!(WmvInterleave::open(true, AudioOpening::Failed).is_err());
    let mut order = Vec::new();
    let mut pictures = vec![40, 0];
    let mut sounds = vec![60, 20];
    let mut wmv = WmvInterleave::open(true, AudioOpening::Opened).unwrap();
    loop {
        match wmv.request() {
            WmvRequest::Video => wmv.accept_video(Ok(pictures.pop().map(|p| (p, picture())))).unwrap(),
            WmvRequest::Audio => wmv.accept_audio(Ok(sounds.pop().map(|p| chunk(p, 2)))).unwrap(),
            WmvRequest::Ready => match wmv.take() {
                FvpMoviePacket::Video(video) => order.push(('v', video.pts_ms)),
                FvpMoviePacket::Audio(audio) => order.push(('a', audio.pts_ms)),
                FvpMoviePacket::End => break,
            },
        }
    }
    assert_eq!(order, [('v', 0), ('a', 20), ('v', 40), ('a', 60)]);
}

#[test]
fn the_codec_sees_the_whole_file() {
    let len = MPEG_INPUT_CHUNK_BYTES + 10;
    let mut feed = MpegFeed::new(len);
    let mut seen = 0;
    let mut flushes = 0;
    let mut packets = 0;
    loop {
        match feed.next() {
            MpegStep::Push { from, to } => {
                assert_eq!(from, seen);
                seen = to;
                let event = MpegEvent::Video { pts_ms: -5, width: 2, height: 2, rgba8: vec![0; 16] };
                feed.accept(vec![event], true).unwrap();
            }
            MpegStep::Flush => {
                flushes += 1;
                feed.accept(Vec::new(), true).unwrap();
            }
            MpegStep::Packet(FvpMoviePacket::End) => break,
            MpegStep::Packet(FvpMoviePacket::Video(video)) => {
                assert_eq!(video.pts_ms, 0);
                packets += 1;
            }
            MpegStep::Packet(other) => panic!("no sound was handed in: {other:?}"),
        }
    }
    assert_eq!((seen, flushes, packets), (len, 1, 2));
    let mut feed = MpegFeed::new(1);
    assert!(matches!(feed.next(), MpegStep::Push { from: 0, to: 1 }));
    assert_eq!(feed.accept(Vec::new(), false), Err(FvpMovieDecodeError::Decode));
}

#[test]
fn packet_queues_end_once() {
    assert_eq!(FvpMoviePacketStream::open(0).err(), Some(FvpMovieDecodeError::Budget));
    let mut stream = FvpMoviePacketStream::open(1).unwrap();
    assert!(stream.try_next(QueueReply::Empty).unwrap().is_none());
    assert!(matches!(
        stream.try_next(QueueReply::Packet(Ok(FvpMoviePacket::End))),
        Ok(Some(FvpMoviePacket::End))
    ));
    assert!(stream.ended);
    let mut stream = FvpMoviePacketStream::open(1).unwrap();
    assert_eq!(
        stream.try_next(QueueReply::Disconnected).err(),
        Some(FvpMovieDecodeError::Decode)
    );
}

#[test]
fn failures_have_lines() {
    assert_eq!(FvpMovieDecodeError::Unsupported.to_text(), "ASTRA_FVP_MOVIE_CODEC_UNSUPPORTED");
    assert_eq!(FvpMovieDecodeError::Decode.to_text(), "ASTRA_FVP_MOVIE_DECODE");
    assert_eq!(FvpMovieDecodeError::Budget.to_text(), "ASTRA_FVP_MOVIE_BUDGET");
    assert_eq!(FvpMovieDecodeError::Timeline.to_text(), "ASTRA_FVP_MOVIE_TIMELINE");
}

fn byte(value: f32) -> u8 {
    value.round().clamp(0.0, 255.0) as u8
}

#[test]
fn red_and_blue_follow_single_precision() {
    for y in 0..=255u8 {
        let luma = f32::from(y) - 16.0;
        for c in 0..=255u8 {
            let chroma = f32::from(c) - 128.0;
            let red = byte(1.164f32 * luma + 1.596f32 * chroma);
            let blue = byte(1.164f32 * luma + 2.017f32 * chroma);
            assert_eq!(pixel(y, c, c).0, red, "{y} {c}");
            assert_eq!(pixel(y, c, c).2, blue, "{y} {c}");
        }
    }
}

#[test]
fn green_follows_single_precision() {
    for y in (0..=255u8).step_by(5) {
        let luma = f32::from(y) - 16.0;
        for cb in 0..=255u8 {
            let blue = f32::from(cb) - 128.0;
            for cr in 0..=255u8 {
                let red = f32::from(cr) - 128.0;
                let green = byte(1.164f32 * luma - 0.392f32 * blue - 0.813f32 * red);
                if pixel(y, cb, cr).1 != green {
                    panic!("{y} {cb} {cr}");
                }
            }
        }
    }
}

#[test]
fn pictures_share_chroma_in_squares() {
    let picture = YuvFrame {
        width: 3,
        height: 1,
        y: vec![16, 126, 235],
        cb: vec![128, 90],
        cr: vec![128, 240],
    };
    let rgba = yuv420_to_rgba(&picture).unwrap();
    let mut expected = Vec::new();
    for (y, cb, cr) in [(16, 128, 128), (126, 128, 128), (235, 90, 240)] {
        let (r, g, b) = pixel(y, cb, cr);
        expected.extend([r, g, b, 255]);
    }
    assert_eq!(rgba, expected);
    let torn = YuvFrame { width: 3, height: 1, y: vec![0; 2], cb: vec![0; 2], cr: vec![0; 2] };
    assert!(yuv420_to_rgba(&torn).is_err());
}
