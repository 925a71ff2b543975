use sorkin::audio::{OpusEncoder, SpeakerMode};
use sorkin::conversion::{frame_to_pts, Format, Pixel};
use sorkin::encoder::VP9Encoder;
use sorkin::muxer::PacketTiming;
use sorkin::settings::EncoderConfig;
use sorkin::timing::{rescale, Rational};
use sorkin::writer::{is_webm_extension, EndStep, FrameStep, SessionState, AUDIO_FRAME_LEN};
use sorkin::SorkinWriter;
use sorkin::{ConversionFailure, EncodingFailure, Error, StateFailure, Status};

fn tb(num: i32, den: i32) -> Rational {
    Rational { num, den }
}

fn silent() -> EncoderConfig {
    EncoderConfig { enable_audio: false, ..EncoderConfig::default() }
}

/// A session that has seen its first frame and records.
fn recording(config: EncoderConfig, fps: u32) -> SorkinWriter {
    let mut writer = SorkinWriter::init(config);
    assert_eq!(writer.write_begin((640, 480), fps, "out.mp4".to_string()), Status::Okay);
    assert_eq!(writer.frame_arrived(640, 480), FrameStep::Construct { width: 640, height: 480 });
    assert_eq!(writer.construction_finished(Ok(tb(1, fps as i32 * 1000))), FrameStep::Encode { pts: 0 });
    writer
}

#[test]
fn a_new_session_is_idle() {
    let writer = SorkinWriter::init(EncoderConfig::default());
    assert_eq!(writer.state(), SessionState::Idle);
    assert_eq!(writer.frame_count(), 0);
    assert_eq!(writer.fps(), 30);
    assert_eq!(writer.output_path(), None);
    assert_eq!(writer.config(), EncoderConfig::default());
    assert_eq!(writer.buffered_samples(), 0);
    assert_eq!(writer.audio_samples_per_video_frame(), 0);
    assert_eq!(AUDIO_FRAME_LEN, 1920);
}

#[test]
fn the_writer_takes_webm_files() {
    let writer = SorkinWriter::init(EncoderConfig::default());
    assert!(writer.handles_file("out.webm"));
    assert!(writer.handles_file("dir/clip.final.webm"));
    assert!(writer.handles_file("a.b/..webm"));
    assert!(!writer.handles_file("out.mp4"));
    assert!(!writer.handles_file("out.WEBM"));
    assert!(!writer.handles_file("out.webm.bak"));
    assert!(!writer.handles_file("webm"));
    assert!(!writer.handles_file(".webm"));
    assert!(!writer.handles_file("dir.webm/clip"));
    assert!(!writer.handles_file(""));
}

#[test]
fn only_the_extension_webm_is_taken() {
    assert!(is_webm_extension(Some("webm")));
    assert!(!is_webm_extension(Some("Webm")));
    assert!(!is_webm_extension(Some("web")));
    assert!(!is_webm_extension(Some("webm2")));
    assert!(!is_webm_extension(Some("")));
    assert!(!is_webm_extension(Some("mp4")));
    assert!(!is_webm_extension(None));
}

#[test]
fn the_mix_rate_is_that_of_opus_or_none() {
    let writer = SorkinWriter::init(EncoderConfig::default());
    assert_eq!(writer.get_audio_mix_rate(), 48_000);
    assert_eq!(writer.get_audio_speaker_mode(), SpeakerMode::Stereo);
    let writer = SorkinWriter::init(silent());
    assert_eq!(writer.get_audio_mix_rate(), 0);
    assert_eq!(writer.get_audio_speaker_mode(), SpeakerMode::Stereo);
}

#[test]
fn begin_takes_note_and_waits_for_the_first_frame() {
    let mut writer = SorkinWriter::init(EncoderConfig::default());
    assert_eq!(writer.write_begin((1280, 720), 60, "clip.webm".to_string()), Status::Okay);
    assert_eq!(writer.state(), SessionState::Configuring);
    assert_eq!(writer.fps(), 60);
    assert_eq!(writer.movie_size(), (1280, 720));
    assert_eq!(writer.output_path().map(|p| p.as_str()), Some("clip.webm"));
    assert_eq!(writer.frame_count(), 0);
    // 48000 / 60 samples for each of two channels
    assert_eq!(writer.audio_samples_per_video_frame(), 1600);
}

#[test]
fn samples_per_frame_follow_the_frame_rate() {
    let per_frame = |config, fps| {
        let mut writer = SorkinWriter::init(config);
        assert_eq!(writer.write_begin((640, 480), fps, "out.mp4".to_string()), Status::Okay);
        writer.audio_samples_per_video_frame()
    };
    assert_eq!(per_frame(EncoderConfig::default(), 30), 3200);
    assert_eq!(per_frame(EncoderConfig::default(), 24), 4000);
    assert_eq!(per_frame(EncoderConfig::default(), 7), 13_714);
    assert_eq!(per_frame(EncoderConfig::default(), 48_000), 2);
    assert_eq!(per_frame(EncoderConfig::default(), 48_001), 0);
    assert_eq!(per_frame(EncoderConfig::default(), 1), 96_000);
    assert_eq!(per_frame(silent(), 30), 0);
    assert_eq!(per_frame(silent(), 0), 0);
}

#[test]
fn only_an_idle_session_begins() {
    let mut writer = recording(EncoderConfig::default(), 30);
    assert_eq!(writer.write_begin((1, 1), 25, "other.webm".to_string()), Status::Unconfigured);
    assert_eq!(writer.state(), SessionState::Recording);
    assert_eq!(writer.fps(), 30);
    assert_eq!(writer.movie_size(), (640, 480));
    assert_eq!(writer.output_path().map(|p| p.as_str()), Some("out.mp4"));
    let mut writer = SorkinWriter::init(EncoderConfig::default());
    assert_eq!(writer.write_begin((1, 1), 25, "a.webm".to_string()), Status::Okay);
    assert_eq!(writer.write_begin((2, 2), 50, "b.webm".to_string()), Status::Unconfigured);
    assert_eq!(writer.fps(), 25);
}

#[test]
fn a_frame_before_begin_is_turned_away() {
    let mut writer = SorkinWriter::init(EncoderConfig::default());
    assert_eq!(writer.frame_arrived(640, 480), FrameStep::Reject(Status::Unconfigured));
    assert_eq!(writer.construction_finished(Ok(tb(1, 30_000))), FrameStep::Reject(Status::Unconfigured));
    assert_eq!(writer.frame_encoded(Ok(()), None), (Status::Unconfigured, Vec::new()));
    assert_eq!(writer.state(), SessionState::Idle);
    assert_eq!(writer.frame_count(), 0);
}

#[test]
fn the_first_frame_decides_the_size() {
    let mut writer = SorkinWriter::init(EncoderConfig::default());
    assert_eq!(writer.write_begin((640, 480), 30, "out.mp4".to_string()), Status::Okay);
    assert_eq!(writer.frame_arrived(1920, 1080), FrameStep::Construct { width: 1920, height: 1080 });
    assert_eq!(writer.state(), SessionState::Configuring);
    assert_eq!(writer.construction_finished(Ok(tb(1, 30_000))), FrameStep::Encode { pts: 0 });
    assert_eq!(writer.state(), SessionState::Recording);
    assert_eq!(writer.frame_arrived(1920, 1080), FrameStep::Encode { pts: 0 });
    assert_eq!(writer.construction_finished(Ok(tb(1, 1))), FrameStep::Reject(Status::Unconfigured));
    assert_eq!(writer.frame_arrived(1, 1), FrameStep::Encode { pts: 0 });
}

#[test]
fn a_failed_construction_is_cant_create_whatever_failed() {
    for e in [
        Error::Conversion(ConversionFailure::DeviceUnavailable),
        Error::Conversion(ConversionFailure::UnsupportedFormat { from: Format::Rgba8, to: Pixel::Rgb24 }),
        Error::Encoding(EncodingFailure::CodecNotFound),
        Error::Encoding(EncodingFailure::Open(-22)),
        Error::Ffmpeg(-5),
        Error::State(StateFailure::NotReady),
    ] {
        let mut writer = SorkinWriter::init(EncoderConfig::default());
        assert_eq!(writer.write_begin((640, 480), 30, "out.mp4".to_string()), Status::Okay);
        assert_eq!(writer.frame_arrived(640, 480), FrameStep::Construct { width: 640, height: 480 });
        assert!(!writer.construction_failed());
        assert_eq!(writer.construction_finished(Err(e)), FrameStep::Reject(Status::CantCreate));
        assert!(writer.construction_failed());
        assert_eq!(writer.state(), SessionState::Configuring);
        assert_eq!(writer.frame_count(), 0);
        // it is not tried again: the session cannot record to this file
        for _ in 0..3 {
            assert_eq!(writer.frame_arrived(320, 240), FrameStep::Reject(Status::CantCreate));
        }
        assert_eq!(writer.construction_finished(Ok(tb(1, 30_000))), FrameStep::Reject(Status::Unconfigured));
        assert_eq!(writer.state(), SessionState::Configuring);
        assert_eq!(writer.frame_encoded(Ok(()), None), (Status::Unconfigured, Vec::new()));
        assert!(matches!(writer.write_end(), EndStep::Nothing));
        assert_eq!(writer.state(), SessionState::Configuring);
        assert!(writer.construction_failed());
        assert_eq!(writer.frame_arrived(320, 240), FrameStep::Reject(Status::CantCreate));
    }
}

#[test]
fn ten_frames_at_thirty_a_second() {
    let mut writer = recording(silent(), 30);
    let encoder_time_base = tb(1, 30_000);
    let mut stamps = Vec::new();
    for k in 0..10i64 {
        let pts = match writer.frame_arrived(640, 480) {
            FrameStep::Encode { pts } => pts,
            other => panic!("{other:?}"),
        };
        assert_eq!(pts, k * 1000);
        stamps.push(pts);
        assert_eq!(writer.frame_encoded(Ok(()), None), (Status::Okay, Vec::new()));
        assert_eq!(writer.frame_count(), k + 1);
    }
    assert_eq!(stamps.len(), 10);
    assert!(stamps.windows(2).all(|w| w[0] <= w[1]));
    assert!(matches!(writer.write_end(), EndStep::Finalize { final_audio: None }));
    assert_eq!(writer.state(), SessionState::Finalizing);
    writer.finalized();
    assert_eq!(writer.state(), SessionState::Closed);
    assert_eq!(writer.frame_count(), 10);
    // ten frames of a 30th of a second each
    let end = frame_to_pts(writer.frame_count(), 30, encoder_time_base.den as i64);
    assert_eq!(end, 10_000);
    assert_eq!(rescale(end, encoder_time_base, tb(1, 1000)), Some(333));
}

#[test]
fn ten_frames_with_silence_in_stereo() {
    let mut writer = recording(EncoderConfig::default(), 30);
    assert_eq!(writer.get_audio_mix_rate(), 48_000);
    assert_eq!(writer.audio_samples_per_video_frame(), 3200);
    let mut audio = OpusEncoder::new(48_000, SpeakerMode::Stereo, &writer.config()).unwrap();
    let block = vec![0i32; 3200];
    let mut audio_pts = Vec::new();
    let mut encode = |frame: &Vec<i32>, audio: &mut OpusEncoder| {
        assert_eq!(frame.len(), 1920);
        let spec = audio.encode_audio_data(frame.len() * 4).unwrap();
        assert_eq!(audio.frame_sent(Ok(())), Ok(()));
        audio_pts.push(spec.pts);
    };
    for k in 0..10usize {
        assert_eq!(writer.frame_arrived(640, 480), FrameStep::Encode { pts: k as i64 * 1000 });
        let (status, frames) = writer.frame_encoded(Ok(()), Some(&block));
        assert_eq!(status, Status::Okay);
        // 3200 samples come with each frame and 1920 leave with each audio frame
        assert_eq!(frames.len(), (3200 * (k + 1)) / 1920 - (3200 * k) / 1920);
        assert_eq!(writer.buffered_samples(), (3200 * (k + 1)) % 1920);
        for frame in &frames {
            encode(frame, &mut audio);
        }
    }
    assert_eq!(audio.frame_count(), 16);
    assert_eq!(writer.buffered_samples(), 1280);
    match writer.write_end() {
        EndStep::Finalize { final_audio: Some(frame) } => {
            assert_eq!(frame, vec![0i32; 1920]);
            encode(&frame, &mut audio);
        }
        other => panic!("{other:?}"),
    }
    assert_eq!(writer.buffered_samples(), 0);
    writer.finalized();
    assert_eq!(writer.state(), SessionState::Closed);
    let expected: Vec<i64> = (0..17).map(|k| k * 960).collect();
    assert_eq!(audio_pts, expected);
    // 17 frames of 20 ms against 10 frames of a 30th of a second
    let audio_ms = rescale(17 * 960, tb(1, 48_000), tb(1, 1000)).unwrap();
    let video_ms = rescale(10_000, tb(1, 30_000), tb(1, 1000)).unwrap();
    assert_eq!((audio_ms, video_ms), (340, 333));
    assert!((audio_ms - video_ms).abs() <= 20);
}

#[test]
fn the_last_audio_frame_is_padded_and_not_dropped() {
    let mut writer = recording(EncoderConfig::default(), 30);
    let block: Vec<i32> = (1..=5).collect();
    let (status, frames) = writer.frame_encoded(Ok(()), Some(&block));
    assert_eq!((status, frames.len()), (Status::Okay, 0));
    match writer.write_end() {
        EndStep::Finalize { final_audio: Some(frame) } => {
            assert_eq!(frame.len(), 1920);
            assert_eq!(&frame[..5], &[1, 2, 3, 4, 5]);
            assert!(frame[5..].iter().all(|s| *s == 0));
        }
        other => panic!("{other:?}"),
    }
    assert!(matches!(writer.write_end(), EndStep::Nothing));
}

#[test]
fn audio_frames_come_out_in_the_order_of_the_samples() {
    let mut writer = recording(EncoderConfig::default(), 30);
    let stream: Vec<i32> = (0..10_000).collect();
    let mut emitted: Vec<i32> = Vec::new();
    for block in stream.chunks(3001) {
        let (status, frames) = writer.frame_encoded(Ok(()), Some(block));
        assert_eq!(status, Status::Okay);
        for frame in frames {
            assert_eq!(frame.len(), 1920);
            emitted.extend(frame);
        }
        assert!(writer.buffered_samples() < 1920);
    }
    assert_eq!(emitted.len(), 5 * 1920);
    assert_eq!(emitted, stream[..9600].to_vec());
    assert_eq!(writer.buffered_samples(), 400);
}

#[test]
fn audio_is_ignored_where_it_is_disabled() {
    let mut writer = recording(silent(), 30);
    let block = vec![1i32; 5000];
    assert_eq!(writer.frame_encoded(Ok(()), Some(&block)), (Status::Okay, Vec::new()));
    assert_eq!(writer.buffered_samples(), 0);
    assert!(matches!(writer.write_end(), EndStep::Finalize { final_audio: None }));
}

#[test]
fn a_frame_without_audio_still_counts() {
    let mut writer = recording(EncoderConfig::default(), 30);
    assert_eq!(writer.frame_encoded(Ok(()), None), (Status::Okay, Vec::new()));
    assert_eq!(writer.frame_encoded(Ok(()), Some(&[])), (Status::Okay, Vec::new()));
    assert_eq!(writer.frame_count(), 2);
    assert_eq!(writer.frame_arrived(640, 480), FrameStep::Encode { pts: 2000 });
}

#[test]
fn a_frame_that_failed_is_not_counted_and_its_audio_not_taken() {
    let mut writer = recording(EncoderConfig::default(), 30);
    let block = vec![3i32; 3200];
    assert_eq!(writer.frame_encoded(Ok(()), Some(&block)).0, Status::Okay);
    for (e, status) in [
        (Error::Ffmpeg(-5), Status::FileCantWrite),
        (Error::Encoding(EncodingFailure::Send(-22)), Status::FileCantWrite),
        (Error::Encoding(EncodingFailure::Write(-28)), Status::FileCantWrite),
        (Error::Conversion(ConversionFailure::DeviceUnavailable), Status::CantCreate),
        (Error::State(StateFailure::NotReady), Status::Unconfigured),
    ] {
        assert_eq!(writer.frame_encoded(Err(e), Some(&block)), (status, Vec::new()));
        assert_eq!(writer.frame_count(), 1);
        assert_eq!(writer.buffered_samples(), 1280);
        assert_eq!(writer.state(), SessionState::Recording);
        assert_eq!(writer.frame_arrived(640, 480), FrameStep::Encode { pts: 1000 });
    }
    // the recording goes on
    assert_eq!(writer.frame_encoded(Ok(()), None).0, Status::Okay);
    assert_eq!(writer.frame_count(), 2);
}

#[test]
fn ending_twice_is_harmless() {
    let mut writer = recording(EncoderConfig::default(), 30);
    assert!(matches!(writer.write_end(), EndStep::Finalize { final_audio: None }));
    assert_eq!(writer.state(), SessionState::Finalizing);
    assert!(matches!(writer.write_end(), EndStep::Nothing));
    assert_eq!(writer.state(), SessionState::Finalizing);
    assert_eq!(writer.frame_arrived(640, 480), FrameStep::Reject(Status::Unconfigured));
    assert_eq!(writer.frame_encoded(Ok(()), None), (Status::Unconfigured, Vec::new()));
    writer.finalized();
    assert_eq!(writer.state(), SessionState::Closed);
    assert!(matches!(writer.write_end(), EndStep::Nothing));
    writer.finalized();
    assert_eq!(writer.state(), SessionState::Closed);
    assert_eq!(writer.frame_arrived(640, 480), FrameStep::Reject(Status::Unconfigured));
    assert_eq!(writer.write_begin((1, 1), 30, "again.webm".to_string()), Status::Unconfigured);
}

#[test]
fn ending_what_never_began_does_nothing() {
    let mut writer = SorkinWriter::init(EncoderConfig::default());
    assert!(matches!(writer.write_end(), EndStep::Nothing));
    assert_eq!(writer.state(), SessionState::Idle);
    writer.finalized();
    assert_eq!(writer.state(), SessionState::Idle);
    assert_eq!(writer.write_begin((1, 1), 30, "out.mp4".to_string()), Status::Okay);
    writer.finalized();
    assert_eq!(writer.state(), SessionState::Configuring);
}

#[test]
fn the_timestamps_follow_the_time_base_of_the_encoder() {
    let mut writer = SorkinWriter::init(silent());
    assert_eq!(writer.write_begin((640, 480), 24, "out.mp4".to_string()), Status::Okay);
    // a time base that does not divide into frames
    assert_eq!(writer.construction_finished(Ok(tb(1, 1001))), FrameStep::Encode { pts: 0 });
    let mut last = -1;
    for k in 0..100i64 {
        let pts = match writer.frame_arrived(640, 480) {
            FrameStep::Encode { pts } => pts,
            other => panic!("{other:?}"),
        };
        // k / 24 * 1001, to the nearest tick
        assert_eq!(pts, (2 * k * 1001 + 24) / 48);
        assert!(pts > last);
        last = pts;
        assert_eq!(writer.frame_encoded(Ok(()), None).0, Status::Okay);
    }
}

#[test]
fn a_recording_from_begin_to_trailer() {
    let config = EncoderConfig::default();
    let mut writer = SorkinWriter::init(config);
    assert_eq!(writer.write_begin((640, 480), 30, "out.mp4".to_string()), Status::Okay);
    let (width, height) = match writer.frame_arrived(640, 480) {
        FrameStep::Construct { width, height } => (width, height),
        other => panic!("{other:?}"),
    };
    let path = writer.output_path().unwrap().clone();
    assert_eq!(path, "out.mp4");
    let mut encoder = VP9Encoder::new(width, height, writer.fps(), false, true, &writer.config()).unwrap();
    assert_eq!(encoder.write_header(tb(1, 1000), Some(tb(1, 1000))), Ok(()));
    let mut step = writer.construction_finished(Ok(encoder.encoder().time_base));
    let block = vec![0i32; writer.audio_samples_per_video_frame()];
    let mut video = Vec::new();
    let mut audio = Vec::new();
    let mut send_audio = |frame: &Vec<i32>, encoder: &mut VP9Encoder| {
        let spec = encoder.write_audio_data(frame.len() * 4).unwrap().unwrap();
        assert_eq!(encoder.audio_frame_sent(Ok(())), Ok(()));
        let timing = PacketTiming { pts: Some(spec.pts), dts: Some(spec.pts), duration: 960 };
        audio.push(encoder.stamp_audio_packet(timing).unwrap().unwrap());
    };
    for _ in 0..10 {
        let pts = match step {
            FrameStep::Encode { pts } => pts,
            other => panic!("{other:?}"),
        };
        let timing = PacketTiming { pts: Some(pts), dts: Some(pts), duration: 1000 };
        video.push(encoder.stamp_video_packet(timing).unwrap());
        let (status, frames) = writer.frame_encoded(Ok(()), Some(&block));
        assert_eq!(status, Status::Okay);
        for frame in &frames {
            send_audio(frame, &mut encoder);
        }
        step = writer.frame_arrived(640, 480);
    }
    match writer.write_end() {
        EndStep::Finalize { final_audio } => {
            send_audio(&final_audio.unwrap(), &mut encoder);
        }
        other => panic!("{other:?}"),
    }
    assert_eq!(encoder.finish().unwrap().len(), 3);
    assert_eq!(encoder.trailer_written(), Ok(()));
    writer.finalized();
    assert_eq!(writer.state(), SessionState::Closed);
    let video_pts: Vec<i64> = video.iter().map(|p| p.pts.unwrap()).collect();
    assert_eq!(video_pts, vec![0, 33, 67, 100, 133, 167, 200, 233, 267, 300]);
    assert!(video.iter().all(|p| p.stream == 0 && p.duration == 33));
    let audio_pts: Vec<i64> = audio.iter().map(|p| p.pts.unwrap()).collect();
    assert_eq!(audio_pts, (0..17).map(|k| k * 20).collect::<Vec<i64>>());
    assert!(audio.iter().all(|p| p.stream == 1 && p.duration == 20));
}

#[test]
fn a_file_that_is_taken_has_the_extension_in_its_path() {
    let writer = SorkinWriter::init(EncoderConfig::default());
    let paths = [
        "out.webm",
        "a/b/c.webm",
        "a.webm/",
        "a.webm/.",
        "x..webm",
        ".webm",
        "dir/.webm",
        "/.webm",
        "webm",
        "a.webmx",
        "a.web",
        "a.webm.txt",
        "a.b.webm",
        "..",
        ".",
        "",
        "a.",
        "clip.webm/next",
    ];
    for path in paths {
        if writer.handles_file(path) {
            let chars: Vec<char> = path.chars().collect();
            let found = (1..chars.len()).any(|dot| {
                chars[dot] == '.'
                    && chars[dot - 1] != '/'
                    && chars.len() >= dot + 5
                    && chars[dot + 1..dot + 5] == ['w', 'e', 'b', 'm']
            });
            assert!(found, "{path}");
        }
    }
    for path in [".webm", "dir/.webm", "/.webm", "webm", "a.web", "a.webm.txt", "..", ".", "", "a."] {
        assert!(!writer.handles_file(path), "{path}");
    }
}

#[test]
fn ending_before_the_first_frame_leaves_the_session_waiting() {
    let mut writer = SorkinWriter::init(EncoderConfig::default());
    assert_eq!(writer.write_begin((640, 480), 30, "out.mp4".to_string()), Status::Okay);
    let block = writer.audio_samples_per_video_frame();
    assert!(matches!(writer.write_end(), EndStep::Nothing));
    assert!(matches!(writer.write_end(), EndStep::Nothing));
    assert_eq!(writer.state(), SessionState::Configuring);
    assert_eq!(writer.fps(), 30);
    assert_eq!(writer.movie_size(), (640, 480));
    assert_eq!(writer.output_path().map(|p| p.as_str()), Some("out.mp4"));
    assert_eq!(writer.audio_samples_per_video_frame(), block);
    assert!(!writer.construction_failed());
    // the first frame is still taken
    assert_eq!(writer.frame_arrived(320, 240), FrameStep::Construct { width: 320, height: 240 });
    assert_eq!(writer.construction_finished(Ok(tb(1, 30_000))), FrameStep::Encode { pts: 0 });
    assert_eq!(writer.frame_encoded(Ok(()), None).0, Status::Okay);
    assert!(matches!(writer.write_end(), EndStep::Finalize { final_audio: None }));
}

#[test]
fn a_bare_name_is_taken_exactly_where_its_extension_is_webm() {
    let writer = SorkinWriter::init(EncoderConfig::default());
    for name in ["a.webm", "out.webm", "..webm", "a.b.webm", "a..webm", "\u{e9}t\u{e9}.webm", " .webm", "...webm"] {
        assert!(writer.handles_file(name), "{name}");
    }
    for name in [
        "", ".", "..", "...", "webm", ".webm", "a.webm.", "a.webm.b", "a.Webm", "a.webm ", "a.web", "awebm", "a.webmm",
        "a.", ".a", "webm.a",
    ] {
        assert!(!writer.handles_file(name), "{name}");
    }
}
