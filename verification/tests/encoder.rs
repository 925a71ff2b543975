use sorkin::audio::{AudioFrameSpec, ChannelLayout, CodecOption, OptionValue};
use sorkin::conversion::{Pixel, VideoFrame};
use sorkin::encoder::{finish_outcome, FinishStep, VP9Encoder, VideoSettings, TICKS_PER_FRAME};
use sorkin::muxer::{MuxerState, PacketTiming, StampedPacket};
use sorkin::settings::{EncoderConfig, Quality};
use sorkin::timing::Rational;
use sorkin::{EncodingFailure, Error, StateFailure};

fn tb(num: i32, den: i32) -> Rational {
    Rational { num, den }
}

fn timing(pts: i64) -> PacketTiming {
    PacketTiming { pts: Some(pts), dts: Some(pts), duration: 0 }
}

fn silent() -> EncoderConfig {
    EncoderConfig { enable_audio: false, ..EncoderConfig::default() }
}

#[test]
fn video_settings_for_thirty_frames_a_second() {
    let config = EncoderConfig { thread_count: 4, quality: Quality::Good, ..EncoderConfig::default() };
    assert_eq!(
        VP9Encoder::configure_encoder(640, 480, 30, true, &config),
        Ok(VideoSettings {
            width: 640,
            height: 480,
            format: Pixel::Yuv420p,
            time_base: tb(1, 30_000),
            frame_rate: tb(30, 1),
            global_header: true,
            thread_count: 4,
            quality: Quality::Good,
        })
    );
    assert_eq!(TICKS_PER_FRAME, 1000);
}

#[test]
fn a_frame_rate_without_a_time_base_is_refused() {
    let config = EncoderConfig::default();
    for fps in [0u32, 2_147_484, 3_000_000, u32::MAX] {
        assert_eq!(
            VP9Encoder::configure_encoder(640, 480, fps, false, &config),
            Err(Error::Encoding(EncodingFailure::UnsupportedFrameRate(fps)))
        );
        assert_eq!(
            VP9Encoder::new(640, 480, fps, false, true, &config).err(),
            Some(Error::Encoding(EncodingFailure::UnsupportedFrameRate(fps)))
        );
    }
    let settings = VP9Encoder::configure_encoder(1, 1, 2_147_483, false, &config).unwrap();
    assert_eq!(settings.time_base, tb(1, 2_147_483_000));
    assert_eq!(settings.frame_rate, tb(2_147_483, 1));
    assert_eq!(VP9Encoder::configure_encoder(1, 1, 1, false, &config).unwrap().time_base, tb(1, 1000));
}

#[test]
fn video_options_follow_the_configuration() {
    for (quality, name) in [(Quality::Realtime, "realtime"), (Quality::Good, "good"), (Quality::Best, "best")] {
        let config = EncoderConfig { thread_count: 12, quality, ..EncoderConfig::default() };
        let settings = VP9Encoder::configure_encoder(640, 480, 30, false, &config).unwrap();
        assert_eq!(
            settings.options(),
            vec![
                CodecOption { key: "cpu-used", value: OptionValue::Text("5") },
                CodecOption { key: "auto-alt-ref", value: OptionValue::Text("0") },
                CodecOption { key: "lag-in-frames", value: OptionValue::Text("0") },
                CodecOption { key: "row-mt", value: OptionValue::Text("1") },
                CodecOption { key: "speed", value: OptionValue::Text("5") },
                CodecOption { key: "threads", value: OptionValue::Number(12) },
                CodecOption { key: "quality", value: OptionValue::Text(name) },
                CodecOption { key: "deadline", value: OptionValue::Text(name) },
            ]
        );
    }
}

#[test]
fn a_webm_recording_with_audio_has_two_streams() {
    let config = EncoderConfig { quality: Quality::Best, ..EncoderConfig::default() };
    let encoder = VP9Encoder::new(641, 481, 60, false, true, &config).unwrap();
    assert_eq!(encoder.state(), MuxerState::Open);
    assert_eq!(encoder.video_stream_index(), 0);
    assert_eq!(encoder.audio_stream_index(), Some(1));
    assert_eq!(encoder.encoder().time_base, tb(1, 60_000));
    assert_eq!((encoder.encoder().width, encoder.encoder().height), (641, 481));
    let audio = encoder.audio_encoder().unwrap();
    assert_eq!(audio.sample_rate(), 48_000);
    assert_eq!(audio.channels(), 2);
    assert_eq!(audio.layout(), ChannelLayout::Stereo);
    assert_eq!(audio.frame_size(), 960);
    assert_eq!(audio.options()[0], CodecOption { key: "compression_level", value: OptionValue::Number(0) });
}

#[test]
fn audio_needs_the_setting_and_a_container_that_takes_it() {
    let with_audio = |takes_audio: bool, config: &EncoderConfig| {
        let encoder = VP9Encoder::new(640, 480, 30, false, takes_audio, config).unwrap();
        assert_eq!(encoder.audio_encoder().is_some(), encoder.audio_stream_index().is_some());
        assert_eq!(encoder.video_stream_index(), 0);
        if let Some(index) = encoder.audio_stream_index() {
            assert_eq!(index, 1);
        }
        encoder.audio_stream_index().is_some()
    };
    let on = EncoderConfig::default();
    assert!(with_audio(true, &on));
    assert!(!with_audio(false, &on));
    assert!(!with_audio(true, &silent()));
    assert!(!with_audio(false, &silent()));
}

#[test]
fn packets_are_stamped_once_the_header_is_written() {
    let mut encoder = VP9Encoder::new(640, 480, 30, false, true, &EncoderConfig::default()).unwrap();
    assert_eq!(encoder.stamp_video_packet(timing(0)), Err(Error::State(StateFailure::HeaderMissing)));
    assert_eq!(encoder.stamp_audio_packet(timing(0)), Some(Err(Error::State(StateFailure::HeaderMissing))));
    assert_eq!(encoder.finish().err(), Some(Error::State(StateFailure::HeaderMissing)));
    assert_eq!(encoder.write_header(tb(1, 1000), Some(tb(1, 1000))), Ok(()));
    assert_eq!(encoder.state(), MuxerState::HeaderWritten);
    assert_eq!(
        encoder.stamp_video_packet(PacketTiming { pts: Some(2000), dts: Some(1000), duration: 1000 }),
        Ok(StampedPacket { stream: 0, pts: Some(67), dts: Some(33), duration: 33 })
    );
    assert_eq!(
        encoder.stamp_audio_packet(PacketTiming { pts: Some(1920), dts: Some(1920), duration: 960 }),
        Some(Ok(StampedPacket { stream: 1, pts: Some(40), dts: Some(40), duration: 20 }))
    );
    assert_eq!(encoder.write_header(tb(1, 1), None), Err(Error::State(StateFailure::HeaderWritten)));
    assert_eq!(encoder.stamp_video_packet(timing(3000)).unwrap().pts, Some(100));
}

#[test]
fn streams_keep_the_time_base_of_their_encoder_where_the_container_says_so() {
    let mut encoder = VP9Encoder::new(640, 480, 30, false, true, &EncoderConfig::default()).unwrap();
    assert_eq!(encoder.write_header(tb(1, 30_000), None), Ok(()));
    for k in 0..10 {
        assert_eq!(encoder.stamp_video_packet(timing(k * 1000)).unwrap().pts, Some(k * 1000));
        assert_eq!(encoder.stamp_audio_packet(timing(k * 960)).unwrap().unwrap().pts, Some(k * 960));
    }
}

#[test]
fn without_an_audio_stream_there_is_no_audio_to_write() {
    let mut encoder = VP9Encoder::new(640, 480, 30, true, false, &EncoderConfig::default()).unwrap();
    assert!(encoder.encoder().global_header);
    assert_eq!(encoder.write_header(tb(1, 15_360), Some(tb(1, 48_000))), Ok(()));
    assert_eq!(encoder.write_audio_data(7680), Ok(None));
    assert_eq!(encoder.write_audio_data(5), Ok(None));
    assert_eq!(encoder.stamp_audio_packet(timing(0)), None);
    assert_eq!(encoder.audio_frame_sent(Err(-1)), Ok(()));
    assert_eq!(encoder.stamp_video_packet(timing(1000)).unwrap().pts, Some(512));
    assert_eq!(encoder.finish(), Ok(vec![FinishStep::FlushVideo, FinishStep::WriteTrailer]));
}

#[test]
fn audio_frames_are_described_and_counted() {
    let mut encoder = VP9Encoder::new(640, 480, 30, false, true, &EncoderConfig::default()).unwrap();
    for k in 0..5i64 {
        assert_eq!(
            encoder.write_audio_data(7680),
            Ok(Some(AudioFrameSpec {
                samples_per_channel: 960,
                rate: 48_000,
                layout: ChannelLayout::Stereo,
                pts: 960 * k
            }))
        );
        assert_eq!(encoder.audio_frame_sent(Ok(())), Ok(()));
    }
    assert_eq!(encoder.audio_frame_sent(Err(-5)), Err(Error::Encoding(EncodingFailure::Send(-5))));
    assert_eq!(encoder.audio_encoder().unwrap().frame_count(), 5);
    assert_eq!(
        encoder.write_audio_data(7000),
        Err(Error::Encoding(EncodingFailure::FrameSizeMismatch { expected: 7680, got: 7000 }))
    );
}

#[test]
fn the_video_encoder_is_flushed_first_and_the_trailer_written_last() {
    let mut encoder = VP9Encoder::new(640, 480, 30, false, true, &EncoderConfig::default()).unwrap();
    assert_eq!(encoder.trailer_written(), Err(Error::State(StateFailure::HeaderMissing)));
    assert_eq!(encoder.write_header(tb(1, 1000), Some(tb(1, 1000))), Ok(()));
    assert_eq!(
        encoder.finish(),
        Ok(vec![FinishStep::FlushVideo, FinishStep::FlushAudio, FinishStep::WriteTrailer])
    );
    // the packets that the codecs give up while they are flushed are still stamped
    assert!(encoder.stamp_video_packet(timing(9000)).is_ok());
    assert!(encoder.stamp_audio_packet(timing(9600)).unwrap().is_ok());
    assert_eq!(encoder.trailer_written(), Ok(()));
    assert_eq!(encoder.state(), MuxerState::Finished);
    assert_eq!(encoder.finish().err(), Some(Error::State(StateFailure::Finished)));
    assert_eq!(encoder.trailer_written(), Err(Error::State(StateFailure::Finished)));
    assert_eq!(encoder.stamp_video_packet(timing(0)), Err(Error::State(StateFailure::Finished)));
    assert_eq!(encoder.write_header(tb(1, 1), None), Err(Error::State(StateFailure::Finished)));
}

#[test]
fn a_frame_of_another_size_is_not_sent() {
    let mut encoder = VP9Encoder::new(640, 480, 30, false, true, &EncoderConfig::default()).unwrap();
    let frame = VideoFrame::new(640, 480).unwrap();
    assert_eq!(encoder.write_frame(&frame), Err(Error::State(StateFailure::HeaderMissing)));
    assert_eq!(encoder.write_header(tb(1, 1000), None), Ok(()));
    assert_eq!(encoder.write_frame(&frame), Ok(()));
    assert_eq!(encoder.write_frame(&VideoFrame::with_strides(640, 480, 704, 320, 384).unwrap()), Ok(()));
    for (width, height) in [(480u32, 640u32), (640, 481), (639, 480), (0, 0)] {
        assert_eq!(
            encoder.write_frame(&VideoFrame::new(width, height).unwrap()),
            Err(Error::Encoding(EncodingFailure::FrameMismatch {
                width: 640,
                height: 480,
                frame_width: width,
                frame_height: height
            }))
        );
    }
    let mut broken = VideoFrame::new(640, 480).unwrap();
    broken.u.data.truncate(10);
    assert_eq!(
        encoder.write_frame(&broken),
        Err(Error::Encoding(EncodingFailure::FrameMismatch {
            width: 640,
            height: 480,
            frame_width: 640,
            frame_height: 480
        }))
    );
    assert_eq!(encoder.trailer_written(), Ok(()));
    assert_eq!(encoder.write_frame(&frame), Err(Error::State(StateFailure::Finished)));
}

#[test]
fn the_end_of_the_audio_stream_is_taken_note_of() {
    let mut encoder = VP9Encoder::new(640, 480, 30, false, true, &EncoderConfig::default()).unwrap();
    assert_eq!(encoder.audio_flushed(Err(-3)), Err(Error::Encoding(EncodingFailure::Flush(-3))));
    assert!(!encoder.audio_encoder().unwrap().finished());
    assert!(encoder.write_audio_data(7680).is_ok());
    assert_eq!(encoder.audio_flushed(Ok(())), Ok(()));
    assert!(encoder.audio_encoder().unwrap().finished());
    assert_eq!(encoder.write_audio_data(7680), Err(Error::State(StateFailure::Finished)));
    let mut mute = VP9Encoder::new(640, 480, 30, false, false, &EncoderConfig::default()).unwrap();
    assert_eq!(mute.audio_flushed(Err(-3)), Ok(()));
    assert_eq!(mute.audio_flushed(Ok(())), Ok(()));
    assert!(mute.audio_encoder().is_none());
}

#[test]
fn closing_fails_as_the_first_step_that_failed() {
    let flush = Error::Ffmpeg(-5);
    let write = Error::Encoding(EncodingFailure::Write(-28));
    let state = Error::State(StateFailure::Finished);
    assert_eq!(finish_outcome(&[]), Ok(()));
    assert_eq!(finish_outcome(&[Ok(()), Ok(()), Ok(())]), Ok(()));
    assert_eq!(finish_outcome(&[Err(flush)]), Err(flush));
    assert_eq!(finish_outcome(&[Ok(()), Err(write), Ok(())]), Err(write));
    assert_eq!(finish_outcome(&[Ok(()), Err(write), Err(flush)]), Err(write));
    assert_eq!(finish_outcome(&[Err(state), Err(write), Err(flush)]), Err(state));
    assert_eq!(finish_outcome(&[Ok(()), Ok(()), Err(flush)]), Err(flush));
}
