use sorkin::muxer::{Muxer, MuxerState, PacketTiming, StampedPacket, Stream, StreamKind};
use sorkin::timing::Rational;
use sorkin::{Error, ErrorKind, StateFailure, Status};

fn tb(num: i32, den: i32) -> Rational {
    Rational { num, den }
}

fn timing(pts: i64) -> PacketTiming {
    PacketTiming { pts: Some(pts), dts: Some(pts), duration: 0 }
}

fn webm() -> Muxer {
    let mut muxer = Muxer::new();
    assert_eq!(muxer.add_video_stream(tb(1, 30_000)), Ok(0));
    assert_eq!(muxer.add_audio_stream(tb(1, 48_000)), Ok(1));
    assert_eq!(muxer.set_time_base(0, tb(1, 1000)), Ok(()));
    assert_eq!(muxer.set_time_base(1, tb(1, 1000)), Ok(()));
    assert_eq!(muxer.write_header(), Ok(()));
    muxer
}

#[test]
fn streams_are_numbered_in_the_order_in_which_they_are_added() {
    let mut muxer = Muxer::new();
    assert_eq!(muxer.state(), MuxerState::Open);
    assert_eq!(muxer.stream_count(), 0);
    assert_eq!(muxer.stream(0), None);
    assert_eq!(muxer.add_audio_stream(tb(1, 48_000)), Ok(0));
    assert_eq!(muxer.add_video_stream(tb(1, 30_000)), Ok(1));
    assert_eq!(muxer.stream_count(), 2);
    assert_eq!(muxer.stream(0), Some(Stream { kind: StreamKind::Audio, time_base: tb(1, 48_000) }));
    assert_eq!(muxer.stream(1), Some(Stream { kind: StreamKind::Video, time_base: tb(1, 30_000) }));
    assert_eq!(muxer.stream(2), None);
}

#[test]
fn one_stream_of_each_kind() {
    let mut muxer = Muxer::new();
    assert_eq!(muxer.add_video_stream(tb(1, 30_000)), Ok(0));
    assert_eq!(muxer.add_video_stream(tb(1, 25_000)), Err(Error::State(StateFailure::StreamExists)));
    assert_eq!(muxer.add_audio_stream(tb(1, 48_000)), Ok(1));
    assert_eq!(muxer.add_audio_stream(tb(1, 48_000)), Err(Error::State(StateFailure::StreamExists)));
    assert_eq!(muxer.stream_count(), 2);
    assert_eq!(muxer.stream(0).unwrap().time_base, tb(1, 30_000));
}

#[test]
fn no_stream_is_added_behind_the_header() {
    let mut muxer = Muxer::new();
    assert_eq!(muxer.add_video_stream(tb(1, 30_000)), Ok(0));
    assert_eq!(muxer.write_header(), Ok(()));
    assert_eq!(muxer.state(), MuxerState::HeaderWritten);
    let e = muxer.add_audio_stream(tb(1, 48_000)).err().unwrap();
    assert_eq!(e, Error::State(StateFailure::HeaderWritten));
    assert_eq!(e.kind(), ErrorKind::State);
    assert_eq!(e.status(), Status::Unconfigured);
    assert_eq!(muxer.add_video_stream(tb(1, 48_000)), Err(Error::State(StateFailure::HeaderWritten)));
    assert_eq!(muxer.stream_count(), 1);
    assert_eq!(muxer.write_header(), Err(Error::State(StateFailure::HeaderWritten)));
    assert_eq!(muxer.finish(), Ok(()));
    assert_eq!(muxer.add_audio_stream(tb(1, 48_000)), Err(Error::State(StateFailure::Finished)));
    assert_eq!(muxer.write_header(), Err(Error::State(StateFailure::Finished)));
    assert_eq!(muxer.stream_count(), 1);
}

#[test]
fn packets_come_between_header_and_trailer() {
    let mut muxer = Muxer::new();
    assert_eq!(muxer.add_video_stream(tb(1, 30_000)), Ok(0));
    assert_eq!(muxer.write_packet(0, timing(0), tb(1, 30_000)), Err(Error::State(StateFailure::HeaderMissing)));
    assert_eq!(muxer.finish(), Err(Error::State(StateFailure::HeaderMissing)));
    assert_eq!(muxer.state(), MuxerState::Open);
    assert_eq!(muxer.write_header(), Ok(()));
    assert!(muxer.write_packet(0, timing(0), tb(1, 30_000)).is_ok());
    assert_eq!(muxer.write_packet(1, timing(0), tb(1, 30_000)), Err(Error::State(StateFailure::NoSuchStream(1))));
    assert_eq!(muxer.finish(), Ok(()));
    assert_eq!(muxer.state(), MuxerState::Finished);
    assert_eq!(muxer.write_packet(0, timing(0), tb(1, 30_000)), Err(Error::State(StateFailure::Finished)));
    assert_eq!(muxer.finish(), Err(Error::State(StateFailure::Finished)));
    assert_eq!(muxer.state(), MuxerState::Finished);
}

#[test]
fn set_time_base_replaces_the_time_base_only() {
    let mut muxer = Muxer::new();
    assert_eq!(muxer.add_video_stream(tb(1, 30_000)), Ok(0));
    assert_eq!(muxer.add_audio_stream(tb(1, 48_000)), Ok(1));
    assert_eq!(muxer.set_time_base(1, tb(1, 1000)), Ok(()));
    assert_eq!(muxer.stream(0), Some(Stream { kind: StreamKind::Video, time_base: tb(1, 30_000) }));
    assert_eq!(muxer.stream(1), Some(Stream { kind: StreamKind::Audio, time_base: tb(1, 1000) }));
    assert_eq!(muxer.set_time_base(2, tb(1, 1000)), Err(Error::State(StateFailure::NoSuchStream(2))));
    assert_eq!(muxer.state(), MuxerState::Open);
}

#[test]
fn write_packet_moves_the_timestamps_into_the_time_base_of_the_stream() {
    let muxer = webm();
    let packet = PacketTiming { pts: Some(2000), dts: Some(1000), duration: 1000 };
    assert_eq!(
        muxer.write_packet(0, packet, tb(1, 30_000)),
        Ok(StampedPacket { stream: 0, pts: Some(67), dts: Some(33), duration: 33 })
    );
    let packet = PacketTiming { pts: Some(960 * 3), dts: Some(960 * 3), duration: 960 };
    assert_eq!(
        muxer.write_packet(1, packet, tb(1, 48_000)),
        Ok(StampedPacket { stream: 1, pts: Some(60), dts: Some(60), duration: 20 })
    );
}

#[test]
fn write_packet_leaves_what_is_unknown_unknown() {
    let muxer = webm();
    let packet = PacketTiming { pts: None, dts: Some(3000), duration: 0 };
    assert_eq!(
        muxer.write_packet(0, packet, tb(1, 30_000)),
        Ok(StampedPacket { stream: 0, pts: None, dts: Some(100), duration: 0 })
    );
    let packet = PacketTiming { pts: Some(3000), dts: None, duration: -5 };
    assert_eq!(
        muxer.write_packet(0, packet, tb(1, 30_000)),
        Ok(StampedPacket { stream: 0, pts: Some(100), dts: None, duration: -5 })
    );
}

#[test]
fn write_packet_loses_a_timestamp_that_cannot_be_moved() {
    let muxer = webm();
    let packet = PacketTiming { pts: Some(i64::MAX), dts: Some(1), duration: i64::MAX };
    assert_eq!(
        muxer.write_packet(0, packet, tb(1000, 1)),
        Ok(StampedPacket { stream: 0, pts: None, dts: Some(1_000_000), duration: 0 })
    );
    assert_eq!(
        muxer.write_packet(0, timing(5), tb(0, 1)),
        Ok(StampedPacket { stream: 0, pts: None, dts: None, duration: 0 })
    );
}

#[test]
fn written_timestamps_never_fall() {
    let muxer = webm();
    let mut last = i64::MIN;
    for k in 0..500 {
        let packet = muxer.write_packet(0, timing(k * 1000), tb(1, 30_000)).unwrap();
        assert!(packet.pts.unwrap() >= last);
        last = packet.pts.unwrap();
    }
    let mut last = i64::MIN;
    for k in 0..500 {
        let packet = muxer.write_packet(1, timing(k * 960), tb(1, 48_000)).unwrap();
        assert_eq!(packet.pts, Some(k * 20));
        assert!(packet.pts.unwrap() >= last);
        last = packet.pts.unwrap();
    }
}

#[test]
fn the_streams_are_fixed_once_the_header_is_written() {
    let mut muxer = webm();
    assert_eq!(muxer.set_time_base(0, tb(1, 90_000)), Err(Error::State(StateFailure::HeaderWritten)));
    assert_eq!(muxer.set_time_base(7, tb(1, 90_000)), Err(Error::State(StateFailure::HeaderWritten)));
    assert_eq!(muxer.stream(0), Some(Stream { kind: StreamKind::Video, time_base: tb(1, 1000) }));
    assert_eq!(muxer.finish(), Ok(()));
    assert_eq!(muxer.set_time_base(1, tb(1, 90_000)), Err(Error::State(StateFailure::Finished)));
    assert_eq!(muxer.stream(1), Some(Stream { kind: StreamKind::Audio, time_base: tb(1, 1000) }));
    assert_eq!(muxer.stream_count(), 2);
}
