//! The container's streams and the timestamps of the packets that go into
//! them.

use crate::timing::{rescale, spec_rescale, Rational};
use crate::{Error, StateFailure};
use vstd::prelude::*;

verus! {

/// What a stream carries.
#[derive(Clone, Copy, Debug, PartialEq, Eq, Structural)]
pub enum StreamKind {
    Video,
    Audio,
}

/// One stream of the container: what it carries and the unit of its
/// timestamps.
#[derive(Clone, Copy, Debug, PartialEq, Eq, Structural)]
pub struct Stream {
    pub kind: StreamKind,
    pub time_base: Rational,
}

/// How far the container has come.
#[derive(Clone, Copy, Debug, PartialEq, Eq, Structural)]
pub enum MuxerState {
    /// Streams may be added.
    Open,
    /// The header is written: the streams are fixed and packets may come.
    HeaderWritten,
    /// The trailer is written: the file is complete.
    Finished,
}

/// The timestamps of a packet as an encoder hands it out, in the encoder's
/// time base. A duration of 0 or less is unknown.
#[derive(Clone, Copy, Debug, PartialEq, Eq, Structural)]
pub struct PacketTiming {
    pub pts: Option<i64>,
    pub dts: Option<i64>,
    pub duration: i64,
}

/// The stream and the timestamps of a packet as it is written, in the
/// stream's time base.
#[derive(Clone, Copy, Debug, PartialEq, Eq, Structural)]
pub struct StampedPacket {
    pub stream: usize,
    pub pts: Option<i64>,
    pub dts: Option<i64>,
    pub duration: i64,
}

/// A timestamp moved from time base `from` to time base `to`; it is lost
/// where [`spec_rescale`] has no result.
pub open spec fn restamped(ts: Option<i64>, from: Rational, to: Rational) -> Option<i64> {
    match ts {
        Some(value) => spec_rescale(value, from, to),
        None => None,
    }
}

/// A duration moved from time base `from` to time base `to`; one that is
/// unknown, or that [`spec_rescale`] has no result for, stays or becomes
/// unknown.
pub open spec fn rescaled_duration(duration: i64, from: Rational, to: Rational) -> i64 {
    if duration > 0 {
        match spec_rescale(duration, from, to) {
            Some(value) => value,
            None => 0,
        }
    } else {
        duration
    }
}

/// A packet's timestamps moved into the time base of the stream with the
/// given number.
pub open spec fn stamped(stream: usize, timing: PacketTiming, from: Rational, to: Rational) -> StampedPacket {
    StampedPacket {
        stream,
        pts: restamped(timing.pts, from, to),
        dts: restamped(timing.dts, from, to),
        duration: rescaled_duration(timing.duration, from, to),
    }
}

/// Whether a stream of the given kind is among the streams.
pub open spec fn has_kind(streams: Seq<Stream>, kind: StreamKind) -> bool {
    exists|i: int| 0 <= i < streams.len() && (#[trigger] streams[i]).kind == kind
}

/// The streams of the output container and its progress from open to
/// finished.
#[derive(Debug)]
pub struct Muxer {
    streams: Vec<Stream>,
    state: MuxerState,
}

impl Muxer {
    /// The streams in the order in which they were added; a stream's place
    /// is its number.
    pub closed spec fn streams(&self) -> Seq<Stream> {
        self.streams@
    }

    /// How far the container has come.
    pub closed spec fn spec_state(&self) -> MuxerState {
        self.state
    }

    /// A container without streams, open for them.
    pub fn new() -> (muxer: Self)
        ensures
            muxer.streams().len() == 0,
            muxer.spec_state() == MuxerState::Open,
    {
        Muxer { streams: Vec::new(), state: MuxerState::Open }
    }

    /// How far the container has come.
    #[verifier::when_used_as_spec(spec_state)]
    pub fn state(&self) -> (state: MuxerState)
        ensures
            state == self.spec_state(),
    {
        self.state
    }

    /// The number of streams.
    pub fn stream_count(&self) -> (n: usize)
        ensures
            n == self.streams().len(),
    {
        self.streams.len()
    }

    /// The stream with the given number, if there is one.
    pub fn stream(&self, stream_id: usize) -> (stream: Option<Stream>)
        ensures
            stream == (if stream_id < self.streams().len() {
                Some(self.streams()[stream_id as int])
            } else {
                None
            }),
    {
        if stream_id < self.streams.len() {
            Some(self.streams[stream_id])
        } else {
            None
        }
    }

    /// Whether a stream of the given kind has been added.
    fn contains(&self, kind: StreamKind) -> (r: bool)
        ensures
            r == has_kind(self.streams(), kind),
    {
        let n = self.streams.len();
        let mut i: usize = 0;
        while i < n
            invariant
                i <= n,
                n == self.streams@.len(),
                forall|j: int| 0 <= j < i ==> (#[trigger] self.streams@[j]).kind != kind,
            decreases n - i,
        {
            if self.streams[i].kind == kind {
                return true;
            }
            i += 1;
        }
        false
    }

    /// Why a stream of the given kind cannot be added, if it cannot: the
    /// header is written, the trailer is, or the container has such a
    /// stream.
    pub open spec fn add_failure(&self, kind: StreamKind) -> Option<StateFailure> {
        match self.spec_state() {
            MuxerState::HeaderWritten => Some(StateFailure::HeaderWritten),
            MuxerState::Finished => Some(StateFailure::Finished),
            MuxerState::Open => if has_kind(self.streams(), kind) {
                Some(StateFailure::StreamExists)
            } else {
                None
            },
        }
    }

    /// What adding a stream does: refused, nothing changes; else the stream
    /// comes behind the others and its place is returned.
    pub open spec fn added(before: Muxer, after: Muxer, stream: Stream, r: Result<usize, Error>) -> bool {
        &&& after.spec_state() == before.spec_state()
        &&& match before.add_failure(stream.kind) {
            Some(failure) => {
                &&& r == Err::<usize, Error>(Error::State(failure))
                &&& after.streams() == before.streams()
            },
            None => {
                &&& r == Ok::<usize, Error>(before.streams().len() as usize)
                &&& after.streams() == before.streams().push(stream)
            },
        }
    }

    fn add_stream(&mut self, stream: Stream) -> (r: Result<usize, Error>)
        ensures
            Self::added(*old(self), *final(self), stream, r),
    {
        match self.state {
            MuxerState::HeaderWritten => {
                return Err(Error::State(StateFailure::HeaderWritten));
            },
            MuxerState::Finished => {
                return Err(Error::State(StateFailure::Finished));
            },
            MuxerState::Open => {},
        }
        if self.contains(stream.kind) {
            return Err(Error::State(StateFailure::StreamExists));
        }
        let stream_id = self.streams.len();
        self.streams.push(stream);
        Ok(stream_id)
    }

    /// Adds the video stream and returns its number. `time_base` is the
    /// unit that the encoder suggests for the stream's timestamps.
    pub fn add_video_stream(&mut self, time_base: Rational) -> (r: Result<usize, Error>)
        ensures
            Self::added(*old(self), *final(self), Stream { kind: StreamKind::Video, time_base }, r),
    {
        self.add_stream(Stream { kind: StreamKind::Video, time_base })
    }

    /// Adds the audio stream and returns its number. `time_base` is the
    /// unit that the encoder suggests for the stream's timestamps.
    pub fn add_audio_stream(&mut self, time_base: Rational) -> (r: Result<usize, Error>)
        ensures
            Self::added(*old(self), *final(self), Stream { kind: StreamKind::Audio, time_base }, r),
    {
        self.add_stream(Stream { kind: StreamKind::Audio, time_base })
    }

    /// Takes note that the header is written. From here on no stream can be
    /// added. A second header is refused as `HeaderWritten`, one behind the
    /// trailer as `Finished`; a refusal changes nothing.
    pub fn write_header(&mut self) -> (r: Result<(), Error>)
        ensures
            final(self).streams() == old(self).streams(),
            match old(self).spec_state() {
                MuxerState::Open => {
                    &&& r == Ok::<(), Error>(())
                    &&& final(self).spec_state() == MuxerState::HeaderWritten
                },
                MuxerState::HeaderWritten => {
                    &&& r == Err::<(), Error>(Error::State(StateFailure::HeaderWritten))
                    &&& final(self).spec_state() == MuxerState::HeaderWritten
                },
                MuxerState::Finished => {
                    &&& r == Err::<(), Error>(Error::State(StateFailure::Finished))
                    &&& final(self).spec_state() == MuxerState::Finished
                },
            },
    {
        match self.state {
            MuxerState::Open => {
                self.state = MuxerState::HeaderWritten;
                Ok(())
            },
            MuxerState::HeaderWritten => Err(Error::State(StateFailure::HeaderWritten)),
            MuxerState::Finished => Err(Error::State(StateFailure::Finished)),
        }
    }

    /// What [`Muxer::set_time_base`] answers: the streams are fixed once
    /// the header is written, and only a stream that exists has a time
    /// base.
    pub open spec fn time_base_failure(&self, stream_id: usize) -> Option<StateFailure> {
        match self.spec_state() {
            MuxerState::HeaderWritten => Some(StateFailure::HeaderWritten),
            MuxerState::Finished => Some(StateFailure::Finished),
            MuxerState::Open => if stream_id < self.streams().len() {
                None
            } else {
                Some(StateFailure::NoSuchStream(stream_id))
            },
        }
    }

    /// Replaces the time base of a stream by the one that the container
    /// declares for it, which need not be the one that the encoder
    /// suggested. This is the last thing that happens to a stream before
    /// the header is written; from then on the streams do not change.
    ///
    /// Refused as `HeaderWritten` or `Finished` once the header is written,
    /// and as `NoSuchStream` for a number without a stream; a refusal
    /// changes nothing.
    pub fn set_time_base(&mut self, stream_id: usize, time_base: Rational) -> (r: Result<(), Error>)
        ensures
            final(self).spec_state() == old(self).spec_state(),
            match old(self).time_base_failure(stream_id) {
                Some(failure) => {
                    &&& r == Err::<(), Error>(Error::State(failure))
                    &&& final(self).streams() == old(self).streams()
                },
                None => {
                    &&& r == Ok::<(), Error>(())
                    &&& final(self).streams() == old(self).streams().update(
                        stream_id as int,
                        Stream { kind: old(self).streams()[stream_id as int].kind, time_base },
                    )
                },
            },
    {
        match self.state {
            MuxerState::HeaderWritten => {
                return Err(Error::State(StateFailure::HeaderWritten));
            },
            MuxerState::Finished => {
                return Err(Error::State(StateFailure::Finished));
            },
            MuxerState::Open => {},
        }
        if stream_id >= self.streams.len() {
            return Err(Error::State(StateFailure::NoSuchStream(stream_id)));
        }
        let kind = self.streams[stream_id].kind;
        self.streams[stream_id] = Stream { kind, time_base };
        Ok(())
    }

    /// What [`Muxer::write_packet`] answers.
    pub open spec fn spec_write_packet(
        &self,
        stream_id: usize,
        timing: PacketTiming,
        encoder_time_base: Rational,
    ) -> Result<StampedPacket, Error> {
        match self.spec_state() {
            MuxerState::Open => Err(Error::State(StateFailure::HeaderMissing)),
            MuxerState::Finished => Err(Error::State(StateFailure::Finished)),
            MuxerState::HeaderWritten => if stream_id < self.streams().len() {
                Ok(
                    stamped(
                        stream_id,
                        timing,
                        encoder_time_base,
                        self.streams()[stream_id as int].time_base,
                    ),
                )
            } else {
                Err(Error::State(StateFailure::NoSuchStream(stream_id)))
            },
        }
    }

    /// Prepares a packet for the container: gives it its stream's number
    /// and moves its timestamps from the encoder's time base into the
    /// stream's, each rounded to the nearest tick.
    ///
    /// Refused as `HeaderMissing` before the header, as `Finished` behind
    /// the trailer, and as `NoSuchStream` for a number without a stream.
    pub fn write_packet(&self, stream_id: usize, timing: PacketTiming, encoder_time_base: Rational) -> (r: Result<
        StampedPacket,
        Error,
    >)
        ensures
            r == self.spec_write_packet(stream_id, timing, encoder_time_base),
    {
        match self.state {
            MuxerState::Open => {
                return Err(Error::State(StateFailure::HeaderMissing));
            },
            MuxerState::Finished => {
                return Err(Error::State(StateFailure::Finished));
            },
            MuxerState::HeaderWritten => {},
        }
        if stream_id >= self.streams.len() {
            return Err(Error::State(StateFailure::NoSuchStream(stream_id)));
        }
        let to = self.streams[stream_id].time_base;
        let pts = match timing.pts {
            Some(value) => rescale(value, encoder_time_base, to),
            None => None,
        };
        let dts = match timing.dts {
            Some(value) => rescale(value, encoder_time_base, to),
            None => None,
        };
        let duration = if timing.duration > 0 {
            match rescale(timing.duration, encoder_time_base, to) {
                Some(value) => value,
                None => 0,
            }
        } else {
            timing.duration
        };
        Ok(StampedPacket { stream: stream_id, pts, dts, duration })
    }

    /// Takes note that the trailer is written: the file is complete and the
    /// container takes nothing more. Refused as `HeaderMissing` before the
    /// header and as `Finished` the second time; a refusal changes nothing.
    pub fn finish(&mut self) -> (r: Result<(), Error>)
        ensures
            final(self).streams() == old(self).streams(),
            match old(self).spec_state() {
                MuxerState::Open => {
                    &&& r == Err::<(), Error>(Error::State(StateFailure::HeaderMissing))
                    &&& final(self).spec_state() == MuxerState::Open
                },
                MuxerState::HeaderWritten => {
                    &&& r == Ok::<(), Error>(())
                    &&& final(self).spec_state() == MuxerState::Finished
                },
                MuxerState::Finished => {
                    &&& r == Err::<(), Error>(Error::State(StateFailure::Finished))
                    &&& final(self).spec_state() == MuxerState::Finished
                },
            },
    {
        match self.state {
            MuxerState::Open => Err(Error::State(StateFailure::HeaderMissing)),
            MuxerState::HeaderWritten => {
                self.state = MuxerState::Finished;
                Ok(())
            },
            MuxerState::Finished => Err(Error::State(StateFailure::Finished)),
        }
    }
}

/// Timestamps that do not fall in the encoder's time base do not fall in
/// the stream's: of two packets for one stream, the one with the later
/// timestamp is not written with the earlier one.
pub proof fn lemma_stamped_pts_monotonic(
    muxer: Muxer,
    stream_id: usize,
    earlier: PacketTiming,
    later: PacketTiming,
    encoder_time_base: Rational,
)
    requires
        earlier.pts matches Some(a) && later.pts matches Some(b) && a <= b,
    ensures
        muxer.spec_write_packet(stream_id, earlier, encoder_time_base) matches Ok(first) ==> (
        muxer.spec_write_packet(stream_id, later, encoder_time_base) matches Ok(second) ==> (
        first.pts matches Some(x) ==> (second.pts matches Some(y) ==> x <= y))),
{
    if stream_id < muxer.streams().len() {
        crate::timing::lemma_rescale_keeps_order(
            earlier.pts->0,
            later.pts->0,
            encoder_time_base,
            muxer.streams()[stream_id as int].time_base,
        );
    }
}

} // verus!
