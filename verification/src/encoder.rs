//! The video encoder's configuration and the plan of the container that
//! takes its packets and those of the audio encoder.

use crate::audio::{
    option_views, AudioFrameSpec, CodecOption, OpusEncoder, OptionValue, OptionValueView,
    SpeakerMode, OPUS_SAMPLE_RATE,
};
use crate::conversion::{Pixel, VideoFrame};
use crate::muxer::{Muxer, MuxerState, PacketTiming, StampedPacket, Stream, StreamKind};
use crate::settings::{EncoderConfig, Quality};
use crate::timing::Rational;
use crate::{EncodingFailure, Error, StateFailure};
use vstd::prelude::*;

verus! {

/// How many ticks of the video encoder's time base one frame lasts.
pub const TICKS_PER_FRAME: u32 = 1000;

/// What the video codec is opened with.
#[derive(Clone, Copy, Debug, PartialEq, Eq, Structural)]
pub struct VideoSettings {
    pub width: u32,
    pub height: u32,
    pub format: Pixel,
    /// The unit of the encoder's timestamps: a thousandth of a frame.
    pub time_base: Rational,
    pub frame_rate: Rational,
    /// Whether the container wants the codec's headers in its own header
    /// rather than in the packets.
    pub global_header: bool,
    /// Threads given to the codec; 0 lets it choose.
    pub thread_count: u32,
    pub quality: Quality,
}

impl VideoSettings {
    /// The dictionary that the codec is opened with.
    pub open spec fn spec_options(self) -> Seq<(Seq<char>, OptionValueView)> {
        seq![
            ("cpu-used"@, OptionValueView::Text("5"@)),
            ("auto-alt-ref"@, OptionValueView::Text("0"@)),
            ("lag-in-frames"@, OptionValueView::Text("0"@)),
            ("row-mt"@, OptionValueView::Text("1"@)),
            ("speed"@, OptionValueView::Text("5"@)),
            ("threads"@, OptionValueView::Number(self.thread_count)),
            ("quality"@, OptionValueView::Text(self.quality.spec_deadline())),
            ("deadline"@, OptionValueView::Text(self.quality.spec_deadline())),
        ]
    }

    /// The dictionary that the codec is opened with: the fixed knobs for
    /// encoding without lag, row by row on several threads, then the thread
    /// count and the quality tier.
    pub fn options(&self) -> (options: Vec<CodecOption>)
        ensures
            option_views(options@) == self.spec_options(),
    {
        let deadline = self.quality.deadline();
        let mut options: Vec<CodecOption> = Vec::new();
        options.push(CodecOption { key: "cpu-used", value: OptionValue::Text("5") });
        options.push(CodecOption { key: "auto-alt-ref", value: OptionValue::Text("0") });
        options.push(CodecOption { key: "lag-in-frames", value: OptionValue::Text("0") });
        options.push(CodecOption { key: "row-mt", value: OptionValue::Text("1") });
        options.push(CodecOption { key: "speed", value: OptionValue::Text("5") });
        options.push(CodecOption { key: "threads", value: OptionValue::Number(self.thread_count) });
        options.push(CodecOption { key: "quality", value: OptionValue::Text(deadline) });
        options.push(CodecOption { key: "deadline", value: OptionValue::Text(deadline) });
        options
    }
}

/// One step of closing the recording. The steps are attempted in their
/// order, and a step that fails does not keep the later ones from being
/// attempted.
#[derive(Clone, Copy, Debug, PartialEq, Eq, Structural)]
pub enum FinishStep {
    /// Tell the video codec that the stream has ended and write the packets
    /// it still holds.
    FlushVideo,
    /// The same for the audio codec.
    FlushAudio,
    /// Write the container's trailer.
    WriteTrailer,
}

/// The video encoder's settings, the audio encoder where there is one, and
/// the container with the stream of each.
#[derive(Debug)]
pub struct VP9Encoder {
    muxer: Muxer,
    video_stream_index: usize,
    audio_stream_index: Option<usize>,
    encoder: VideoSettings,
    audio_encoder: Option<OpusEncoder>,
}

impl VP9Encoder {
    /// The frame rates whose time base, a thousandth of a frame, has a
    /// denominator that fits the codec's 32 bits.
    pub open spec fn frame_rate_supported(fps: u32) -> bool {
        0 < fps && fps * TICKS_PER_FRAME <= i32::MAX
    }

    /// The settings for a frame size, a frame rate and a configuration.
    pub open spec fn spec_configure_encoder(
        width: u32,
        height: u32,
        fps: u32,
        global_header: bool,
        config: &EncoderConfig,
    ) -> VideoSettings {
        VideoSettings {
            width,
            height,
            format: Pixel::Yuv420p,
            time_base: Rational { num: 1, den: (fps * TICKS_PER_FRAME) as i32 },
            frame_rate: Rational { num: fps as i32, den: 1 },
            global_header,
            thread_count: config.thread_count,
            quality: config.quality,
        }
    }

    /// Works out what the video codec is opened with.
    ///
    /// Fails with `UnsupportedFrameRate` exactly when the frame rate is
    /// zero or too high for [`VP9Encoder::frame_rate_supported`].
    pub fn configure_encoder(
        width: u32,
        height: u32,
        fps: u32,
        global_header: bool,
        config: &EncoderConfig,
    ) -> (r: Result<VideoSettings, Error>)
        ensures
            r == (if Self::frame_rate_supported(fps) {
                Ok::<VideoSettings, Error>(
                    Self::spec_configure_encoder(width, height, fps, global_header, config),
                )
            } else {
                Err::<VideoSettings, Error>(
                    Error::Encoding(EncodingFailure::UnsupportedFrameRate(fps)),
                )
            }),
    {
        if fps == 0 || fps > 0x7fff_ffff / TICKS_PER_FRAME {
            return Err(Error::Encoding(EncodingFailure::UnsupportedFrameRate(fps)));
        }
        Ok(
            VideoSettings {
                width,
                height,
                format: Pixel::Yuv420p,
                time_base: Rational { num: 1, den: (fps * TICKS_PER_FRAME) as i32 },
                frame_rate: Rational { num: fps as i32, den: 1 },
                global_header,
                thread_count: config.thread_count,
                quality: config.quality,
            },
        )
    }

    /// The container of the recording.
    pub closed spec fn muxer(&self) -> Muxer {
        self.muxer
    }

    /// The number of the video stream.
    pub closed spec fn spec_video_stream_index(&self) -> usize {
        self.video_stream_index
    }

    /// The number of the audio stream, if there is one.
    pub closed spec fn spec_audio_stream_index(&self) -> Option<usize> {
        self.audio_stream_index
    }

    /// What the video codec is opened with.
    pub closed spec fn spec_encoder(&self) -> VideoSettings {
        self.encoder
    }

    /// The audio encoder, if the recording has an audio stream.
    pub closed spec fn spec_audio_encoder(&self) -> Option<OpusEncoder> {
        self.audio_encoder
    }

    /// The stream numbers are those of the container's streams of their
    /// kind, and the audio stream and the audio encoder come together.
    pub open spec fn wf(&self) -> bool {
        &&& self.spec_video_stream_index() < self.muxer().streams().len()
        &&& self.muxer().streams()[self.spec_video_stream_index() as int].kind == StreamKind::Video
        &&& self.spec_audio_stream_index() is Some <==> self.spec_audio_encoder() is Some
        &&& self.spec_audio_stream_index() matches Some(index) ==> {
            &&& index < self.muxer().streams().len()
            &&& self.muxer().streams()[index as int].kind == StreamKind::Audio
        }
    }

    /// Whether a recording with this configuration has an audio stream: it
    /// has one where audio is enabled and the container takes audio.
    pub open spec fn wants_audio(takes_audio: bool, config: &EncoderConfig) -> bool {
        config.enable_audio && takes_audio
    }

    /// Plans a recording: the video encoder's settings, an audio encoder
    /// for 48 kHz stereo where [`VP9Encoder::wants_audio`] says so, and a
    /// container with the video stream first and the audio stream, if any,
    /// second. The container is still open: its header is written once both
    /// codecs are.
    ///
    /// `global_header` and `takes_audio` are what the container of the
    /// output file says of itself: whether it wants the codecs' headers in
    /// its own, and whether it can hold an audio stream.
    ///
    /// Fails, as [`VP9Encoder::configure_encoder`] does, exactly on an
    /// unsupported frame rate.
    pub fn new(
        width: u32,
        height: u32,
        fps: u32,
        global_header: bool,
        takes_audio: bool,
        config: &EncoderConfig,
    ) -> (r: Result<Self, Error>)
        ensures
            !Self::frame_rate_supported(fps) ==> (r matches Err(e) && e == Error::Encoding(
                EncodingFailure::UnsupportedFrameRate(fps),
            )),
            Self::frame_rate_supported(fps) ==> {
                &&& r matches Ok(encoder)
                &&& encoder.wf()
                &&& encoder.spec_encoder() == Self::spec_configure_encoder(
                    width,
                    height,
                    fps,
                    global_header,
                    config,
                )
                &&& encoder.muxer().spec_state() == MuxerState::Open
                &&& encoder.spec_video_stream_index() == 0
                &&& if Self::wants_audio(takes_audio, config) {
                    &&& encoder.spec_audio_stream_index() == Some(1usize)
                    &&& encoder.spec_audio_encoder() matches Some(audio)
                    &&& audio.spec_sample_rate() == OPUS_SAMPLE_RATE
                    &&& audio.spec_channels() == 2
                    &&& audio.spec_quality() == config.quality
                    &&& audio.spec_frame_count() == 0
                    &&& !audio.spec_finished()
                    &&& encoder.muxer().streams() == seq![
                        Stream { kind: StreamKind::Video, time_base: encoder.spec_encoder().time_base },
                        Stream {
                            kind: StreamKind::Audio,
                            time_base: Rational { num: 1, den: OPUS_SAMPLE_RATE as i32 },
                        },
                    ]
                } else {
                    &&& encoder.spec_audio_stream_index() is None
                    &&& encoder.spec_audio_encoder() is None
                    &&& encoder.muxer().streams() == seq![
                        Stream { kind: StreamKind::Video, time_base: encoder.spec_encoder().time_base },
                    ]
                }
            },
    {
        let encoder = match Self::configure_encoder(width, height, fps, global_header, config) {
            Ok(settings) => settings,
            Err(e) => {
                return Err(e);
            },
        };
        let mut muxer = Muxer::new();
        let video_stream_index = match muxer.add_video_stream(encoder.time_base) {
            Ok(index) => index,
            Err(e) => {
                return Err(e);
            },
        };
        let mut audio_stream_index: Option<usize> = None;
        let mut audio_encoder: Option<OpusEncoder> = None;
        if config.enable_audio && takes_audio {
            let opus_encoder = match OpusEncoder::new(OPUS_SAMPLE_RATE, SpeakerMode::Stereo, config) {
                Ok(opus_encoder) => opus_encoder,
                Err(e) => {
                    return Err(e);
                },
            };
            let index = match muxer.add_audio_stream(opus_encoder.time_base()) {
                Ok(index) => index,
                Err(e) => {
                    return Err(e);
                },
            };
            audio_stream_index = Some(index);
            audio_encoder = Some(opus_encoder);
        }
        Ok(VP9Encoder { muxer, video_stream_index, audio_stream_index, encoder, audio_encoder })
    }

    /// The number of the video stream.
    #[verifier::when_used_as_spec(spec_video_stream_index)]
    pub fn video_stream_index(&self) -> (index: usize)
        ensures
            index == self.spec_video_stream_index(),
    {
        self.video_stream_index
    }

    /// The number of the audio stream, if there is one.
    #[verifier::when_used_as_spec(spec_audio_stream_index)]
    pub fn audio_stream_index(&self) -> (index: Option<usize>)
        ensures
            index == self.spec_audio_stream_index(),
    {
        self.audio_stream_index
    }

    /// What the video codec is opened with.
    #[verifier::when_used_as_spec(spec_encoder)]
    pub fn encoder(&self) -> (settings: VideoSettings)
        ensures
            settings == self.spec_encoder(),
    {
        self.encoder
    }

    /// The audio encoder, if the recording has an audio stream.
    pub fn audio_encoder(&self) -> (audio: Option<&OpusEncoder>)
        ensures
            match audio {
                Some(encoder) => self.spec_audio_encoder() == Some(*encoder),
                None => self.spec_audio_encoder() is None,
            },
    {
        self.audio_encoder.as_ref()
    }

    /// How far the container has come.
    pub fn state(&self) -> (state: MuxerState)
        ensures
            state == self.muxer().spec_state(),
    {
        self.muxer.state()
    }

    /// The container's streams with a stream's time base replaced, as
    /// [`VP9Encoder::write_header`] leaves them.
    pub open spec fn with_time_base(streams: Seq<Stream>, index: int, time_base: Rational) -> Seq<Stream> {
        streams.update(index, Stream { kind: streams[index].kind, time_base })
    }

    /// Takes note that both codecs are open and the container's header is
    /// written, and of the time bases that the container has declared for
    /// its streams, which need not be those that the encoders suggested.
    /// From here on the streams do not change.
    /// Where the recording has no audio stream `audio_time_base` is not
    /// looked at; where it has one and `audio_time_base` is nothing, the
    /// stream keeps the time base it has.
    ///
    /// A second header is refused as `HeaderWritten`, one behind the
    /// trailer as `Finished`; a refusal changes nothing.
    pub fn write_header(&mut self, video_time_base: Rational, audio_time_base: Option<Rational>) -> (r: Result<
        (),
        Error,
    >)
        requires
            old(self).wf(),
        ensures
            final(self).wf(),
            final(self).spec_video_stream_index() == old(self).spec_video_stream_index(),
            final(self).spec_audio_stream_index() == old(self).spec_audio_stream_index(),
            final(self).spec_encoder() == old(self).spec_encoder(),
            final(self).spec_audio_encoder() == old(self).spec_audio_encoder(),
            match old(self).muxer().spec_state() {
                MuxerState::Open => {
                    &&& r == Ok::<(), Error>(())
                    &&& final(self).muxer().spec_state() == MuxerState::HeaderWritten
                    &&& final(self).muxer().streams() == (match (
                        old(self).spec_audio_stream_index(),
                        audio_time_base,
                    ) {
                        (Some(index), Some(time_base)) => Self::with_time_base(
                            Self::with_time_base(
                                old(self).muxer().streams(),
                                old(self).spec_video_stream_index() as int,
                                video_time_base,
                            ),
                            index as int,
                            time_base,
                        ),
                        _ => Self::with_time_base(
                            old(self).muxer().streams(),
                            old(self).spec_video_stream_index() as int,
                            video_time_base,
                        ),
                    })
                },
                MuxerState::HeaderWritten => {
                    &&& r == Err::<(), Error>(Error::State(StateFailure::HeaderWritten))
                    &&& final(self).muxer().spec_state() == MuxerState::HeaderWritten
                    &&& final(self).muxer().streams() == old(self).muxer().streams()
                },
                MuxerState::Finished => {
                    &&& r == Err::<(), Error>(Error::State(StateFailure::Finished))
                    &&& final(self).muxer().spec_state() == MuxerState::Finished
                    &&& final(self).muxer().streams() == old(self).muxer().streams()
                },
            },
    {
        match self.muxer.state() {
            MuxerState::Open => {},
            MuxerState::HeaderWritten => {
                return Err(Error::State(StateFailure::HeaderWritten));
            },
            MuxerState::Finished => {
                return Err(Error::State(StateFailure::Finished));
            },
        }
        let _ = self.muxer.set_time_base(self.video_stream_index, video_time_base);
        match (self.audio_stream_index, audio_time_base) {
            (Some(index), Some(time_base)) => {
                let _ = self.muxer.set_time_base(index, time_base);
            },
            _ => {},
        }
        self.muxer.write_header()
    }

    /// What [`VP9Encoder::write_frame`] answers.
    pub open spec fn spec_write_frame(&self, frame: &VideoFrame) -> Result<(), Error> {
        let settings = self.spec_encoder();
        match self.muxer().spec_state() {
            MuxerState::Open => Err(Error::State(StateFailure::HeaderMissing)),
            MuxerState::Finished => Err(Error::State(StateFailure::Finished)),
            MuxerState::HeaderWritten => if frame.wf() && frame.width == settings.width
                && frame.height == settings.height {
                Ok(())
            } else {
                Err(
                    Error::Encoding(
                        EncodingFailure::FrameMismatch {
                            width: settings.width,
                            height: settings.height,
                            frame_width: frame.width,
                            frame_height: frame.height,
                        },
                    ),
                )
            },
        }
    }

    /// Says whether a frame may be sent to the video codec: it may where
    /// the header is written and the trailer is not, and the frame is well
    /// formed and has the size that the encoder was opened for.
    ///
    /// Refused as `HeaderMissing` before the header, as `Finished` behind
    /// the trailer, and as `FrameMismatch` for a frame of another size or
    /// with planes that do not fit it.
    pub fn write_frame(&self, frame: &VideoFrame) -> (r: Result<(), Error>)
        ensures
            r == self.spec_write_frame(frame),
    {
        match self.muxer.state() {
            MuxerState::Open => {
                return Err(Error::State(StateFailure::HeaderMissing));
            },
            MuxerState::Finished => {
                return Err(Error::State(StateFailure::Finished));
            },
            MuxerState::HeaderWritten => {},
        }
        if frame.is_well_formed() && frame.width == self.encoder.width && frame.height
            == self.encoder.height {
            Ok(())
        } else {
            Err(
                Error::Encoding(
                    EncodingFailure::FrameMismatch {
                        width: self.encoder.width,
                        height: self.encoder.height,
                        frame_width: frame.width,
                        frame_height: frame.height,
                    },
                ),
            )
        }
    }

    /// What [`VP9Encoder::stamp_video_packet`] answers.
    pub open spec fn spec_stamp_video_packet(&self, timing: PacketTiming) -> Result<StampedPacket, Error> {
        self.muxer().spec_write_packet(
            self.spec_video_stream_index(),
            timing,
            self.spec_encoder().time_base,
        )
    }

    /// Prepares a packet of the video codec for the container: gives it the
    /// video stream's number and moves its timestamps from the encoder's
    /// time base into the stream's.
    pub fn stamp_video_packet(&self, timing: PacketTiming) -> (r: Result<StampedPacket, Error>)
        ensures
            r == self.spec_stamp_video_packet(timing),
    {
        self.muxer.write_packet(self.video_stream_index, timing, self.encoder.time_base)
    }

    /// What [`VP9Encoder::stamp_audio_packet`] answers.
    pub open spec fn spec_stamp_audio_packet(&self, timing: PacketTiming) -> Option<
        Result<StampedPacket, Error>,
    > {
        match (self.spec_audio_encoder(), self.spec_audio_stream_index()) {
            (Some(audio), Some(index)) => Some(
                self.muxer().spec_write_packet(
                    index,
                    timing,
                    Rational { num: 1, den: audio.spec_sample_rate() as i32 },
                ),
            ),
            _ => None,
        }
    }

    /// Prepares a packet of the audio codec for the container, as
    /// [`VP9Encoder::stamp_video_packet`] does for video. Where the
    /// recording has no audio stream there is nothing to prepare.
    pub fn stamp_audio_packet(&self, timing: PacketTiming) -> (r: Option<Result<StampedPacket, Error>>)
        ensures
            r == self.spec_stamp_audio_packet(timing),
    {
        match (&self.audio_encoder, self.audio_stream_index) {
            (Some(audio), Some(index)) => Some(
                self.muxer.write_packet(index, timing, audio.time_base()),
            ),
            _ => None,
        }
    }

    /// Describes the audio frame that carries a block of `data_size` bytes,
    /// as [`OpusEncoder::encode_audio_data`] does. Where the recording has
    /// no audio stream there is nothing to encode, and that is no failure.
    pub fn write_audio_data(&self, data_size: usize) -> (r: Result<Option<AudioFrameSpec>, Error>)
        ensures
            r == (match self.spec_audio_encoder() {
                Some(audio) => match audio.spec_encode_audio_data(data_size) {
                    Ok(frame) => Ok::<Option<AudioFrameSpec>, Error>(Some(frame)),
                    Err(e) => Err::<Option<AudioFrameSpec>, Error>(e),
                },
                None => Ok::<Option<AudioFrameSpec>, Error>(None),
            }),
    {
        match &self.audio_encoder {
            Some(audio) => match audio.encode_audio_data(data_size) {
                Ok(frame) => Ok(Some(frame)),
                Err(e) => Err(e),
            },
            None => Ok(None),
        }
    }

    /// The steps that close the recording, in their order: the video codec
    /// is flushed first, then the audio codec where there is one, and the
    /// trailer is written last.
    pub open spec fn finish_steps(has_audio: bool) -> Seq<FinishStep> {
        if has_audio {
            seq![FinishStep::FlushVideo, FinishStep::FlushAudio, FinishStep::WriteTrailer]
        } else {
            seq![FinishStep::FlushVideo, FinishStep::WriteTrailer]
        }
    }

    /// Says how the recording is closed. The container still takes the
    /// packets that the codecs give up while they are flushed.
    ///
    /// Refused as `HeaderMissing` before the header and as `Finished`
    /// behind the trailer.
    pub fn finish(&self) -> (r: Result<Vec<FinishStep>, Error>)
        ensures
            match self.muxer().spec_state() {
                MuxerState::Open => r matches Err(e) && e == Error::State(StateFailure::HeaderMissing),
                MuxerState::Finished => r matches Err(e) && e == Error::State(StateFailure::Finished),
                MuxerState::HeaderWritten => r matches Ok(steps) && steps@ == Self::finish_steps(
                    self.spec_audio_encoder() is Some,
                ),
            },
    {
        match self.muxer.state() {
            MuxerState::Open => {
                return Err(Error::State(StateFailure::HeaderMissing));
            },
            MuxerState::Finished => {
                return Err(Error::State(StateFailure::Finished));
            },
            MuxerState::HeaderWritten => {},
        }
        let mut steps: Vec<FinishStep> = Vec::new();
        steps.push(FinishStep::FlushVideo);
        if self.audio_encoder.is_some() {
            steps.push(FinishStep::FlushAudio);
        }
        steps.push(FinishStep::WriteTrailer);
        Ok(steps)
    }

    /// Takes note of what the audio codec said to the frame that
    /// [`VP9Encoder::write_audio_data`] described, as
    /// [`OpusEncoder::frame_sent`] does. Without an audio encoder nothing
    /// was sent and nothing changes.
    pub fn audio_frame_sent(&mut self, outcome: Result<(), i32>) -> (r: Result<(), Error>)
        requires
            old(self).wf(),
        ensures
            final(self).wf(),
            final(self).muxer() == old(self).muxer(),
            final(self).spec_video_stream_index() == old(self).spec_video_stream_index(),
            final(self).spec_audio_stream_index() == old(self).spec_audio_stream_index(),
            final(self).spec_encoder() == old(self).spec_encoder(),
            match old(self).spec_audio_encoder() {
                Some(before) => final(self).spec_audio_encoder() matches Some(after)
                    && OpusEncoder::counted(before, after, outcome, r),
                None => final(self).spec_audio_encoder() is None && r == Ok::<(), Error>(()),
            },
    {
        match &mut self.audio_encoder {
            Some(audio) => audio.frame_sent(outcome),
            None => Ok(()),
        }
    }

    /// Takes note of what the audio codec said when it was told that the
    /// stream has ended, as [`OpusEncoder::finish`] does. Without an audio
    /// encoder nothing was told and nothing changes.
    pub fn audio_flushed(&mut self, outcome: Result<(), i32>) -> (r: Result<(), Error>)
        requires
            old(self).wf(),
        ensures
            final(self).wf(),
            final(self).muxer() == old(self).muxer(),
            final(self).spec_video_stream_index() == old(self).spec_video_stream_index(),
            final(self).spec_audio_stream_index() == old(self).spec_audio_stream_index(),
            final(self).spec_encoder() == old(self).spec_encoder(),
            match old(self).spec_audio_encoder() {
                Some(before) => final(self).spec_audio_encoder() matches Some(after)
                    && OpusEncoder::ended(before, after, outcome, r),
                None => final(self).spec_audio_encoder() is None && r == Ok::<(), Error>(()),
            },
    {
        match &mut self.audio_encoder {
            Some(audio) => audio.finish(outcome),
            None => Ok(()),
        }
    }

    /// Takes note that the trailer is written: the file is complete.
    /// Refused as `HeaderMissing` before the header and as `Finished` the
    /// second time; a refusal changes nothing.
    pub fn trailer_written(&mut self) -> (r: Result<(), Error>)
        requires
            old(self).wf(),
        ensures
            final(self).wf(),
            final(self).muxer().streams() == old(self).muxer().streams(),
            final(self).spec_video_stream_index() == old(self).spec_video_stream_index(),
            final(self).spec_audio_stream_index() == old(self).spec_audio_stream_index(),
            final(self).spec_encoder() == old(self).spec_encoder(),
            final(self).spec_audio_encoder() == old(self).spec_audio_encoder(),
            match old(self).muxer().spec_state() {
                MuxerState::Open => {
                    &&& r == Err::<(), Error>(Error::State(StateFailure::HeaderMissing))
                    &&& final(self).muxer().spec_state() == MuxerState::Open
                },
                MuxerState::HeaderWritten => {
                    &&& r == Ok::<(), Error>(())
                    &&& final(self).muxer().spec_state() == MuxerState::Finished
                },
                MuxerState::Finished => {
                    &&& r == Err::<(), Error>(Error::State(StateFailure::Finished))
                    &&& final(self).muxer().spec_state() == MuxerState::Finished
                },
            },
    {
        self.muxer.finish()
    }
}

/// Whether the step at place `at` is the first that failed.
pub open spec fn is_first_failure(outcomes: Seq<Result<(), Error>>, at: int) -> bool {
    &&& 0 <= at < outcomes.len()
    &&& outcomes[at] is Err
    &&& forall|before: int| 0 <= before < at ==> (#[trigger] outcomes[before]) is Ok
}

/// Says how closing the recording went, from how each step went, in the
/// order of the steps. Every step has been attempted whatever the steps
/// before it did, so every outcome is here. The closing went well where
/// every step did, and else it failed as the first step that failed.
pub fn finish_outcome(outcomes: &[Result<(), Error>]) -> (r: Result<(), Error>)
    ensures
        match r {
            Ok(_) => forall|at: int| 0 <= at < outcomes@.len() ==> (#[trigger] outcomes@[at]) is Ok,
            Err(e) => exists|at: int|
                #[trigger] is_first_failure(outcomes@, at) && outcomes@[at] == Err::<(), Error>(e),
        },
{
    let n = outcomes.len();
    let mut i: usize = 0;
    while i < n
        invariant
            i <= n,
            n == outcomes@.len(),
            forall|before: int| 0 <= before < i ==> (#[trigger] outcomes@[before]) is Ok,
        decreases n - i,
    {
        match outcomes[i] {
            Ok(_) => {},
            Err(e) => {
                assert(is_first_failure(outcomes@, i as int));
                return Err(e);
            },
        }
        i += 1;
    }
    Ok(())
}

} // verus!
