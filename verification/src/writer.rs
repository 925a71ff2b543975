//! The recording session: what happens to each frame that the host
//! delivers, from the call that begins a recording to the one that ends it.

use crate::audio::{
    full_frames, leftover, padded_frame, views, AudioFramer, SpeakerMode, OPUS_FRAME_SIZE,
    OPUS_SAMPLE_RATE, STEREO_CHANNELS,
};
use crate::conversion::{frame_to_pts, spec_frame_to_pts};
use crate::settings::EncoderConfig;
use crate::text::same_text;
use crate::timing::{spec_rescale, Rational};
use crate::{Error, Status};
use vstd::prelude::*;

verus! {

/// Where a session stands in its life.
#[derive(Clone, Copy, Debug, PartialEq, Eq, Structural)]
pub enum SessionState {
    /// No recording has begun.
    Idle,
    /// A recording has begun and waits for its first frame, whose size the
    /// converter and the encoders are made for. Where making them has
    /// failed, the session stays here and records nothing.
    Configuring,
    /// Frames are encoded as they come.
    Recording,
    /// The recording has ended and the encoders are being flushed.
    Finalizing,
    /// The file is complete. Nothing more is accepted.
    Closed,
}

/// What is to be done with a frame that has arrived.
#[derive(Clone, Copy, Debug, PartialEq, Eq, Structural)]
pub enum FrameStep {
    /// Nothing: the frame is turned away and the host is told why.
    Reject(Status),
    /// The converter, the encoders and the container are to be made for
    /// frames of this size, and the outcome reported with
    /// [`SorkinWriter::construction_finished`].
    Construct { width: u32, height: u32 },
    /// The frame is to be converted and encoded with this timestamp, and the
    /// outcome reported with [`SorkinWriter::frame_encoded`].
    Encode { pts: i64 },
}

/// What is to be done when the host ends the recording.
#[derive(Debug)]
pub enum EndStep {
    /// Nothing: no recording is under way.
    Nothing,
    /// The last audio frame, if there is one, is to be encoded; then the
    /// converter is released, the encoders are flushed, the video encoder
    /// first, and the trailer is written. When that is done
    /// [`SorkinWriter::finalized`] is called.
    Finalize { final_audio: Option<Vec<i32>> },
}

/// The number of samples of one audio frame, all channels together.
pub const AUDIO_FRAME_LEN: usize = OPUS_FRAME_SIZE * (STEREO_CHANNELS as usize);

/// The extension of the files that the writer takes.
pub open spec fn is_webm(extension: Option<Seq<char>>) -> bool {
    extension == Some("webm"@)
}

/// Whether a file with this extension is one that the writer takes: it is
/// where the extension is `webm`, in lower case.
pub fn is_webm_extension(extension: Option<&str>) -> (r: bool)
    ensures
        r == is_webm(
            match extension {
                Some(text) => Some(text@),
                None => None,
            },
        ),
{
    match extension {
        Some(text) => same_text(text, "webm"),
        None => false,
    }
}

/// The characters of `path` that follow the place `dot`, `len` of them.
pub open spec fn behind(path: Seq<char>, dot: int, len: int) -> Seq<char> {
    path.subrange(dot + 1, dot + 1 + len)
}

/// Whether `extension` stands in `path` at the place `dot` as an extension
/// does: behind a dot that is not the first character of its name, so that
/// a character other than `/` comes before it.
pub open spec fn stands_at(path: Seq<char>, extension: Seq<char>, dot: int) -> bool {
    &&& 1 <= dot
    &&& dot + 1 + extension.len() <= path.len()
    &&& path[dot] == '.'
    &&& path[dot - 1] != '/'
    &&& behind(path, dot, extension.len() as int) == extension
}

/// Whether `extension` can be the extension of `path`: it holds no dot, and
/// it stands somewhere in the path as [`stands_at`] says.
pub open spec fn stands_as_extension(path: Seq<char>, extension: Seq<char>) -> bool {
    &&& !extension.contains('.')
    &&& exists|dot: int| #[trigger] stands_at(path, extension, dot)
}

/// Whether a path is one bare name: it holds none of the characters that
/// part the components of a path, or set a drive or a scheme before them,
/// on one platform or another.
pub open spec fn is_bare_name(path: Seq<char>) -> bool {
    !path.contains('/') && !path.contains('\\') && !path.contains(':')
}

/// Whether `extension` is the extension of the file name `name`: the name
/// is not `..`, the extension is what follows the last dot of the name, and
/// that dot is not the first character of the name.
pub open spec fn is_extension_of_name(name: Seq<char>, extension: Seq<char>) -> bool {
    &&& name != seq!['.', '.']
    &&& !extension.contains('.')
    &&& name.len() >= extension.len() + 2
    &&& name[name.len() - extension.len() - 1] == '.'
    &&& name.skip(name.len() - extension.len()) == extension
}

/// A name has one extension at most.
pub proof fn lemma_one_extension(name: Seq<char>, first: Seq<char>, second: Seq<char>)
    requires
        is_extension_of_name(name, first),
        is_extension_of_name(name, second),
    ensures
        first == second,
{
    let len = name.len() as int;
    if first.len() < second.len() {
        let at = (len - first.len() - 1) - (len - second.len());
        assert(second[at] == name[len - first.len() - 1]);
        assert(second.contains('.'));
    } else if second.len() < first.len() {
        let at = (len - second.len() - 1) - (len - first.len());
        assert(first[at] == name[len - second.len() - 1]);
        assert(first.contains('.'));
    }
}

/// The extension of a path as `std::path::Path::extension` finds it, as
/// text.
///
/// That function gives what follows the last dot of the path's final
/// component, and nothing where the component has no dot or none but a
/// leading one, or where the path ends in `..`. Which characters besides
/// `/` part the components is the platform's matter. So two things are
/// claimed, and no more. An extension that is found holds no dot, and it
/// stands in the path behind a dot before which a character of the same
/// component comes. And a path that is one bare name is its own final
/// component on every platform, so that its extension is that of the name.
#[verifier::external_body]
fn path_extension(path: &str) -> (extension: Option<String>)
    ensures
        extension matches Some(text) ==> stands_as_extension(path@, text@),
        is_bare_name(path@) ==> match extension {
            Some(text) => is_extension_of_name(path@, text@),
            None => forall|other: Seq<char>| !#[trigger] is_extension_of_name(path@, other),
        },
{
    match std::path::Path::new(path).extension() {
        Some(extension) => Some(extension.to_string_lossy().into_owned()),
        None => None,
    }
}

/// One recording, from the call that begins it to the end of its file.
#[derive(Debug)]
pub struct SorkinWriter {
    state: SessionState,
    frame_count: i64,
    fps: u32,
    ticks_per_second: i32,
    movie_size: (i32, i32),
    output_path: Option<String>,
    config: EncoderConfig,
    audio_buffer: AudioFramer<i32>,
    audio_samples_per_video_frame: usize,
    construction_failed: bool,
}

impl SorkinWriter {
    /// Where the session stands in its life.
    pub closed spec fn spec_state(&self) -> SessionState {
        self.state
    }

    /// The number of frames encoded so far, which is the index of the next.
    pub closed spec fn spec_frame_count(&self) -> i64 {
        self.frame_count
    }

    /// The frames per second of the recording.
    pub closed spec fn spec_fps(&self) -> u32 {
        self.fps
    }

    /// The ticks per second of the video encoder's time base, once the
    /// encoder is made.
    pub closed spec fn spec_ticks_per_second(&self) -> i32 {
        self.ticks_per_second
    }

    /// The size that the host named when the recording began.
    pub closed spec fn spec_movie_size(&self) -> (i32, i32) {
        self.movie_size
    }

    /// The file that the recording goes to, once one has begun.
    pub closed spec fn spec_output_path(&self) -> Option<Seq<char>> {
        match self.output_path {
            Some(path) => Some(path@),
            None => None,
        }
    }

    /// What the host has configured.
    pub closed spec fn spec_config(&self) -> EncoderConfig {
        self.config
    }

    /// The audio samples that wait for a frame to be full, oldest first.
    pub closed spec fn audio_buffer(&self) -> Seq<i32> {
        self.audio_buffer@.queue
    }

    /// The number of samples, all channels together, that the host hands
    /// over with each frame.
    pub closed spec fn spec_audio_samples_per_video_frame(&self) -> usize {
        self.audio_samples_per_video_frame
    }

    /// Whether making the converter and the encoders has failed.
    pub closed spec fn spec_construction_failed(&self) -> bool {
        self.construction_failed
    }

    /// Less than one audio frame waits, and no frame has a negative index.
    pub closed spec fn wf(&self) -> bool {
        &&& self.audio_buffer@.frame_len == AUDIO_FRAME_LEN
        &&& self.audio_buffer@.queue.len() < AUDIO_FRAME_LEN
        &&& self.frame_count >= 0
    }

    /// A session in which no recording has begun.
    pub fn init(config: EncoderConfig) -> (writer: Self)
        ensures
            writer.wf(),
            writer.spec_state() == SessionState::Idle,
            writer.spec_frame_count() == 0,
            writer.spec_fps() == 30,
            writer.spec_output_path() is None,
            writer.spec_config() == config,
            writer.audio_buffer().len() == 0,
            writer.spec_audio_samples_per_video_frame() == 0,
            !writer.spec_construction_failed(),
    {
        let audio_buffer = AudioFramer::with_frame_len(AUDIO_FRAME_LEN);
        Self {
            state: SessionState::Idle,
            frame_count: 0,
            fps: 30,
            ticks_per_second: 0,
            movie_size: (0, 0),
            output_path: None,
            config,
            audio_buffer,
            audio_samples_per_video_frame: 0,
            construction_failed: false,
        }
    }

    /// Where the session stands in its life.
    #[verifier::when_used_as_spec(spec_state)]
    pub fn state(&self) -> (state: SessionState)
        ensures
            state == self.spec_state(),
    {
        self.state
    }

    /// The number of frames encoded so far.
    #[verifier::when_used_as_spec(spec_frame_count)]
    pub fn frame_count(&self) -> (count: i64)
        ensures
            count == self.spec_frame_count(),
    {
        self.frame_count
    }

    /// The frames per second of the recording.
    #[verifier::when_used_as_spec(spec_fps)]
    pub fn fps(&self) -> (fps: u32)
        ensures
            fps == self.spec_fps(),
    {
        self.fps
    }

    /// What the host has configured.
    #[verifier::when_used_as_spec(spec_config)]
    pub fn config(&self) -> (config: EncoderConfig)
        ensures
            config == self.spec_config(),
    {
        self.config
    }

    /// The size that the host named when the recording began. The frames
    /// need not have it.
    #[verifier::when_used_as_spec(spec_movie_size)]
    pub fn movie_size(&self) -> (size: (i32, i32))
        ensures
            size == self.spec_movie_size(),
    {
        self.movie_size
    }

    /// The file that the recording goes to, once one has begun.
    pub fn output_path(&self) -> (path: Option<&String>)
        ensures
            self.spec_output_path() == (match path {
                Some(text) => Some(text@),
                None => None,
            }),
    {
        self.output_path.as_ref()
    }

    /// The number of samples, all channels together, that the host hands
    /// over with each frame.
    #[verifier::when_used_as_spec(spec_audio_samples_per_video_frame)]
    pub fn audio_samples_per_video_frame(&self) -> (samples: usize)
        ensures
            samples == self.spec_audio_samples_per_video_frame(),
    {
        self.audio_samples_per_video_frame
    }

    /// Whether making the converter and the encoders has failed. Such a
    /// session records nothing.
    #[verifier::when_used_as_spec(spec_construction_failed)]
    pub fn construction_failed(&self) -> (failed: bool)
        ensures
            failed == self.spec_construction_failed(),
    {
        self.construction_failed
    }

    /// The number of audio samples that wait for a frame to be full.
    pub fn buffered_samples(&self) -> (samples: usize)
        ensures
            samples == self.audio_buffer().len(),
    {
        self.audio_buffer.len()
    }

    /// Whether the writer takes the file: it does where the extension that
    /// the platform finds in the path is `webm`.
    ///
    /// A path that is one bare name is taken exactly where `webm` is the
    /// extension of the name. Of any other path the platform says which
    /// component is the last, so it is not said here when such a file is
    /// taken; one that is taken has `.webm` in its path, behind a character
    /// of the same component.
    pub fn handles_file(&self, path: &str) -> (r: bool)
        ensures
            r ==> stands_as_extension(path@, "webm"@),
            is_bare_name(path@) ==> r == is_extension_of_name(path@, "webm"@),
    {
        match path_extension(path) {
            Some(text) => {
                proof {
                    if is_bare_name(path@) && is_extension_of_name(path@, "webm"@) {
                        lemma_one_extension(path@, text@, "webm"@);
                    }
                }
                is_webm_extension(Some(text.as_str()))
            },
            None => is_webm_extension(None),
        }
    }

    /// The rate at which the host is to mix its audio: 48 kHz where audio
    /// is enabled, and 0, which is no audio, where it is not.
    pub fn get_audio_mix_rate(&self) -> (rate: u32)
        ensures
            rate == (if self.spec_config().enable_audio {
                OPUS_SAMPLE_RATE
            } else {
                0
            }),
    {
        if self.config.enable_audio {
            OPUS_SAMPLE_RATE
        } else {
            0
        }
    }

    /// The speaker mode in which the host is to mix its audio: stereo.
    pub fn get_audio_speaker_mode(&self) -> (mode: SpeakerMode)
        ensures
            mode == SpeakerMode::Stereo,
    {
        SpeakerMode::Stereo
    }

    /// The number of samples per frame at a mix rate and a frame rate, for
    /// two channels.
    pub open spec fn samples_per_frame(mix_rate: u32, fps: u32) -> int {
        if mix_rate > 0 {
            (mix_rate / fps) * STEREO_CHANNELS
        } else {
            0
        }
    }

    /// Begins a recording: takes note of the frame rate, of the size that
    /// the host names and of the file, and waits for the first frame.
    /// Neither a codec nor the device is touched yet.
    ///
    /// Only an idle session begins a recording. Any other is left as it is
    /// and answers `Unconfigured`.
    pub fn write_begin(&mut self, movie_size: (i32, i32), fps: u32, path: String) -> (status: Status)
        requires
            old(self).wf(),
            old(self).spec_config().enable_audio ==> fps > 0,
        ensures
            final(self).wf(),
            final(self).spec_config() == old(self).spec_config(),
            old(self).spec_state() == SessionState::Idle ==> {
                &&& status == Status::Okay
                &&& final(self).spec_state() == SessionState::Configuring
                &&& final(self).spec_frame_count() == 0
                &&& final(self).spec_fps() == fps
                &&& final(self).spec_movie_size() == movie_size
                &&& final(self).spec_output_path() == Some(path@)
                &&& final(self).audio_buffer().len() == 0
                &&& !final(self).spec_construction_failed()
                &&& final(self).spec_audio_samples_per_video_frame() == Self::samples_per_frame(
                    if old(self).spec_config().enable_audio {
                        OPUS_SAMPLE_RATE
                    } else {
                        0
                    },
                    fps,
                )
            },
            old(self).spec_state() != SessionState::Idle ==> {
                &&& status == Status::Unconfigured
                &&& final(self).same_as(*old(self))
            },
    {
        if self.state != SessionState::Idle {
            return Status::Unconfigured;
        }
        self.fps = fps;
        self.frame_count = 0;
        self.movie_size = movie_size;
        self.output_path = Some(path);
        let audio_mix_rate = self.get_audio_mix_rate();
        if audio_mix_rate > 0 {
            let per_channel = (audio_mix_rate / fps) as usize;
            assert(per_channel * STEREO_CHANNELS <= 96_000) by (nonlinear_arith)
                requires
                    per_channel <= 48_000,
                    STEREO_CHANNELS == 2,
            ;
            self.audio_samples_per_video_frame = per_channel * STEREO_CHANNELS as usize;
        } else {
            self.audio_samples_per_video_frame = 0;
        }
        self.audio_buffer = AudioFramer::with_frame_len(AUDIO_FRAME_LEN);
        self.construction_failed = false;
        self.state = SessionState::Configuring;
        Status::Okay
    }

    /// Nothing that a caller can see differs between the two sessions.
    pub open spec fn same_as(&self, other: Self) -> bool {
        &&& self.spec_state() == other.spec_state()
        &&& self.spec_frame_count() == other.spec_frame_count()
        &&& self.spec_fps() == other.spec_fps()
        &&& self.spec_ticks_per_second() == other.spec_ticks_per_second()
        &&& self.spec_movie_size() == other.spec_movie_size()
        &&& self.spec_output_path() == other.spec_output_path()
        &&& self.spec_config() == other.spec_config()
        &&& self.audio_buffer() == other.audio_buffer()
        &&& self.spec_audio_samples_per_video_frame() == other.spec_audio_samples_per_video_frame()
        &&& self.spec_construction_failed() == other.spec_construction_failed()
    }

    /// The timestamp of the frame that comes next: its index over the frame
    /// rate, in ticks of the video encoder's time base.
    pub open spec fn next_pts(&self) -> i64 {
        spec_frame_to_pts(
            self.spec_frame_count(),
            self.spec_fps() as i64,
            self.spec_ticks_per_second() as i64,
        )
    }

    /// What is to be done with a frame of the given size.
    pub open spec fn spec_frame_arrived(&self, width: u32, height: u32) -> FrameStep {
        match self.spec_state() {
            SessionState::Configuring => if self.spec_construction_failed() {
                FrameStep::Reject(Status::CantCreate)
            } else {
                FrameStep::Construct { width, height }
            },
            SessionState::Recording => FrameStep::Encode { pts: self.next_pts() },
            _ => FrameStep::Reject(Status::Unconfigured),
        }
    }

    /// Says what is to be done with a frame that the host has delivered.
    ///
    /// The first frame of a recording has the converter and the encoders
    /// made, for its own size and not for the size that the host named.
    /// Every later frame is encoded. Where making them has failed it is not
    /// tried again: every frame is turned away as `CantCreate`. A frame
    /// that comes before a recording has begun or after it has ended is
    /// turned away as `Unconfigured`. The session itself does not change.
    pub fn frame_arrived(&self, width: u32, height: u32) -> (step: FrameStep)
        ensures
            step == self.spec_frame_arrived(width, height),
    {
        match self.state {
            SessionState::Configuring => if self.construction_failed {
                FrameStep::Reject(Status::CantCreate)
            } else {
                FrameStep::Construct { width, height }
            },
            SessionState::Recording => FrameStep::Encode {
                pts: frame_to_pts(self.frame_count, self.fps as i64, self.ticks_per_second as i64),
            },
            _ => FrameStep::Reject(Status::Unconfigured),
        }
    }

    /// Takes note of how the construction went that
    /// [`SorkinWriter::frame_arrived`] asked for.
    ///
    /// Where it went well, `outcome` holds the video encoder's time base;
    /// the session records from here on, and the frame that set the
    /// construction off is to be encoded. Where it failed the host is told
    /// `CantCreate`, whatever the failure was, and the session takes note
    /// that it cannot record to this file. A session that was not waiting
    /// for a construction answers `Unconfigured` and is left as it is.
    pub fn construction_finished(&mut self, outcome: Result<Rational, Error>) -> (step: FrameStep)
        requires
            old(self).wf(),
        ensures
            final(self).wf(),
            final(self).spec_frame_count() == old(self).spec_frame_count(),
            final(self).spec_fps() == old(self).spec_fps(),
            final(self).spec_movie_size() == old(self).spec_movie_size(),
            final(self).spec_output_path() == old(self).spec_output_path(),
            final(self).spec_config() == old(self).spec_config(),
            final(self).audio_buffer() == old(self).audio_buffer(),
            final(self).spec_audio_samples_per_video_frame() == old(
                self,
            ).spec_audio_samples_per_video_frame(),
            if old(self).awaits_construction() {
                match outcome {
                    Ok(time_base) => {
                        &&& final(self).spec_state() == SessionState::Recording
                        &&& final(self).spec_ticks_per_second() == time_base.den
                        &&& !final(self).spec_construction_failed()
                        &&& step == (FrameStep::Encode { pts: final(self).next_pts() })
                    },
                    Err(_) => {
                        &&& final(self).spec_state() == SessionState::Configuring
                        &&& final(self).spec_ticks_per_second() == old(self).spec_ticks_per_second()
                        &&& final(self).spec_construction_failed()
                        &&& step == FrameStep::Reject(Status::CantCreate)
                    },
                }
            } else {
                &&& step == FrameStep::Reject(Status::Unconfigured)
                &&& final(self).same_as(*old(self))
            },
    {
        if self.state != SessionState::Configuring || self.construction_failed {
            return FrameStep::Reject(Status::Unconfigured);
        }
        match outcome {
            Ok(time_base) => {
                self.ticks_per_second = time_base.den;
                self.state = SessionState::Recording;
                FrameStep::Encode {
                    pts: frame_to_pts(
                        self.frame_count,
                        self.fps as i64,
                        self.ticks_per_second as i64,
                    ),
                }
            },
            Err(_) => {
                self.construction_failed = true;
                FrameStep::Reject(Status::CantCreate)
            },
        }
    }

    /// Whether the session waits for the converter and the encoders to be
    /// made: a recording has begun, no frame has been encoded, and making
    /// them has not failed.
    pub open spec fn awaits_construction(&self) -> bool {
        self.spec_state() == SessionState::Configuring && !self.spec_construction_failed()
    }

    /// The audio that a frame brings: the block that the host handed over,
    /// where there is one and audio is enabled, and nothing otherwise.
    pub open spec fn taken(&self, audio: Option<&[i32]>) -> Seq<i32> {
        match audio {
            Some(block) if self.spec_config().enable_audio => block@,
            _ => Seq::empty(),
        }
    }

    /// Takes note of how the conversion and the encoding of a frame went
    /// and hands out the audio frames that are to be encoded behind it.
    ///
    /// Where the frame was encoded it is counted, the audio that came with
    /// it is queued, and every audio frame that is now complete is handed
    /// out, oldest first; less than one frame stays queued. The packets of
    /// the video frame are written before these audio frames are encoded.
    /// Where the frame failed the host is told what kind of failure it was;
    /// the frame is not counted and its audio is not taken. A session that
    /// is not recording answers `Unconfigured`. Either refusal leaves the
    /// session as it is.
    pub fn frame_encoded(&mut self, outcome: Result<(), Error>, audio: Option<&[i32]>) -> (r: (
        Status,
        Vec<Vec<i32>>,
    ))
        requires
            old(self).wf(),
        ensures
            final(self).wf(),
            match (old(self).spec_state(), outcome) {
                (SessionState::Recording, Ok(_)) => {
                    &&& r.0 == Status::Okay
                    &&& views(r.1@) == full_frames(
                        old(self).audio_buffer() + old(self).taken(audio),
                        AUDIO_FRAME_LEN as nat,
                    )
                    &&& final(self).audio_buffer() == leftover(
                        old(self).audio_buffer() + old(self).taken(audio),
                        AUDIO_FRAME_LEN as nat,
                    )
                    &&& final(self).spec_frame_count() == (if old(self).spec_frame_count()
                        < i64::MAX {
                        old(self).spec_frame_count() + 1
                    } else {
                        old(self).spec_frame_count() as int
                    })
                    &&& final(self).spec_state() == SessionState::Recording
                    &&& final(self).spec_fps() == old(self).spec_fps()
                    &&& final(self).spec_ticks_per_second() == old(self).spec_ticks_per_second()
                    &&& final(self).spec_movie_size() == old(self).spec_movie_size()
                    &&& final(self).spec_output_path() == old(self).spec_output_path()
                    &&& final(self).spec_config() == old(self).spec_config()
                    &&& final(self).spec_audio_samples_per_video_frame() == old(
                        self,
                    ).spec_audio_samples_per_video_frame()
                    &&& final(self).spec_construction_failed() == old(
                        self,
                    ).spec_construction_failed()
                },
                (SessionState::Recording, Err(e)) => {
                    &&& r.0 == e.spec_status()
                    &&& r.1@.len() == 0
                    &&& final(self).same_as(*old(self))
                },
                _ => {
                    &&& r.0 == Status::Unconfigured
                    &&& r.1@.len() == 0
                    &&& final(self).same_as(*old(self))
                },
            },
    {
        if self.state != SessionState::Recording {
            return (Status::Unconfigured, Vec::new());
        }
        match outcome {
            Ok(_) => {},
            Err(e) => {
                return (e.status(), Vec::new());
            },
        }
        match audio {
            Some(block) if self.config.enable_audio => {
                self.audio_buffer.push(block);
            },
            _ => {
            },
        }
        let frames = self.audio_buffer.pop_frames();
        if self.frame_count < i64::MAX {
            self.frame_count += 1;
        }
        (Status::Okay, frames)
    }

    /// Ends the recording.
    ///
    /// A session that records goes on to finalizing; where audio is enabled
    /// and samples still wait, they are handed out as one last frame,
    /// filled up with silence. For any other session the call does nothing
    /// and leaves the session as it is: ending twice is harmless, and a
    /// session that still waits for its first frame goes on waiting.
    pub fn write_end(&mut self) -> (step: EndStep)
        requires
            old(self).wf(),
        ensures
            final(self).wf(),
            final(self).spec_frame_count() == old(self).spec_frame_count(),
            final(self).spec_fps() == old(self).spec_fps(),
            final(self).spec_ticks_per_second() == old(self).spec_ticks_per_second(),
            final(self).spec_movie_size() == old(self).spec_movie_size(),
            final(self).spec_output_path() == old(self).spec_output_path(),
            final(self).spec_config() == old(self).spec_config(),
            final(self).spec_audio_samples_per_video_frame() == old(
                self,
            ).spec_audio_samples_per_video_frame(),
            final(self).spec_construction_failed() == old(self).spec_construction_failed(),
            match old(self).spec_state() {
                SessionState::Recording => {
                    &&& final(self).spec_state() == SessionState::Finalizing
                    &&& step is Finalize
                    &&& if old(self).spec_config().enable_audio && old(self).audio_buffer().len()
                        > 0 {
                        &&& step->final_audio matches Some(frame)
                        &&& frame@ == padded_frame(
                            old(self).audio_buffer(),
                            AUDIO_FRAME_LEN as nat,
                            0i32,
                        )
                        &&& final(self).audio_buffer().len() == 0
                    } else {
                        &&& step->final_audio is None
                        &&& final(self).audio_buffer() == old(self).audio_buffer()
                    }
                },
                _ => {
                    &&& step is Nothing
                    &&& final(self).same_as(*old(self))
                },
            },
    {
        match self.state {
            SessionState::Recording => {
                self.state = SessionState::Finalizing;
                let final_audio = if self.config.enable_audio {
                    self.audio_buffer.drain_final(0)
                } else {
                    None
                };
                EndStep::Finalize { final_audio }
            },
            _ => EndStep::Nothing,
        }
    }

    /// Takes note that the encoders are flushed, the trailer is written and
    /// the converter's resources are released: a finalizing session is
    /// closed. For any other session the call does nothing.
    pub fn finalized(&mut self)
        requires
            old(self).wf(),
        ensures
            final(self).wf(),
            final(self).spec_state() == (if old(self).spec_state() == SessionState::Finalizing {
                SessionState::Closed
            } else {
                old(self).spec_state()
            }),
            final(self).spec_frame_count() == old(self).spec_frame_count(),
            final(self).spec_fps() == old(self).spec_fps(),
            final(self).spec_ticks_per_second() == old(self).spec_ticks_per_second(),
            final(self).spec_movie_size() == old(self).spec_movie_size(),
            final(self).spec_output_path() == old(self).spec_output_path(),
            final(self).spec_config() == old(self).spec_config(),
            final(self).audio_buffer() == old(self).audio_buffer(),
            final(self).spec_audio_samples_per_video_frame() == old(
                self,
            ).spec_audio_samples_per_video_frame(),
            final(self).spec_construction_failed() == old(self).spec_construction_failed(),
    {
        if self.state == SessionState::Finalizing {
            self.state = SessionState::Closed;
        }
    }
}

/// The timestamps of a recording's video frames never fall: a session that
/// has counted more frames, at the same positive frame rate and in the same
/// time base, stamps its next frame no earlier.
pub proof fn lemma_video_pts_monotonic(earlier: SorkinWriter, later: SorkinWriter)
    requires
        earlier.spec_frame_count() <= later.spec_frame_count(),
        earlier.spec_fps() == later.spec_fps(),
        earlier.spec_ticks_per_second() == later.spec_ticks_per_second(),
        earlier.spec_fps() > 0,
        earlier.spec_ticks_per_second() >= 0,
    ensures
        earlier.next_pts() <= later.next_pts(),
{
    crate::conversion::lemma_frame_to_pts_monotonic(
        earlier.spec_frame_count(),
        later.spec_frame_count(),
        earlier.spec_fps() as i64,
        earlier.spec_ticks_per_second() as i64,
    );
}

/// The timestamp with which the video frame of an index is written: its
/// index over the frame rate in ticks of the encoder's time base, moved
/// into the time base of the stream.
pub open spec fn written_video_pts(index: i64, fps: u32, encoder: Rational, stream: Rational) -> Option<i64> {
    spec_rescale(spec_frame_to_pts(index, fps as i64, encoder.den as i64), encoder, stream)
}

/// The timestamp with which the audio frame of an index is written: the
/// samples before it, moved into the time base of the stream.
pub open spec fn written_audio_pts(index: u64, frame_size: usize, encoder: Rational, stream: Rational) -> Option<i64>
    recommends
        index * frame_size <= i64::MAX,
{
    spec_rescale((index * frame_size) as i64, encoder, stream)
}

/// Of the video frames of a recording the later one is never written with
/// the earlier timestamp, whatever the positive frame rate and the time
/// bases of the encoder and of the stream.
pub proof fn lemma_written_video_pts_monotonic(
    earlier: i64,
    later: i64,
    fps: u32,
    encoder: Rational,
    stream: Rational,
)
    requires
        0 <= earlier <= later,
        fps > 0,
    ensures
        written_video_pts(earlier, fps, encoder, stream) matches Some(first) ==> (written_video_pts(
            later,
            fps,
            encoder,
            stream,
        ) matches Some(second) ==> first <= second),
{
    if encoder.is_positive() {
        crate::conversion::lemma_frame_to_pts_monotonic(
            earlier,
            later,
            fps as i64,
            encoder.den as i64,
        );
        crate::timing::lemma_rescale_keeps_order(
            spec_frame_to_pts(earlier, fps as i64, encoder.den as i64),
            spec_frame_to_pts(later, fps as i64, encoder.den as i64),
            encoder,
            stream,
        );
    }
}

/// Of the audio frames of a recording the later one is never written with
/// the earlier timestamp, whatever the frame size and the time bases of the
/// encoder and of the stream.
pub proof fn lemma_written_audio_pts_monotonic(
    earlier: u64,
    later: u64,
    frame_size: usize,
    encoder: Rational,
    stream: Rational,
)
    requires
        earlier <= later,
        later * frame_size <= i64::MAX,
    ensures
        written_audio_pts(earlier, frame_size, encoder, stream) matches Some(first) ==> (
        written_audio_pts(later, frame_size, encoder, stream) matches Some(second) ==> first
            <= second),
{
    assert(0 <= earlier * frame_size <= later * frame_size) by (nonlinear_arith)
        requires
            0 <= earlier <= later,
            frame_size >= 0,
    ;
    crate::timing::lemma_rescale_keeps_order(
        (earlier * frame_size) as i64,
        (later * frame_size) as i64,
        encoder,
        stream,
    );
}

} // verus!
