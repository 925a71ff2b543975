//! Audio: cutting a stream of samples into codec frames, and the
//! bookkeeping of the audio encoder.

use crate::settings::{EncoderConfig, Quality};
use crate::timing::Rational;
use crate::{EncodingFailure, Error, StateFailure};
use vstd::prelude::*;

verus! {

/// The sample rate at which the audio codec works.
pub const OPUS_SAMPLE_RATE: u32 = 48_000;

/// The samples per channel of one codec frame at that rate: 20 ms.
pub const OPUS_FRAME_SIZE: usize = 960;

/// The number of channels that the host is asked to mix.
pub const STEREO_CHANNELS: u16 = 2;

/// The complete frames of `n` samples that a stream holds, in order.
pub open spec fn full_frames<T>(stream: Seq<T>, n: nat) -> Seq<Seq<T>>
    recommends
        n > 0,
{
    Seq::new(stream.len() / n, |i: int| stream.subrange(i * n, i * n + n))
}

/// What is left of a stream behind its last complete frame.
pub open spec fn leftover<T>(stream: Seq<T>, n: nat) -> Seq<T>
    recommends
        n > 0,
{
    stream.skip((stream.len() / n) * n as int)
}

/// The blocks of a stream joined in their order.
pub open spec fn flatten<T>(blocks: Seq<Seq<T>>) -> Seq<T>
    decreases blocks.len(),
{
    if blocks.len() == 0 {
        Seq::empty()
    } else {
        flatten(blocks.drop_last()) + blocks.last()
    }
}

/// The samples of a sequence of frames, each frame seen as a sequence.
pub open spec fn views<T>(frames: Seq<Vec<T>>) -> Seq<Seq<T>> {
    Seq::new(frames.len(), |i: int| frames[i]@)
}

/// A stream's first `n` samples; where it is shorter, all of it followed by
/// as many copies of `padding` as are missing.
pub open spec fn padded_frame<T>(stream: Seq<T>, n: nat, padding: T) -> Seq<T> {
    Seq::new(
        n,
        |i: int|
            if i < stream.len() {
                stream[i]
            } else {
                padding
            },
    )
}

/// A queue of interleaved samples that gives them back in frames of a fixed
/// length.
#[derive(Debug)]
pub struct AudioFramer<T> {
    frame_len: usize,
    queue: Vec<T>,
}

/// What a framer holds.
pub struct FramerView<T> {
    /// The number of samples in one frame, all channels together.
    pub frame_len: nat,
    /// The queued samples, oldest first.
    pub queue: Seq<T>,
}

impl<T> View for AudioFramer<T> {
    type V = FramerView<T>;

    closed spec fn view(&self) -> FramerView<T> {
        FramerView { frame_len: self.frame_len as nat, queue: self.queue@ }
    }
}

impl<T> AudioFramer<T> {
    /// A frame holds at least one sample.
    pub open spec fn wf(&self) -> bool {
        self@.frame_len > 0
    }

    /// A framer for frames of `frame_size` samples per channel, or nothing
    /// where a frame would hold no sample or more than `usize` can count.
    pub fn new(frame_size: usize, channels: usize) -> (framer: Option<Self>)
        ensures
            framer is Some <==> 0 < frame_size * channels <= usize::MAX,
            framer matches Some(f) ==> f.wf() && f@.frame_len == frame_size * channels
                && f@.queue.len() == 0,
    {
        match frame_size.checked_mul(channels) {
            Some(frame_len) => {
                if frame_len == 0 {
                    None
                } else {
                    Some(AudioFramer { frame_len, queue: Vec::new() })
                }
            },
            None => None,
        }
    }

    /// A framer for frames of `frame_len` samples, all channels together.
    pub(crate) fn with_frame_len(frame_len: usize) -> (framer: Self)
        requires
            frame_len > 0,
        ensures
            framer.wf(),
            framer@.frame_len == frame_len,
            framer@.queue.len() == 0,
    {
        AudioFramer { frame_len, queue: Vec::new() }
    }

    /// The number of samples in one frame, all channels together.
    pub fn frame_len(&self) -> (n: usize)
        ensures
            n == self@.frame_len,
    {
        self.frame_len
    }

    /// The number of queued samples.
    pub fn len(&self) -> (n: usize)
        ensures
            n == self@.queue.len(),
    {
        self.queue.len()
    }

    /// Appends a block of samples behind those already queued.
    pub fn push(&mut self, samples: &[T]) where T: Copy
        ensures
            final(self)@.queue == old(self)@.queue + samples@,
            final(self)@.frame_len == old(self)@.frame_len,
    {
        let n = samples.len();
        let mut i: usize = 0;
        while i < n
            invariant
                i <= n,
                n == samples@.len(),
                self.frame_len == old(self).frame_len,
                self.queue@ == old(self).queue@ + samples@.subrange(0, i as int),
            decreases n - i,
        {
            self.queue.push(samples[i]);
            i += 1;
        }
        assert(samples@.subrange(0, n as int) == samples@);
    }

    /// Takes the oldest frame out of the queue, if a whole frame is queued.
    pub fn pop_frame(&mut self) -> (frame: Option<Vec<T>>)
        ensures
            final(self)@.frame_len == old(self)@.frame_len,
            old(self)@.queue.len() >= old(self)@.frame_len ==> {
                &&& frame matches Some(f)
                &&& f@ == old(self)@.queue.take(old(self)@.frame_len as int)
                &&& final(self)@.queue == old(self)@.queue.skip(old(self)@.frame_len as int)
            },
            old(self)@.queue.len() < old(self)@.frame_len ==> frame is None && final(self)@.queue == old(
                self,
            )@.queue,
    {
        if self.queue.len() < self.frame_len {
            return None;
        }
        let mut frame = self.queue.split_off(self.frame_len);
        std::mem::swap(&mut self.queue, &mut frame);
        Some(frame)
    }

    /// Takes every complete frame out of the queue, oldest first. Less than
    /// one frame stays behind.
    pub fn pop_frames(&mut self) -> (frames: Vec<Vec<T>>)
        requires
            old(self).wf(),
        ensures
            final(self)@.frame_len == old(self)@.frame_len,
            views(frames@) == full_frames(old(self)@.queue, old(self)@.frame_len),
            final(self)@.queue == leftover(old(self)@.queue, old(self)@.frame_len),
            final(self)@.queue.len() < old(self)@.frame_len,
    {
        let ghost stream = self@.queue;
        let ghost n = self.frame_len as nat;
        let mut frames: Vec<Vec<T>> = Vec::new();
        proof {
            assert(frames@.len() * n == 0) by (nonlinear_arith)
                requires
                    frames@.len() == 0,
            ;
            assert(stream.skip(0) =~= stream);
        }
        while self.queue.len() >= self.frame_len
            invariant
                self.frame_len == n,
                n > 0,
                frames@.len() * n <= stream.len(),
                self.queue@ == stream.skip((frames@.len() * n) as int),
                forall|j: int|
                    0 <= j < frames@.len() ==> (#[trigger] frames@[j])@ == stream.subrange(
                        j * n,
                        j * n + n,
                    ),
            decreases self.queue@.len(),
        {
            let ghost emitted = frames@.len() as int;
            assert((emitted + 1) * n == emitted * n + n) by (nonlinear_arith);
            match self.pop_frame() {
                Some(frame) => {
                    assert(frame@ == stream.subrange(emitted * n, emitted * n + n));
                    frames.push(frame);
                    assert(self.queue@ == stream.skip((emitted + 1) * n));
                },
                None => {},
            }
        }
        proof {
            let emitted = frames@.len() as int;
            vstd::arithmetic::div_mod::lemma_fundamental_div_mod_converse(
                stream.len() as int,
                n as int,
                emitted,
                stream.len() - emitted * n,
            );
            assert(views(frames@) =~= full_frames(stream, n));
        }
        frames
    }

    /// Takes what is left at the end of the stream: the oldest frame, filled
    /// up with `padding` where less than a frame is queued, or nothing where
    /// nothing is queued.
    pub fn drain_final(&mut self, padding: T) -> (frame: Option<Vec<T>>) where T: Copy
        ensures
            final(self)@.frame_len == old(self)@.frame_len,
            old(self)@.queue.len() == 0 ==> frame is None && final(self)@.queue == old(self)@.queue,
            old(self)@.queue.len() > 0 ==> {
                &&& frame matches Some(f)
                &&& f@ == padded_frame(old(self)@.queue, old(self)@.frame_len, padding)
                &&& final(self)@.queue == old(self)@.queue.skip(
                    if old(self)@.queue.len() < old(self)@.frame_len {
                        old(self)@.queue.len() as int
                    } else {
                        old(self)@.frame_len as int
                    },
                )
            },
    {
        if self.queue.len() == 0 {
            return None;
        }
        if self.queue.len() >= self.frame_len {
            let frame = self.pop_frame();
            assert(frame matches Some(f) && f@ =~= padded_frame(
                old(self)@.queue,
                old(self)@.frame_len,
                padding,
            ));
            return frame;
        }
        let mut frame: Vec<T> = Vec::new();
        std::mem::swap(&mut self.queue, &mut frame);
        let n = self.frame_len;
        while frame.len() < n
            invariant
                old(self)@.queue.len() <= frame@.len() <= n,
                forall|i: int| 0 <= i < old(self)@.queue.len() ==> frame@[i] == old(self)@.queue[i],
                forall|i: int| old(self)@.queue.len() <= i < frame@.len() ==> frame@[i] == padding,
            decreases n - frame@.len(),
        {
            frame.push(padding);
        }
        assert(frame@ =~= padded_frame(old(self)@.queue, n as nat, padding));
        assert(self.queue@ =~= old(self)@.queue.skip(old(self)@.queue.len() as int));
        Some(frame)
    }
}

/// The frames that come out and the samples that stay queued when the
/// blocks are pushed one after the other and every complete frame is taken
/// out after each push.
pub open spec fn framed<T>(blocks: Seq<Seq<T>>, n: nat) -> (Seq<Seq<T>>, Seq<T>)
    decreases blocks.len(),
{
    if blocks.len() == 0 {
        (Seq::empty(), Seq::empty())
    } else {
        let (frames, queue) = framed(blocks.drop_last(), n);
        let stream = queue + blocks.last();
        (frames + full_frames(stream, n), leftover(stream, n))
    }
}

/// The quotient and the remainder of a stream's length by the frame length,
/// as the specs of the frames use them.
pub proof fn lemma_frame_count(len: nat, n: nat)
    requires
        n > 0,
    ensures
        (len / n) * n <= len < (len / n) * n + n,
        len - (len / n) * n == len % n,
{
    vstd::arithmetic::div_mod::lemma_fundamental_div_mod(len as int, n as int);
    vstd::arithmetic::div_mod::lemma_mod_bound(len as int, n as int);
    assert((len / n) * n == n * (len / n)) by (nonlinear_arith);
}

/// Less than one frame is ever left over, and the frames and the leftover
/// together are the stream.
pub proof fn lemma_frames_cover<T>(stream: Seq<T>, n: nat)
    requires
        n > 0,
    ensures
        leftover(stream, n).len() < n,
        leftover(stream, n).len() == stream.len() % n,
        forall|i: int|
            0 <= i < full_frames(stream, n).len() ==> (#[trigger] full_frames(stream, n)[i]).len()
                == n,
        flatten(full_frames(stream, n)) + leftover(stream, n) == stream,
{
    lemma_frame_count(stream.len(), n);
    let frames = full_frames(stream, n);
    assert forall|i: int| 0 <= i < frames.len() implies (#[trigger] frames[i]).len() == n by {
        lemma_frame_bounds(stream.len(), n, i);
    }
    lemma_flatten_frames(stream, n, frames.len());
    assert(frames.take(frames.len() as int) =~= frames);
    assert(stream.take(((stream.len() / n) * n) as int) + leftover(stream, n) =~= stream);
}

/// Frame `i` of a stream lies inside it.
pub proof fn lemma_frame_bounds(len: nat, n: nat, i: int)
    requires
        n > 0,
        0 <= i < len / n,
    ensures
        0 <= i * n,
        i * n + n <= (len / n) * n <= len,
{
    lemma_frame_count(len, n);
    assert(i * n >= 0 && (i + 1) * n <= (len / n) * n) by (nonlinear_arith)
        requires
            0 <= i,
            i + 1 <= len / n,
            n > 0,
    ;
    assert((i + 1) * n == i * n + n) by (nonlinear_arith);
}

/// The first `k` frames of a stream, joined, are its first `k * n` samples.
pub proof fn lemma_flatten_frames<T>(stream: Seq<T>, n: nat, k: nat)
    requires
        n > 0,
        k <= stream.len() / n,
    ensures
        k * n <= stream.len(),
        flatten(full_frames(stream, n).take(k as int)) == stream.take((k * n) as int),
    decreases k,
{
    let frames = full_frames(stream, n);
    lemma_frame_count(stream.len(), n);
    assert(k * n <= (stream.len() / n) * n) by (nonlinear_arith)
        requires
            k <= stream.len() / n,
            n > 0,
    ;
    assert(frames.len() == stream.len() / n);
    let head = frames.take(k as int);
    if k == 0 {
        assert(head.len() == 0);
        assert(0 * n == 0) by (nonlinear_arith);
        assert(stream.take(0) =~= Seq::<T>::empty());
    } else {
        let j = k - 1;
        lemma_flatten_frames(stream, n, j as nat);
        lemma_frame_bounds(stream.len(), n, j);
        assert(k * n == j * n + n) by (nonlinear_arith)
            requires
                k == j + 1,
        ;
        assert(head.len() == k);
        assert(head.drop_last() =~= frames.take(j));
        assert(head.last() == frames[j]);
        assert(frames[j] == stream.subrange(j * n, j * n + n));
        assert(flatten(head) == flatten(head.drop_last()) + head.last());
        assert(stream.take(j * n) + stream.subrange(j * n, j * n + n) =~= stream.take(
            (k * n) as int,
        ));
    }
}

/// Framing a stream that grows: the frames of `a + b` are the frames of `a`
/// followed by the frames of what `a` left over with `b` behind it, and the
/// same is left over either way.
pub proof fn lemma_frames_append<T>(a: Seq<T>, b: Seq<T>, n: nat)
    requires
        n > 0,
    ensures
        full_frames(a + b, n) == full_frames(a, n) + full_frames(leftover(a, n) + b, n),
        leftover(a + b, n) == leftover(leftover(a, n) + b, n),
{
    let k = (a.len() / n) as int;
    let queue = leftover(a, n) + b;
    let m = (queue.len() / n) as int;
    let whole = a + b;
    lemma_frame_count(a.len(), n);
    lemma_frame_count(queue.len(), n);
    assert((k + m) * n == k * n + m * n) by (nonlinear_arith);
    assert(whole.len() == k * n + queue.len());
    vstd::arithmetic::div_mod::lemma_fundamental_div_mod_converse(
        whole.len() as int,
        n as int,
        k + m,
        queue.len() - m * n,
    );
    assert(queue =~= whole.skip(k * n));
    let joined = full_frames(a, n) + full_frames(queue, n);
    assert(full_frames(whole, n).len() == joined.len());
    assert forall|i: int| 0 <= i < joined.len() implies full_frames(whole, n)[i] == joined[i] by {
        if i < k {
            lemma_frame_bounds(a.len(), n, i);
            assert(whole.subrange(i * n, i * n + n) =~= a.subrange(i * n, i * n + n));
        } else {
            let j = i - k;
            lemma_frame_bounds(queue.len(), n, j);
            assert(i * n == k * n + j * n) by (nonlinear_arith)
                requires
                    i == k + j,
            ;
            assert(whole.subrange(i * n, i * n + n) =~= queue.subrange(j * n, j * n + n));
        }
    }
    assert(full_frames(whole, n) =~= joined);
    assert(leftover(whole, n) =~= leftover(queue, n));
}

/// Frames do not depend on how the stream arrives: whatever the blocks in
/// which `N` samples are pushed, taking the complete frames after each push
/// gives the frames of the whole stream, `N / n` of them and each of `n`
/// samples, in the stream's order, and leaves its last `N % n` samples
/// queued, which is at most `n - 1`.
pub proof fn lemma_framing_is_incremental<T>(blocks: Seq<Seq<T>>, n: nat)
    requires
        n > 0,
    ensures
        framed(blocks, n).0 == full_frames(flatten(blocks), n),
        framed(blocks, n).1 == leftover(flatten(blocks), n),
        framed(blocks, n).0.len() == flatten(blocks).len() / n,
        framed(blocks, n).1.len() == flatten(blocks).len() % n,
        framed(blocks, n).1.len() <= n - 1,
        flatten(framed(blocks, n).0) + framed(blocks, n).1 == flatten(blocks),
    decreases blocks.len(),
{
    if blocks.len() == 0 {
        lemma_frame_count(0, n);
        assert(0nat / n == 0) by (nonlinear_arith)
            requires
                n > 0,
                (0nat / n) * n <= 0,
                0 < (0nat / n) * n + n,
        ;
        assert(full_frames(Seq::<T>::empty(), n) =~= Seq::<Seq<T>>::empty());
        assert(leftover(Seq::<T>::empty(), n) =~= Seq::<T>::empty());
    } else {
        lemma_framing_is_incremental(blocks.drop_last(), n);
        lemma_frames_append(flatten(blocks.drop_last()), blocks.last(), n);
    }
    lemma_frames_cover(flatten(blocks), n);
}

/// How the host lays out its speakers.
#[derive(Clone, Copy, Debug, PartialEq, Eq, Structural)]
pub enum SpeakerMode {
    Stereo,
    Surround31,
    Surround51,
    Surround71,
}

impl SpeakerMode {
    /// The number of interleaved channels that the host mixes for the mode.
    pub open spec fn spec_channel_count(self) -> u16 {
        match self {
            SpeakerMode::Stereo => 2,
            SpeakerMode::Surround31 => 4,
            SpeakerMode::Surround51 => 6,
            SpeakerMode::Surround71 => 8,
        }
    }

    /// The number of interleaved channels that the host mixes for the mode.
    pub fn channel_count(&self) -> (channels: u16)
        ensures
            channels == self.spec_channel_count(),
    {
        match self {
            SpeakerMode::Stereo => 2,
            SpeakerMode::Surround31 => 4,
            SpeakerMode::Surround51 => 6,
            SpeakerMode::Surround71 => 8,
        }
    }
}

/// The channel layouts that the audio codec is given.
#[derive(Clone, Copy, Debug, PartialEq, Eq, Structural)]
pub enum ChannelLayout {
    Mono,
    Stereo,
    Quad,
    Surround51,
    Surround71,
}

impl ChannelLayout {
    /// The layout for a number of channels, where there is one.
    pub open spec fn spec_for_channels(channels: u16) -> Option<ChannelLayout> {
        if channels == 1 {
            Some(ChannelLayout::Mono)
        } else if channels == 2 {
            Some(ChannelLayout::Stereo)
        } else if channels == 4 {
            Some(ChannelLayout::Quad)
        } else if channels == 6 {
            Some(ChannelLayout::Surround51)
        } else if channels == 8 {
            Some(ChannelLayout::Surround71)
        } else {
            None
        }
    }

    /// The layout for a number of channels; a number without a layout is
    /// refused as `UnsupportedChannelCount`.
    pub fn for_channels(channels: u16) -> (layout: Result<ChannelLayout, Error>)
        ensures
            layout == (match Self::spec_for_channels(channels) {
                Some(l) => Ok::<ChannelLayout, Error>(l),
                None => Err::<ChannelLayout, Error>(
                    Error::Encoding(EncodingFailure::UnsupportedChannelCount(channels)),
                ),
            }),
    {
        match channels {
            1 => Ok(ChannelLayout::Mono),
            2 => Ok(ChannelLayout::Stereo),
            4 => Ok(ChannelLayout::Quad),
            6 => Ok(ChannelLayout::Surround51),
            8 => Ok(ChannelLayout::Surround71),
            _ => Err(Error::Encoding(EncodingFailure::UnsupportedChannelCount(channels))),
        }
    }
}

/// The value of one codec option.
#[derive(Clone, Copy, Debug, PartialEq, Eq)]
pub enum OptionValue {
    Text(&'static str),
    Number(u32),
}

/// The value of one codec option, its text seen as characters.
pub enum OptionValueView {
    Text(Seq<char>),
    Number(u32),
}

impl View for OptionValue {
    type V = OptionValueView;

    open spec fn view(&self) -> OptionValueView {
        match self {
            OptionValue::Text(text) => OptionValueView::Text(text@),
            OptionValue::Number(number) => OptionValueView::Number(*number),
        }
    }
}

/// One entry of the dictionary that a codec is opened with.
#[derive(Clone, Copy, Debug, PartialEq, Eq)]
pub struct CodecOption {
    pub key: &'static str,
    pub value: OptionValue,
}

impl View for CodecOption {
    type V = (Seq<char>, OptionValueView);

    open spec fn view(&self) -> (Seq<char>, OptionValueView) {
        (self.key@, self.value@)
    }
}

/// The entries of a dictionary, each seen as characters and numbers.
pub open spec fn option_views(options: Seq<CodecOption>) -> Seq<(Seq<char>, OptionValueView)> {
    Seq::new(options.len(), |i: int| options[i]@)
}

/// The frame that the audio codec is to be sent next.
#[derive(Clone, Copy, Debug, PartialEq, Eq, Structural)]
pub struct AudioFrameSpec {
    pub samples_per_channel: usize,
    pub rate: u32,
    pub layout: ChannelLayout,
    /// The presentation timestamp in the encoder's time base.
    pub pts: i64,
}

/// The number of bytes of one sample as the codec takes it.
pub const SAMPLE_BYTES: usize = 4;

/// The bookkeeping of the audio encoder: what the codec is opened with, and
/// the running count of frames from which each frame has its timestamp.
#[derive(Debug)]
pub struct OpusEncoder {
    sample_rate: u32,
    channels: u16,
    layout: ChannelLayout,
    quality: Quality,
    frame_size: usize,
    frame_count: u64,
    finished: bool,
}

impl OpusEncoder {
    #[verifier::type_invariant]
    spec fn inv(&self) -> bool {
        &&& 0 < self.sample_rate <= i32::MAX
        &&& self.frame_size == Self::frame_size_for(self.sample_rate)
        &&& ChannelLayout::spec_for_channels(self.channels) == Some(self.layout)
    }

    /// The samples per channel of one frame at a sample rate: 960 at 48 kHz
    /// and in proportion at another rate, which is 20 ms.
    pub open spec fn frame_size_for(sample_rate: u32) -> int {
        OPUS_FRAME_SIZE * sample_rate / OPUS_SAMPLE_RATE as int
    }

    /// The samples per second of each channel.
    pub closed spec fn spec_sample_rate(&self) -> u32 {
        self.sample_rate
    }

    /// The number of interleaved channels.
    pub closed spec fn spec_channels(&self) -> u16 {
        self.channels
    }

    /// The channel layout that the codec is given.
    pub closed spec fn spec_layout(&self) -> ChannelLayout {
        self.layout
    }

    /// The quality tier that decides the compression level.
    pub closed spec fn spec_quality(&self) -> Quality {
        self.quality
    }

    /// The samples per channel of one frame.
    pub closed spec fn spec_frame_size(&self) -> usize {
        self.frame_size
    }

    /// The number of frames that the codec has taken.
    pub closed spec fn spec_frame_count(&self) -> u64 {
        self.frame_count
    }

    /// Whether the codec has been told that the stream has ended.
    pub closed spec fn spec_finished(&self) -> bool {
        self.finished
    }

    /// Whether the codec's rate field can hold a sample rate.
    pub open spec fn rate_supported(sample_rate: u32) -> bool {
        0 < sample_rate <= i32::MAX
    }

    /// Sets up the encoder for a sample rate, the channels of a speaker
    /// mode and the quality tier of a configuration. No frame is counted
    /// yet.
    ///
    /// Fails with `UnsupportedSampleRate` exactly when the rate is zero or
    /// does not fit the codec's rate field.
    pub fn new(sample_rate: u32, speaker_mode: SpeakerMode, config: &EncoderConfig) -> (r: Result<Self, Error>)
        ensures
            Self::rate_supported(sample_rate) ==> {
                &&& r matches Ok(encoder)
                &&& encoder.spec_sample_rate() == sample_rate
                &&& encoder.spec_channels() == speaker_mode.spec_channel_count()
                &&& Some(encoder.spec_layout()) == ChannelLayout::spec_for_channels(
                    speaker_mode.spec_channel_count(),
                )
                &&& encoder.spec_quality() == config.quality
                &&& encoder.spec_frame_size() == Self::frame_size_for(sample_rate)
                &&& encoder.spec_frame_count() == 0
                &&& !encoder.spec_finished()
            },
            !Self::rate_supported(sample_rate) ==> (r matches Err(e) && e == Error::Encoding(
                EncodingFailure::UnsupportedSampleRate(sample_rate),
            )),
    {
        let channels = speaker_mode.channel_count();
        let layout = match ChannelLayout::for_channels(channels) {
            Ok(layout) => layout,
            Err(e) => {
                return Err(e);
            },
        };
        if sample_rate == 0 || sample_rate > 0x7fff_ffff {
            return Err(Error::Encoding(EncodingFailure::UnsupportedSampleRate(sample_rate)));
        }
        let scaled: u64 = OPUS_FRAME_SIZE as u64 * sample_rate as u64 / OPUS_SAMPLE_RATE as u64;
        assert(scaled <= sample_rate) by (nonlinear_arith)
            requires
                scaled == 960 * sample_rate / 48000,
                sample_rate >= 0,
        ;
        let frame_size = scaled as usize;
        Ok(
            OpusEncoder {
                sample_rate,
                channels,
                layout,
                quality: config.quality,
                frame_size,
                frame_count: 0,
                finished: false,
            },
        )
    }

    /// The samples per second of each channel.
    #[verifier::when_used_as_spec(spec_sample_rate)]
    pub fn sample_rate(&self) -> (r: u32)
        ensures
            r == self.spec_sample_rate(),
            Self::rate_supported(r),
    {
        proof {
            use_type_invariant(self);
        }
        self.sample_rate
    }

    /// The number of interleaved channels.
    #[verifier::when_used_as_spec(spec_channels)]
    pub fn channels(&self) -> (r: u16)
        ensures
            r == self.spec_channels(),
            ChannelLayout::spec_for_channels(r) == Some(self.spec_layout()),
    {
        proof {
            use_type_invariant(self);
        }
        self.channels
    }

    /// The channel layout that the codec is given.
    #[verifier::when_used_as_spec(spec_layout)]
    pub fn layout(&self) -> (r: ChannelLayout)
        ensures
            r == self.spec_layout(),
    {
        self.layout
    }

    /// The samples per channel of one frame.
    #[verifier::when_used_as_spec(spec_frame_size)]
    pub fn frame_size(&self) -> (r: usize)
        ensures
            r == self.spec_frame_size(),
            r == Self::frame_size_for(self.spec_sample_rate()),
    {
        proof {
            use_type_invariant(self);
        }
        self.frame_size
    }

    /// The number of frames that the codec has taken.
    #[verifier::when_used_as_spec(spec_frame_count)]
    pub fn frame_count(&self) -> (r: u64)
        ensures
            r == self.spec_frame_count(),
    {
        self.frame_count
    }

    /// The unit of the encoder's timestamps: one sample.
    pub fn time_base(&self) -> (base: Rational)
        ensures
            base == (Rational { num: 1, den: self.spec_sample_rate() as i32 }),
            base.is_positive(),
    {
        proof {
            use_type_invariant(self);
        }
        Rational { num: 1, den: self.sample_rate as i32 }
    }

    /// The dictionary that the codec is opened with.
    pub open spec fn spec_options(quality: Quality) -> Seq<(Seq<char>, OptionValueView)> {
        seq![
            ("compression_level"@, OptionValueView::Number(quality.spec_compression_level())),
            ("application"@, OptionValueView::Text("audio"@)),
            ("vbr"@, OptionValueView::Text("on"@)),
            ("bitrate"@, OptionValueView::Number(128000)),
        ]
    }

    /// The dictionary that the codec is opened with: the compression level
    /// of the quality tier, and a variable bit rate of 128 kbit/s for
    /// general audio.
    pub fn options(&self) -> (options: Vec<CodecOption>)
        ensures
            option_views(options@) == Self::spec_options(self.spec_quality()),
    {
        let mut options: Vec<CodecOption> = Vec::new();
        options.push(
            CodecOption {
                key: "compression_level",
                value: OptionValue::Number(self.quality.compression_level()),
            },
        );
        options.push(CodecOption { key: "application", value: OptionValue::Text("audio") });
        options.push(CodecOption { key: "vbr", value: OptionValue::Text("on") });
        options.push(CodecOption { key: "bitrate", value: OptionValue::Number(128000) });
        assert(option_views(options@) =~= Self::spec_options(self.spec_quality()));
        options
    }

    /// The number of bytes of one frame: its samples per channel, for every
    /// channel, each of [`SAMPLE_BYTES`] bytes.
    pub open spec fn frame_bytes(&self) -> int {
        self.spec_frame_size() * self.spec_channels() * SAMPLE_BYTES
    }

    /// What [`OpusEncoder::encode_audio_data`] answers to a block of
    /// `data_size` bytes.
    pub open spec fn spec_encode_audio_data(&self, data_size: usize) -> Result<AudioFrameSpec, Error> {
        let pts = self.spec_frame_count() * self.spec_frame_size();
        if self.spec_finished() {
            Err(Error::State(StateFailure::Finished))
        } else if data_size != self.frame_bytes() {
            Err(
                Error::Encoding(
                    EncodingFailure::FrameSizeMismatch {
                        expected: self.frame_bytes() as usize,
                        got: data_size,
                    },
                ),
            )
        } else if pts > i64::MAX {
            Err(Error::Encoding(EncodingFailure::TimestampOverflow))
        } else {
            Ok(
                AudioFrameSpec {
                    samples_per_channel: self.spec_frame_size(),
                    rate: self.spec_sample_rate(),
                    layout: self.spec_layout(),
                    pts: pts as i64,
                },
            )
        }
    }

    /// Looks at a block of `data_size` bytes of packed samples and describes
    /// the frame that carries it: its timestamp is the number of frames
    /// sent so far times the frame size.
    ///
    /// Fails with `Finished` once the stream has ended, with
    /// `FrameSizeMismatch` unless the block is exactly one frame, to the
    /// byte, and with `TimestampOverflow` where the timestamp does not fit
    /// in 64 bits. The count moves on only when
    /// [`OpusEncoder::frame_sent`] reports that the codec took the frame.
    pub fn encode_audio_data(&self, data_size: usize) -> (r: Result<AudioFrameSpec, Error>)
        ensures
            r == self.spec_encode_audio_data(data_size),
    {
        proof {
            use_type_invariant(self);
        }
        if self.finished {
            return Err(Error::State(StateFailure::Finished));
        }
        proof {
            Self::lemma_frame_bytes(self.sample_rate, self.channels);
        }
        let frame_bytes = self.frame_size * self.channels as usize * SAMPLE_BYTES;
        if data_size != frame_bytes {
            return Err(
                Error::Encoding(
                    EncodingFailure::FrameSizeMismatch { expected: frame_bytes, got: data_size },
                ),
            );
        }
        assert(self.frame_count * self.frame_size <= 0xffff_ffff_ffff_ffff * 0x1_0000_0000)
            by (nonlinear_arith)
            requires
                0 <= self.frame_count <= 0xffff_ffff_ffff_ffff,
                0 <= self.frame_size <= 0x1_0000_0000,
        ;
        let pts: u128 = self.frame_count as u128 * self.frame_size as u128;
        if pts > 0x7fff_ffff_ffff_ffff {
            return Err(Error::Encoding(EncodingFailure::TimestampOverflow));
        }
        Ok(
            AudioFrameSpec {
                samples_per_channel: self.frame_size,
                rate: self.sample_rate,
                layout: self.layout,
                pts: pts as i64,
            },
        )
    }

    /// A frame of any encoder has fewer bytes than 32 bits count.
    proof fn lemma_frame_bytes(sample_rate: u32, channels: u16)
        requires
            Self::rate_supported(sample_rate),
            ChannelLayout::spec_for_channels(channels) is Some,
        ensures
            0 <= Self::frame_size_for(sample_rate) <= 42_949_672,
            0 <= Self::frame_size_for(sample_rate) * channels <= 343_597_376,
            0 <= Self::frame_size_for(sample_rate) * channels * SAMPLE_BYTES <= 1_374_389_504,
    {
        let size = Self::frame_size_for(sample_rate);
        assert(0 <= size <= 42_949_672) by (nonlinear_arith)
            requires
                size == 960 * sample_rate / 48000,
                0 < sample_rate <= 0x7fff_ffff,
        ;
        assert(0 <= size * channels <= 343_597_376) by (nonlinear_arith)
            requires
                0 <= size <= 42_949_672,
                0 <= channels <= 8,
        ;
        assert(size * channels * SAMPLE_BYTES == (size * channels) * 4);
    }

    /// What [`OpusEncoder::frame_sent`] does to the encoder and answers.
    pub open spec fn counted(before: Self, after: Self, outcome: Result<(), i32>, r: Result<(), Error>) -> bool {
        &&& after.spec_sample_rate() == before.spec_sample_rate()
        &&& after.spec_channels() == before.spec_channels()
        &&& after.spec_layout() == before.spec_layout()
        &&& after.spec_quality() == before.spec_quality()
        &&& after.spec_frame_size() == before.spec_frame_size()
        &&& after.spec_finished() == before.spec_finished()
        &&& match outcome {
            Ok(_) => if before.spec_frame_count() < u64::MAX {
                &&& r == Ok::<(), Error>(())
                &&& after.spec_frame_count() == before.spec_frame_count() + 1
            } else {
                &&& r == Err::<(), Error>(Error::Encoding(EncodingFailure::TimestampOverflow))
                &&& after.spec_frame_count() == before.spec_frame_count()
            },
            Err(code) => {
                &&& r == Err::<(), Error>(Error::Encoding(EncodingFailure::Send(code)))
                &&& after.spec_frame_count() == before.spec_frame_count()
            },
        }
    }

    /// Takes note of what the codec said to the frame that
    /// [`OpusEncoder::encode_audio_data`] described.
    ///
    /// A frame that the codec took is counted. One that it refused is not,
    /// and the codec's code comes back as `Send`. A count that cannot grow
    /// any more is left as it is and reported as `TimestampOverflow`.
    pub fn frame_sent(&mut self, outcome: Result<(), i32>) -> (r: Result<(), Error>)
        ensures
            Self::counted(*old(self), *final(self), outcome, r),
    {
        proof {
            use_type_invariant(&*self);
        }
        match outcome {
            Ok(_) => match self.frame_count.checked_add(1) {
                Some(count) => {
                    self.frame_count = count;
                    Ok(())
                },
                None => Err(Error::Encoding(EncodingFailure::TimestampOverflow)),
            },
            Err(code) => Err(Error::Encoding(EncodingFailure::Send(code))),
        }
    }

    /// What [`OpusEncoder::finish`] does to the encoder and answers.
    pub open spec fn ended(before: Self, after: Self, outcome: Result<(), i32>, r: Result<(), Error>) -> bool {
        &&& after.spec_sample_rate() == before.spec_sample_rate()
        &&& after.spec_channels() == before.spec_channels()
        &&& after.spec_layout() == before.spec_layout()
        &&& after.spec_quality() == before.spec_quality()
        &&& after.spec_frame_size() == before.spec_frame_size()
        &&& after.spec_frame_count() == before.spec_frame_count()
        &&& match outcome {
            Ok(_) => r == Ok::<(), Error>(()) && after.spec_finished(),
            Err(code) => {
                &&& r == Err::<(), Error>(Error::Encoding(EncodingFailure::Flush(code)))
                &&& after.spec_finished() == before.spec_finished()
            },
        }
    }

    /// Takes note of what the codec said when it was told that the stream
    /// has ended.
    ///
    /// Where the codec took the end, no frame is described any more; the
    /// packets that the codec still holds are the last of the stream. Where
    /// it refused, its code comes back as `Flush` and nothing changes.
    pub fn finish(&mut self, outcome: Result<(), i32>) -> (r: Result<(), Error>)
        ensures
            Self::ended(*old(self), *final(self), outcome, r),
    {
        proof {
            use_type_invariant(&*self);
        }
        match outcome {
            Ok(_) => {
                self.finished = true;
                Ok(())
            },
            Err(code) => Err(Error::Encoding(EncodingFailure::Flush(code))),
        }
    }

    /// Whether the codec has been told that the stream has ended.
    #[verifier::when_used_as_spec(spec_finished)]
    pub fn finished(&self) -> (r: bool)
        ensures
            r == self.spec_finished(),
    {
        self.finished
    }
}

/// The audio encoder never gives a later frame the earlier timestamp: the
/// timestamp is the count of frames sent times the frame size, and the
/// count never falls.
pub proof fn lemma_audio_pts_monotonic(
    earlier: OpusEncoder,
    later: OpusEncoder,
    earlier_size: usize,
    later_size: usize,
)
    requires
        earlier.spec_frame_size() == later.spec_frame_size(),
        earlier.spec_frame_count() <= later.spec_frame_count(),
    ensures
        earlier.spec_encode_audio_data(earlier_size) matches Ok(first) ==> (
        later.spec_encode_audio_data(later_size) matches Ok(second) ==> first.pts <= second.pts),
{
    assert(earlier.spec_frame_count() * earlier.spec_frame_size() <= later.spec_frame_count()
        * later.spec_frame_size()) by (nonlinear_arith)
        requires
            earlier.spec_frame_size() == later.spec_frame_size(),
            earlier.spec_frame_count() <= later.spec_frame_count(),
            earlier.spec_frame_size() >= 0,
    ;
}

} // verus!
