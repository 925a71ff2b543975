//! Frame-by-frame movie recording: the rules by which rendered frames and
//! the audio that comes with them become a video file, each stated as a
//! contract and proved.
//!
//! The crate decides and computes; it touches neither the rendering device
//! nor a codec nor a file. Whoever drives it does that work and reports how
//! it went:
//!
//! - [`writer`] holds the session, from the call that begins a recording to
//!   the one that ends it;
//! - [`conversion`] lays out the planes of a 4:2:0 frame, keeps the list of
//!   the device's resources, and moves the planes that the device read back
//!   into a frame;
//! - [`audio`] cuts the stream of samples into codec frames and keeps the
//!   audio encoder's count of them, and [`sample`] brings the samples into
//!   the range of the codec;
//! - [`encoder`] and [`muxer`] plan the codecs and the container and stamp
//!   the packets;
//! - [`timing`] holds the arithmetic of timestamps, [`settings`] what the
//!   host configures, and [`text`] the comparison of names.

use vstd::prelude::*;

pub mod audio;
pub mod conversion;
pub mod encoder;
pub mod muxer;
pub mod sample;
pub mod settings;
pub mod text;
pub mod timing;
pub mod writer;

use crate::conversion::{Format, Pixel, ResourceKind};

pub use crate::writer::SorkinWriter;

verus! {

/// Why the conversion stage could not be built or used.
#[derive(Clone, Copy, Debug, PartialEq, Eq, Structural)]
pub enum ConversionFailure {
    /// No compute-capable rendering device could be had.
    DeviceUnavailable,
    /// The device handed back the null handle for a resource of this kind.
    ResourceCreation(ResourceKind),
    /// The target format has no plane layout.
    UnsupportedFormat { from: Format, to: Pixel },
}

/// Which step came at the wrong time.
#[derive(Clone, Copy, Debug, PartialEq, Eq, Structural)]
pub enum StateFailure {
    /// A handle was reported although every resource is in place.
    NothingRequested,
    /// A conversion was asked of a context that lacks resources.
    NotReady,
    /// A stream was added or changed, or the header written again, after
    /// the header.
    HeaderWritten,
    /// A packet or the trailer came before the header.
    HeaderMissing,
    /// The container has its trailer and takes nothing more.
    Finished,
    /// The container already has a stream of this kind.
    StreamExists,
    /// The container has no stream of this number.
    NoSuchStream(usize),
}

/// Why an encoder refused its configuration or a frame.
#[derive(Clone, Copy, Debug, PartialEq, Eq, Structural)]
pub enum EncodingFailure {
    /// The codec library does not know the codec.
    CodecNotFound,
    /// The codec library could not make an encoder context; holds its code.
    ContextCreation(i32),
    /// The codec library could not open the encoder; holds its code.
    Open(i32),
    /// No channel layout exists for this many channels.
    UnsupportedChannelCount(u16),
    /// The sample rate is zero or too large for the codec's rate field.
    UnsupportedSampleRate(u32),
    /// The frame rate is zero or its time base is too fine for 32 bits.
    UnsupportedFrameRate(u32),
    /// A block of audio is not exactly one codec frame; holds the bytes of
    /// a frame and those of the block.
    FrameSizeMismatch { expected: usize, got: usize },
    /// The next timestamp does not fit in 64 bits.
    TimestampOverflow,
    /// A frame does not have the size that the encoder was opened for.
    FrameMismatch { width: u32, height: u32, frame_width: u32, frame_height: u32 },
    /// The codec library refused a frame; holds its code.
    Send(i32),
    /// The codec library refused the end of the stream; holds its code.
    Flush(i32),
    /// The container refused a packet; holds its code.
    Write(i32),
}

/// A failure of one stage of the pipeline.
#[derive(Clone, Copy, Debug, PartialEq, Eq, Structural)]
pub enum Error {
    /// The codec library failed; holds its numeric code.
    Ffmpeg(i32),
    /// The conversion stage failed.
    Conversion(ConversionFailure),
    /// An encoder failed.
    Encoding(EncodingFailure),
    /// A step came outside the state of the lifecycle that it belongs to.
    State(StateFailure),
}

/// The four classes of failure.
#[derive(Clone, Copy, Debug, PartialEq, Eq, Structural)]
pub enum ErrorKind {
    Device,
    Codec,
    Format,
    State,
}

/// What the host is told of a call.
#[derive(Clone, Copy, Debug, PartialEq, Eq, Structural)]
pub enum Status {
    Okay,
    Unconfigured,
    CantCreate,
    FileCantWrite,
}

impl Error {
    /// The class of the failure: the device's for a resource that could
    /// not be had, the format's for a target without a plane layout, the
    /// codec's for whatever a codec or the container refused.
    pub open spec fn spec_kind(self) -> ErrorKind {
        match self {
            Error::Ffmpeg(_) => ErrorKind::Codec,
            Error::Conversion(ConversionFailure::UnsupportedFormat { .. }) => ErrorKind::Format,
            Error::Conversion(_) => ErrorKind::Device,
            Error::Encoding(_) => ErrorKind::Codec,
            Error::State(_) => ErrorKind::State,
        }
    }

    /// The class of the failure.
    pub fn kind(&self) -> (kind: ErrorKind)
        ensures
            kind == self.spec_kind(),
    {
        match self {
            Error::Ffmpeg(_) => ErrorKind::Codec,
            Error::Conversion(ConversionFailure::UnsupportedFormat { .. }) => ErrorKind::Format,
            Error::Conversion(_) => ErrorKind::Device,
            Error::Encoding(_) => ErrorKind::Codec,
            Error::State(_) => ErrorKind::State,
        }
    }

    /// What the host is told of the failure: that nothing could be created
    /// for a failure of the device or the format, that the file cannot be
    /// written for one of a codec, that the writer is not configured for a
    /// step at the wrong time.
    pub open spec fn spec_status(self) -> Status {
        match self.spec_kind() {
            ErrorKind::Device => Status::CantCreate,
            ErrorKind::Format => Status::CantCreate,
            ErrorKind::Codec => Status::FileCantWrite,
            ErrorKind::State => Status::Unconfigured,
        }
    }

    /// What the host is told of the failure.
    pub fn status(&self) -> (status: Status)
        ensures
            status == self.spec_status(),
    {
        match self.kind() {
            ErrorKind::Device => Status::CantCreate,
            ErrorKind::Format => Status::CantCreate,
            ErrorKind::Codec => Status::FileCantWrite,
            ErrorKind::State => Status::Unconfigured,
        }
    }
}

} // verus!
