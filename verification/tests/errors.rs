use sorkin::conversion::{Format, Pixel, ResourceKind};
use sorkin::{ConversionFailure, EncodingFailure, Error, ErrorKind, StateFailure, Status};

#[test]
fn each_failure_has_its_class() {
    let cases = [
        (Error::Ffmpeg(-1), ErrorKind::Codec),
        (Error::Conversion(ConversionFailure::DeviceUnavailable), ErrorKind::Device),
        (Error::Conversion(ConversionFailure::ResourceCreation(ResourceKind::Luma)), ErrorKind::Device),
        (
            Error::Conversion(ConversionFailure::UnsupportedFormat { from: Format::Rgba8, to: Pixel::Nv12 }),
            ErrorKind::Format,
        ),
        (Error::Encoding(EncodingFailure::CodecNotFound), ErrorKind::Codec),
        (Error::Encoding(EncodingFailure::ContextCreation(-12)), ErrorKind::Codec),
        (Error::Encoding(EncodingFailure::Open(-22)), ErrorKind::Codec),
        (Error::Encoding(EncodingFailure::UnsupportedChannelCount(3)), ErrorKind::Codec),
        (Error::Encoding(EncodingFailure::UnsupportedSampleRate(0)), ErrorKind::Codec),
        (Error::Encoding(EncodingFailure::UnsupportedFrameRate(0)), ErrorKind::Codec),
        (Error::Encoding(EncodingFailure::FrameSizeMismatch { expected: 960, got: 1 }), ErrorKind::Codec),
        (Error::Encoding(EncodingFailure::TimestampOverflow), ErrorKind::Codec),
        (Error::Encoding(EncodingFailure::Send(-5)), ErrorKind::Codec),
        (Error::Encoding(EncodingFailure::Write(-28)), ErrorKind::Codec),
        (Error::State(StateFailure::NothingRequested), ErrorKind::State),
        (Error::State(StateFailure::NotReady), ErrorKind::State),
        (Error::State(StateFailure::HeaderWritten), ErrorKind::State),
        (Error::State(StateFailure::HeaderMissing), ErrorKind::State),
        (Error::State(StateFailure::Finished), ErrorKind::State),
        (Error::State(StateFailure::StreamExists), ErrorKind::State),
        (Error::State(StateFailure::NoSuchStream(4)), ErrorKind::State),
    ];
    for (error, kind) in cases {
        assert_eq!(error.kind(), kind, "{error:?}");
    }
}

#[test]
fn each_class_has_its_status() {
    assert_eq!(Error::Conversion(ConversionFailure::DeviceUnavailable).status(), Status::CantCreate);
    assert_eq!(
        Error::Conversion(ConversionFailure::UnsupportedFormat { from: Format::L8, to: Pixel::Rgba }).status(),
        Status::CantCreate
    );
    assert_eq!(Error::Ffmpeg(-5).status(), Status::FileCantWrite);
    assert_eq!(Error::Encoding(EncodingFailure::Send(-5)).status(), Status::FileCantWrite);
    assert_eq!(Error::State(StateFailure::HeaderMissing).status(), Status::Unconfigured);
}
