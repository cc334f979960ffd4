//! The failures that end a run.

use vstd::prelude::*;
use crate::metric::Metric;

verus! {

/// Why a run was abandoned.
#[derive(Clone, Copy, Debug, PartialEq, Eq, Structural)]
pub enum ErrorKind {
    /// The transcoder could not be started.
    LaunchFailure,
    /// The transcoder started, but its diagnostic stream could not be had.
    StreamCaptureFailure,
    /// Reading the diagnostic stream failed.
    ReadFailure,
    /// A recognised line held this number in a form that could not be read.
    MalformedMetric(Metric),
    /// The stream closed before the transcoder began its work.
    UnexpectedEndOfStream,
    /// The pattern engine turned down one of the line patterns.
    PatternRejected,
}

/// A failure with the sentence that is shown to the user.
#[derive(Clone, Debug, PartialEq, Eq)]
pub struct Error {
    pub kind: ErrorKind,
    pub message: String,
}

/// Shown when the transcoder could not be started.
pub const LAUNCH_MESSAGE: &'static str = "failed to launch ffmpeg binary.";

/// Shown when the diagnostic stream could not be had.
pub const CAPTURE_MESSAGE: &'static str = "failed to capture ffmpeg standard error.";

/// Shown when a read failed and the source said nothing of it.
pub const READ_MESSAGE: &'static str = "failed to read ffmpeg standard error.";

/// Shown when the stream closed during the header.
pub const END_MESSAGE: &'static str = "no such file or directory.";

/// Shown when the total duration could not be read.
pub const DURATION_MESSAGE: &'static str = "couldn't parse total duration.";

/// Shown when the frame rate could not be read.
pub const RATE_MESSAGE: &'static str = "couldn't parse fps.";

/// Shown when the current position could not be read.
pub const POSITION_MESSAGE: &'static str = "couldn't parse current duration.";

/// Shown when the pattern engine turned a line pattern down.
pub const PATTERN_MESSAGE: &'static str = "couldn't prepare the line patterns.";

/// The sentence that goes with a kind of failure.
pub open spec fn message_of(kind: ErrorKind) -> Seq<char> {
    match kind {
        ErrorKind::LaunchFailure => LAUNCH_MESSAGE@,
        ErrorKind::StreamCaptureFailure => CAPTURE_MESSAGE@,
        ErrorKind::ReadFailure => READ_MESSAGE@,
        ErrorKind::MalformedMetric(Metric::Duration) => DURATION_MESSAGE@,
        ErrorKind::MalformedMetric(Metric::FrameRate) => RATE_MESSAGE@,
        ErrorKind::MalformedMetric(Metric::Position) => POSITION_MESSAGE@,
        ErrorKind::UnexpectedEndOfStream => END_MESSAGE@,
        ErrorKind::PatternRejected => PATTERN_MESSAGE@,
    }
}

/// Makes the error of the given kind that carries `msg`.
pub fn new_error(kind: ErrorKind, msg: &str) -> (e: Error)
    ensures
        e.kind == kind,
        e.message@ == msg@,
{
    Error { kind, message: msg.to_owned() }
}

impl ErrorKind {
    /// The sentence that goes with this kind of failure.
    pub fn describe(self) -> (sentence: &'static str)
        ensures
            sentence@ == message_of(self),
    {
        match self {
            ErrorKind::LaunchFailure => LAUNCH_MESSAGE,
            ErrorKind::StreamCaptureFailure => CAPTURE_MESSAGE,
            ErrorKind::ReadFailure => READ_MESSAGE,
            ErrorKind::MalformedMetric(Metric::Duration) => DURATION_MESSAGE,
            ErrorKind::MalformedMetric(Metric::FrameRate) => RATE_MESSAGE,
            ErrorKind::MalformedMetric(Metric::Position) => POSITION_MESSAGE,
            ErrorKind::UnexpectedEndOfStream => END_MESSAGE,
            ErrorKind::PatternRejected => PATTERN_MESSAGE,
        }
    }
}

impl Error {
    /// The error of the given kind with the sentence that goes with it.
    pub fn of(kind: ErrorKind) -> (e: Error)
        ensures
            e.kind == kind,
            e.message@ == message_of(kind),
    {
        new_error(kind, kind.describe())
    }
}

} // verus!
