//! The structured error kinds of the audio subsystem.

use vstd::prelude::*;

verus! {

/// Why an audio operation failed.
#[derive(Clone, Copy, Debug, PartialEq, Eq, Structural)]
pub enum AudioError {
    /// The OS audio HAL returned this non-zero status.
    Os(i32),
    /// No supported stream configuration matches the constraints.
    Config,
    /// `start` was requested while a recording is in progress.
    AlreadyInProgress,
    /// `stop` was requested while no recording is in progress.
    NotStarted,
    /// No device of the requested name is known to the OS.
    NotFound,
    /// The temporary file or the encoder failed.
    Io,
    /// A reply arrived that does not answer the pending request.
    OutOfOrder,
}

} // verus!
