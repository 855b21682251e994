use vstd::prelude::*;

verus! {

/// The failures that capture, savefile and stream operations report.
#[derive(Debug, Clone, PartialEq, Eq)]
pub enum Error {
    /// Activation of a live device failed; carries the engine's message.
    DeviceOpenError(String),
    /// A descriptor handed to a constructor was negative or not open.
    InvalidDescriptor,
    /// The filter compiler rejected an expression; carries its diagnostic.
    InvalidFilterSyntax(String),
    /// A non-blocking retrieval found nothing ready.
    WouldBlock,
    /// An offline capture reached the end of its file.
    NoMorePackets,
    /// Statistics were asked of a capture that is not live.
    StatsUnavailable,
    /// The underlying file or descriptor failed, or its bytes are malformed.
    IoError(String),
    /// A codec could not turn a packet into its output.
    DecodeError(String),
}

} // verus!
