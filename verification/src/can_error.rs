//! Errors reported while building the CAN FD driver and while moving frames.

use vstd::prelude::*;

verus! {

/// Errors raised while bringing up the CAN FD controller.
#[derive(Debug, Clone, Copy, PartialEq, Eq, Structural)]
pub enum CANFDError {
    /// The requested baud rate is above what the controller supports.
    BaudrateTooHigh,
    /// The timing configuration asks for a prescaler that does not fit.
    PrescalarTooHigh,
    /// The transceiver delay compensation offset does not fit.
    TransceiverDelayCompensationTooHigh,
    /// The transceiver delay compensation could not be established.
    TransceiverDelayCompensationFail,
    /// Placeholder for an error that should not happen.
    Unknown,
}

/// Errors raised while sending or receiving a frame.
#[derive(Debug, Clone, Copy, PartialEq, Eq, Structural)]
pub enum RxTxError {
    /// No mailbox could be used for the operation.
    MailboxUnavailable,
    /// The frame is larger than the mailboxes of both regions.
    FrameTooBigForRegions,
    /// Placeholder for an error that should not happen.
    Unknown,
}

} // verus!
