//! Host-side driver for a companion Wi-Fi radio co-processor (RPU) reached over
//! a word-addressed peripheral bus.
//!
//! The library holds the protocol logic: the address map of the co-processor,
//! the firmware blob parser, the boot sequence, the hostport queue protocol, the
//! command encoder and event decoder, the single-slot action mailbox and the
//! receive pipeline. Waiting on interrupts and timers, and the network-stack
//! glue, are left to the caller.
use vstd::prelude::*;

pub mod action;
pub mod bus;
pub mod commands;
pub mod control;
pub mod eth;
pub mod events;
pub mod firmware;
pub mod hexdump;
pub mod memory;
pub mod net;
pub mod rf;
pub mod rpu;

pub use hexdump::hexdump;

verus! {

/// The errors reported by the driver.
#[derive(Debug, Clone, Copy, PartialEq, Eq, Structural)]
pub enum Error {
    NoAcknowledgement,
    Timeout,
    InvalidAddress,
    InvalidArgument,
    NotInitialized,
    BufferTooSmall,
    BufferOverflow,
    NoData,
    NotFound,
    NotHandled(u32),
    Busy,
    FirmwareParseError(FirmwareParseError),
    Code(i32),
}

/// Why a firmware blob was rejected.
#[derive(Debug, Clone, Copy, PartialEq, Eq, Structural)]
pub enum FirmwareParseError {
    BufferTooSmall,
    /// The lengths of the images do not add up to the payload length of the header.
    InvalidDataLength,
    InvalidSignature,
    NotEnoughImages,
    InvalidImageType,
    InvalidFeatureFlags(u32),
}

/// The description of a parse error.
pub open spec fn parse_error_message(e: FirmwareParseError) -> Seq<char> {
    match e {
        FirmwareParseError::BufferTooSmall => "buffer too small"@,
        FirmwareParseError::InvalidDataLength => "invalid data length"@,
        FirmwareParseError::InvalidSignature => "invalid signature"@,
        FirmwareParseError::NotEnoughImages => "not enough images"@,
        FirmwareParseError::InvalidImageType => "invalid image type"@,
        FirmwareParseError::InvalidFeatureFlags(_) => "invalid feature flags"@,
    }
}

impl FirmwareParseError {
    /// A short description of the error, without the feature word.
    pub fn message(&self) -> (r: &'static str)
        ensures
            r@ == parse_error_message(*self),
    {
        match self {
            FirmwareParseError::BufferTooSmall => "buffer too small",
            FirmwareParseError::InvalidDataLength => "invalid data length",
            FirmwareParseError::InvalidSignature => "invalid signature",
            FirmwareParseError::NotEnoughImages => "not enough images",
            FirmwareParseError::InvalidImageType => "invalid image type",
            FirmwareParseError::InvalidFeatureFlags(_) => "invalid feature flags",
        }
    }
}

} // verus!
