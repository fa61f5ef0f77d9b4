//! Error kinds of the signing core and their wire status codes.
use vstd::prelude::*;

verus! {

/// Status word reported alongside a successful response.
pub const APDU_CODE_SUCCESS: u16 = 0x9000;

/// Error kinds surfaced to the transport layer.
///
/// Every terminal failure produces a response with zero payload length and
/// the status code of one of these kinds.
#[derive(Clone, Copy, Debug, PartialEq, Eq, Structural)]
pub enum ApduError {
    /// A primitive (digest, signing) or an encoding conversion failed.
    ExecutionError,
    /// The transport-level payload is malformed.
    WrongLength,
    /// A record, header or path inside the payload is malformed.
    DataInvalid,
    /// The operation was attempted without the required prior state.
    ConditionsNotSatisfied,
    /// The operator rejected the request.
    CommandNotAllowed,
    /// The packet discriminant is not recognized.
    InvalidP1P2,
}

impl ApduError {
    /// The wire status code of this error kind.
    pub open spec fn code_spec(self) -> u16 {
        match self {
            ApduError::ExecutionError => 0x6400,
            ApduError::WrongLength => 0x6700,
            ApduError::DataInvalid => 0x6A80,
            ApduError::ConditionsNotSatisfied => 0x6985,
            ApduError::CommandNotAllowed => 0x6986,
            ApduError::InvalidP1P2 => 0x6B00,
        }
    }

    /// Returns the wire status code of this error kind.
    pub fn code(&self) -> (r: u16)
        ensures
            r == self.code_spec(),
    {
        match self {
            ApduError::ExecutionError => 0x6400,
            ApduError::WrongLength => 0x6700,
            ApduError::DataInvalid => 0x6A80,
            ApduError::ConditionsNotSatisfied => 0x6985,
            ApduError::CommandNotAllowed => 0x6986,
            ApduError::InvalidP1P2 => 0x6B00,
        }
    }
}

/// Structural errors of the record parsers.
///
/// The kind names the record or field on which decoding failed, so a tag
/// mismatch is not degraded to a generic short-read error.
#[derive(Clone, Copy, Debug, PartialEq, Eq, Structural)]
pub enum ParserError {
    /// The input ended before a declared field was complete.
    UnexpectedBufferEnd,
    /// A record's fixed type tag did not match.
    UnexpectedType,
    /// A declared count or length implies more bytes than remain.
    ValueOutOfRange,
}

/// Errors of the review-display protocol.
#[derive(Clone, Copy, Debug, PartialEq, Eq, Structural)]
pub enum ViewError {
    /// The requested item or page does not exist.
    NoData,
}

} // verus!
