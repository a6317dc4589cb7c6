use vstd::prelude::*;

verus! {

/// Why a decode stopped, or which integrity check a decoded frame failed.
///
/// The first four variants abort a decode; `offset` is the position in the
/// input of the field at which it stopped. The last two are integrity signals:
/// the frame was decoded in full and is handed out beside them.
#[derive(Debug, Clone, Copy, PartialEq, Eq, Structural)]
pub enum CustomError {
    /// The field that starts at `offset` runs past the end of the input.
    Truncated { offset: usize },
    /// The fixed marker that starts at `offset` does not hold its one permitted value.
    InvalidPreamble { offset: usize },
    /// The codec id at `offset` is not 8.
    UnsupportedCodec { offset: usize },
    /// The byte at `offset` of an IMEI is not an ASCII decimal digit.
    InvalidImei { offset: usize },
    /// The transmitted checksum differs from the one computed over the declared range.
    ChecksumMismatch,
    /// The record count echoed after the records differs from the one before them.
    RecordCountMismatch,
}

impl CustomError {
    /// The decode ran out of bytes.
    pub open spec fn spec_is_truncated(&self) -> bool {
        self is Truncated
    }

    /// Whether the decode ran out of bytes; buffering more and decoding again
    /// from the start is the remedy.
    #[verifier::when_used_as_spec(spec_is_truncated)]
    pub fn is_truncated(&self) -> (b: bool)
        ensures
            b == self.spec_is_truncated(),
    {
        match *self {
            CustomError::Truncated { .. } => true,
            _ => false,
        }
    }

    /// The input position an aborting error points at; `None` for the two
    /// integrity signals, which point at no single byte.
    pub open spec fn spec_offset(&self) -> Option<usize> {
        match *self {
            CustomError::Truncated { offset } => Some(offset),
            CustomError::InvalidPreamble { offset } => Some(offset),
            CustomError::UnsupportedCodec { offset } => Some(offset),
            CustomError::InvalidImei { offset } => Some(offset),
            CustomError::ChecksumMismatch => None,
            CustomError::RecordCountMismatch => None,
        }
    }

    /// The input position this error points at, if it points at one.
    #[verifier::when_used_as_spec(spec_offset)]
    pub fn offset(&self) -> (r: Option<usize>)
        ensures
            r == self.spec_offset(),
    {
        match *self {
            CustomError::Truncated { offset } => Some(offset),
            CustomError::InvalidPreamble { offset } => Some(offset),
            CustomError::UnsupportedCodec { offset } => Some(offset),
            CustomError::InvalidImei { offset } => Some(offset),
            CustomError::ChecksumMismatch => None,
            CustomError::RecordCountMismatch => None,
        }
    }
}

} // verus!
