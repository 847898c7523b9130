//! Error type for WAV parsing and sample decoding.

use vstd::prelude::*;

verus! {

/// The four failure classes, without payloads; contracts speak of these so
/// that they need not pin down the human-readable messages.
pub enum ErrKind {
    Io,
    InvalidFormat,
    UnsupportedFormat,
    Corrupted,
}

/// A parsing or decoding failure.
///
/// `Io` reports that the byte source ran out (a short read);
/// `InvalidFormat` a malformed container (bad magic, unknown chunk tag,
/// `data` before `fmt `); `UnsupportedFormat` a well-formed but unhandled
/// file (non-PCM compression, unsupported bit depth); `Corrupted` an
/// internally inconsistent file (bad byte-rate or block-align cross-check,
/// zero channels, uneven per-channel sample count).
#[derive(Clone, Copy, Debug)]
pub enum WavError {
    Io(&'static str),
    InvalidFormat(&'static str),
    UnsupportedFormat(&'static str),
    Corrupted(&'static str),
}

impl WavError {
    /// The failure class of this error, with the message forgotten.
    pub open spec fn kind(&self) -> ErrKind {
        match *self {
            WavError::Io(_) => ErrKind::Io,
            WavError::InvalidFormat(_) => ErrKind::InvalidFormat,
            WavError::UnsupportedFormat(_) => ErrKind::UnsupportedFormat,
            WavError::Corrupted(_) => ErrKind::Corrupted,
        }
    }

    /// The message carried by the error, whatever its class.
    pub fn message(&self) -> &'static str {
        match *self {
            WavError::Io(m) => m,
            WavError::InvalidFormat(m) => m,
            WavError::UnsupportedFormat(m) => m,
            WavError::Corrupted(m) => m,
        }
    }
}

} // verus!
