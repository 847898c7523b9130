//! A verified core for a WAV spectral-analysis tool: little-endian byte
//! decoding, RIFF/WAVE container parsing, and mono downmixing of PCM samples.
//!
//! The floating-point spectral pipeline (complex algebra, DFT, FFT, plotting)
//! lives outside this library; it consumes the integer sample sequence that
//! `WavReader::mono` produces.

pub mod error;
pub mod reader;
pub mod wav;

pub use error::{ErrKind, WavError};
pub use reader::{ByteCursor, ReaderExt};
pub use wav::{ChunkHeader, ChunkKind, WavConfig, WavFmt, WavReader};
