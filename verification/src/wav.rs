//! RIFF/WAVE container parsing and PCM sample decoding.
//!
//! The byte-level meaning of the container is written down once, as spec
//! functions (`scan_riff`, `scan_chunk_header`, `scan_fmt`, `scan_chunks`),
//! and every executable parser is proved to return exactly what its scan
//! says: the same decoded value, or an error of the same class, for every
//! byte sequence and position.

use vstd::prelude::*;
use vstd::arithmetic::mul::lemma_mul_upper_bound;

use crate::error::{ErrKind, WavError};
use crate::reader::{has_bytes, le_i16, le_i24, le_i32, le_u16, le_u32, ReaderExt};

verus! {

/// Format metadata decoded from the `fmt ` chunk of a PCM WAV file.
#[derive(Debug, Clone, Copy)]
pub struct WavFmt {
    pub channels: u16,
    pub sample_rate: u32,
    pub byte_rate: u32,
    pub block_align: u16,
    pub bits_per_sample: u16,
}

/// The chunk tags the parser accepts; any other tag is a hard error.
pub enum ChunkKind {
    Fmt,
    Data,
}

/// A chunk header: a recognised 4-byte tag and a little-endian length.
pub struct ChunkHeader {
    pub kind: ChunkKind,
    pub size: u32,
}

/// Whether the four bytes of `b` at `p` are the given tag characters.
pub open spec fn tag_at(b: Seq<u8>, p: int, t0: u8, t1: u8, t2: u8, t3: u8) -> bool {
    &&& b[p] == t0
    &&& b[p + 1] == t1
    &&& b[p + 2] == t2
    &&& b[p + 3] == t3
}

/// `"RIFF"` at position `p`.
pub open spec fn is_riff(b: Seq<u8>, p: int) -> bool {
    tag_at(b, p, 0x52, 0x49, 0x46, 0x46)
}

/// `"WAVE"` at position `p`.
pub open spec fn is_wave(b: Seq<u8>, p: int) -> bool {
    tag_at(b, p, 0x57, 0x41, 0x56, 0x45)
}

/// `"fmt "` at position `p`.
pub open spec fn is_fmt_tag(b: Seq<u8>, p: int) -> bool {
    tag_at(b, p, 0x66, 0x6d, 0x74, 0x20)
}

/// `"data"` at position `p`.
pub open spec fn is_data_tag(b: Seq<u8>, p: int) -> bool {
    tag_at(b, p, 0x64, 0x61, 0x74, 0x61)
}

/// The little-endian u16 value of the two bytes of `b` at `p`.
pub open spec fn le_u16_at(b: Seq<u8>, p: int) -> int {
    le_u16(b[p], b[p + 1])
}

/// The little-endian u32 value of the four bytes of `b` at `p`.
pub open spec fn le_u32_at(b: Seq<u8>, p: int) -> int {
    le_u32(b[p], b[p + 1], b[p + 2], b[p + 3])
}

/// What reading the 12-byte RIFF/WAVE envelope at `p` yields: the declared
/// total file size (chunk-size field plus 8, widened past `u32`), or the
/// class of the failure.
pub open spec fn scan_riff(b: Seq<u8>, p: int) -> Result<int, ErrKind> {
    if !has_bytes(b, p, 4) {
        Err(ErrKind::Io)
    } else if !is_riff(b, p) {
        Err(ErrKind::InvalidFormat)
    } else if !has_bytes(b, p, 12) {
        Err(ErrKind::Io)
    } else if !is_wave(b, p + 8) {
        Err(ErrKind::InvalidFormat)
    } else {
        Ok(le_u32_at(b, p + 4) + 8)
    }
}

/// What reading an 8-byte chunk header at `p` yields. Only `"fmt "` and
/// `"data"` are recognised; any other tag is `InvalidFormat`.
pub open spec fn scan_chunk_header(b: Seq<u8>, p: int) -> Result<ChunkHeader, ErrKind> {
    if !has_bytes(b, p, 8) {
        Err(ErrKind::Io)
    } else if is_fmt_tag(b, p) {
        Ok(ChunkHeader { kind: ChunkKind::Fmt, size: le_u32_at(b, p + 4) as u32 })
    } else if is_data_tag(b, p) {
        Ok(ChunkHeader { kind: ChunkKind::Data, size: le_u32_at(b, p + 4) as u32 })
    } else {
        Err(ErrKind::InvalidFormat)
    }
}

/// The format metadata spelled out by the 16 bytes of `b` at `p`.
pub open spec fn fmt_of(b: Seq<u8>, p: int) -> WavFmt {
    WavFmt {
        channels: le_u16_at(b, p + 2) as u16,
        sample_rate: le_u32_at(b, p + 4) as u32,
        byte_rate: le_u32_at(b, p + 8) as u32,
        block_align: le_u16_at(b, p + 12) as u16,
        bits_per_sample: le_u16_at(b, p + 14) as u16,
    }
}

/// The byte rate a format's other fields imply.
pub open spec fn expected_byte_rate(f: WavFmt) -> int {
    (f.sample_rate * f.channels * f.bits_per_sample) / 8
}

/// The block alignment a format's other fields imply.
pub open spec fn expected_block_align(f: WavFmt) -> int {
    (f.channels * f.bits_per_sample) / 8
}

/// What decoding a `fmt ` subchunk of declared size `size` at `p` yields:
/// the validated format, or the class of the failure. A declared size under
/// 16 is `Corrupted`; a compression code other than 1 (PCM) is
/// `UnsupportedFormat`; zero channels, a byte rate or a block alignment
/// inconsistent with the other fields are `Corrupted`; running out of bytes
/// is `Io`.
pub open spec fn scan_fmt(b: Seq<u8>, p: int, size: u32) -> Result<WavFmt, ErrKind> {
    if size < 16 {
        Err(ErrKind::Corrupted)
    } else if !has_bytes(b, p, 2) {
        Err(ErrKind::Io)
    } else if le_u16_at(b, p) != 1 {
        Err(ErrKind::UnsupportedFormat)
    } else if !has_bytes(b, p, 4) {
        Err(ErrKind::Io)
    } else if le_u16_at(b, p + 2) == 0 {
        Err(ErrKind::Corrupted)
    } else if !has_bytes(b, p, 16) {
        Err(ErrKind::Io)
    } else if expected_byte_rate(fmt_of(b, p)) != fmt_of(b, p).byte_rate {
        Err(ErrKind::Corrupted)
    } else if expected_block_align(fmt_of(b, p)) != fmt_of(b, p).block_align {
        Err(ErrKind::Corrupted)
    } else {
        Ok(fmt_of(b, p))
    }
}

/// Law: a RIFF/WAVE envelope whose first four bytes are not `"RIFF"`, or
/// whose bytes 8..12 are not `"WAVE"`, fails as `InvalidFormat` — never any
/// other way — before any chunk is looked at.
pub proof fn lemma_bad_magic_rejected(b: Seq<u8>, p: int)
    requires
        has_bytes(b, p, 12),
        !is_riff(b, p) || !is_wave(b, p + 8),
    ensures
        scan_riff(b, p) == Err::<int, ErrKind>(ErrKind::InvalidFormat),
{
}

/// Law: a `fmt ` chunk whose stored byte rate disagrees with
/// `sample_rate * channels * bits_per_sample / 8` fails as `Corrupted`,
/// never silently proceeding, whatever the rest of its fields hold.
pub proof fn lemma_byte_rate_mismatch_rejected(b: Seq<u8>, p: int, size: u32)
    requires
        size >= 16,
        has_bytes(b, p, 16),
        le_u16_at(b, p) == 1,
        le_u16_at(b, p + 2) != 0,
        expected_byte_rate(fmt_of(b, p)) != fmt_of(b, p).byte_rate,
    ensures
        scan_fmt(b, p, size) == Err::<WavFmt, ErrKind>(ErrKind::Corrupted),
{
}

/// Reads and validates the 12-byte RIFF/WAVE envelope, returning the
/// declared total file size (the chunk-size field plus 8).
pub fn read_riff_header<R: ReaderExt>(reader: &mut R) -> (res: Result<u64, WavError>)
    ensures
        final(reader).bytes() == old(reader).bytes(),
        (match scan_riff(old(reader).bytes(), old(reader).pos()) {
            Ok(sz) => res matches Ok(v) && v == sz && final(reader).pos() == old(reader).pos()
                + 12,
            Err(k) => res matches Err(e) && e.kind() == k,
        }),
{
    let riff_id = match reader.read_4_bytes() {
        Ok(a) => a,
        Err(e) => {
            return Err(e);
        },
    };
    if !(riff_id[0] == 0x52 && riff_id[1] == 0x49 && riff_id[2] == 0x46 && riff_id[3] == 0x46) {
        return Err(WavError::InvalidFormat("RIFF header not present"));
    }

    let chunks_size = match reader.read_le_u32() {
        Ok(v) => v,
        Err(e) => {
            return Err(e);
        },
    };

    let format = match reader.read_4_bytes() {
        Ok(a) => a,
        Err(e) => {
            return Err(e);
        },
    };
    if !(format[0] == 0x57 && format[1] == 0x41 && format[2] == 0x56 && format[3] == 0x45) {
        return Err(WavError::InvalidFormat("WAVE format not present"));
    }

    Ok(chunks_size as u64 + 8)
}

/// Reads an 8-byte chunk header; only `"fmt "` and `"data"` tags are
/// accepted, any other tag fails as `InvalidFormat`. This is deliberately
/// strict: there is no skip path for extension chunks (`LIST`, `fact`,
/// `JUNK`), so files that carry them are rejected whole.
pub fn read_chunk_header<R: ReaderExt>(reader: &mut R) -> (res: Result<ChunkHeader, WavError>)
    ensures
        final(reader).bytes() == old(reader).bytes(),
        (match scan_chunk_header(old(reader).bytes(), old(reader).pos()) {
            Ok(h) => res matches Ok(g) && g == h && final(reader).pos() == old(reader).pos() + 8,
            Err(k) => res matches Err(e) && e.kind() == k,
        }),
{
    let kind = match reader.read_4_bytes() {
        Ok(a) => a,
        Err(e) => {
            return Err(e);
        },
    };
    let size = match reader.read_le_u32() {
        Ok(v) => v,
        Err(e) => {
            return Err(e);
        },
    };
    if kind[0] == 0x66 && kind[1] == 0x6d && kind[2] == 0x74 && kind[3] == 0x20 {
        Ok(ChunkHeader { kind: ChunkKind::Fmt, size })
    } else if kind[0] == 0x64 && kind[1] == 0x61 && kind[2] == 0x74 && kind[3] == 0x61 {
        Ok(ChunkHeader { kind: ChunkKind::Data, size })
    } else {
        Err(WavError::InvalidFormat("Chunk header should be 'fmt ' or 'data'"))
    }
}

/// Decodes and cross-validates a `fmt ` subchunk of declared size
/// `chunk_size`, consuming exactly its 16 content bytes on success.
pub fn read_fmt_subchunk<R: ReaderExt>(reader: &mut R, chunk_size: u32) -> (res: Result<
    WavFmt,
    WavError,
>)
    ensures
        final(reader).bytes() == old(reader).bytes(),
        (match scan_fmt(old(reader).bytes(), old(reader).pos(), chunk_size) {
            Ok(f) => res matches Ok(g) && g == f && final(reader).pos() == old(reader).pos() + 16,
            Err(k) => res matches Err(e) && e.kind() == k,
        }),
{
    if chunk_size < 16 {
        return Err(WavError::Corrupted("Invalid chunk size"));
    }

    let pcm = match reader.read_le_u16() {
        Ok(v) => v,
        Err(e) => {
            return Err(e);
        },
    };
    if pcm != 1 {
        return Err(WavError::UnsupportedFormat("Unsupported compression format"));
    }

    let channels = match reader.read_le_u16() {
        Ok(v) => v,
        Err(e) => {
            return Err(e);
        },
    };
    if channels == 0 {
        return Err(WavError::Corrupted("Channels cannot be 0"));
    }

    let sample_rate = match reader.read_le_u32() {
        Ok(v) => v,
        Err(e) => {
            return Err(e);
        },
    };
    let byte_rate = match reader.read_le_u32() {
        Ok(v) => v,
        Err(e) => {
            return Err(e);
        },
    };
    let block_align = match reader.read_le_u16() {
        Ok(v) => v,
        Err(e) => {
            return Err(e);
        },
    };
    let bits_per_sample = match reader.read_le_u16() {
        Ok(v) => v,
        Err(e) => {
            return Err(e);
        },
    };

    proof {
        lemma_mul_upper_bound(sample_rate as int, 0xFFFF_FFFF, channels as int, 0xFFFF);
        lemma_mul_upper_bound(
            sample_rate as int * channels as int,
            0xFFFF_FFFFint * 0xFFFFint,
            bits_per_sample as int,
            0xFFFF,
        );
        lemma_mul_upper_bound(channels as int, 0xFFFF, bits_per_sample as int, 0xFFFF);
    }
    let expected_byte_rate = (sample_rate as u64) * (channels as u64) * (bits_per_sample as u64)
        / 8;
    if expected_byte_rate != byte_rate as u64 {
        return Err(WavError::Corrupted("Invalid byte rate"));
    }

    let expected_block_align = (channels as u32) * (bits_per_sample as u32) / 8;
    if expected_block_align != block_align as u32 {
        return Err(WavError::Corrupted("Invalid block align"));
    }

    Ok(WavFmt { channels, sample_rate, byte_rate, block_align, bits_per_sample })
}

/// What walking the chunk list at `p` yields, with `have` the last format
/// seen so far: the format and data-chunk size, with the position where the
/// sample data starts, or the class of the failure. A `data` chunk before
/// any `fmt ` chunk is `InvalidFormat`; a later `fmt ` chunk replaces an
/// earlier one.
pub open spec fn scan_chunks(b: Seq<u8>, p: int, have: Option<WavFmt>) -> Result<
    (WavFmt, u32, int),
    ErrKind,
>
    decreases b.len() - p,
{
    match scan_chunk_header(b, p) {
        Err(k) => Err(k),
        Ok(h) => match h.kind {
            ChunkKind::Data => match have {
                Some(f) => Ok((f, h.size, p + 8)),
                None => Err(ErrKind::InvalidFormat),
            },
            ChunkKind::Fmt => match scan_fmt(b, p + 8, h.size) {
                Err(k) => Err(k),
                Ok(f) => scan_chunks(b, p + 24, Some(f)),
            },
        },
    }
}

/// Every format the chunk walk can return went through `scan_fmt`, whose
/// validation refuses zero channels.
pub proof fn lemma_scan_chunks_channels(b: Seq<u8>, p: int, have: Option<WavFmt>)
    requires
        (have matches Some(g) ==> g.channels > 0),
    ensures
        (scan_chunks(b, p, have) matches Ok(t) ==> t.0.channels > 0),
    decreases b.len() - p,
{
    match scan_chunk_header(b, p) {
        Ok(h) => match h.kind {
            ChunkKind::Fmt => match scan_fmt(b, p + 8, h.size) {
                Ok(f) => {
                    lemma_scan_chunks_channels(b, p + 24, Some(f));
                },
                Err(_) => {},
            },
            ChunkKind::Data => {},
        },
        Err(_) => {},
    }
}

/// Law: a `data` chunk met while no `fmt ` chunk has been seen fails as
/// `InvalidFormat`, whatever follows it.
pub proof fn lemma_data_before_fmt_rejected(b: Seq<u8>, p: int)
    requires
        has_bytes(b, p, 8),
        is_data_tag(b, p),
    ensures
        scan_chunks(b, p, None) == Err::<(WavFmt, u32, int), ErrKind>(ErrKind::InvalidFormat),
{
    assert(!is_fmt_tag(b, p));
}

/// Reads the RIFF/WAVE envelope, then chunk headers in order — decoding
/// each `fmt ` chunk, the last one winning — until the `data` chunk, whose
/// declared size is returned beside the format; the reader is left at the
/// first byte of sample data.
#[verifier::loop_isolation(false)]
pub fn read_until_data<R: ReaderExt>(reader: &mut R) -> (res: Result<(WavFmt, u32), WavError>)
    ensures
        final(reader).bytes() == old(reader).bytes(),
        (match scan_riff(old(reader).bytes(), old(reader).pos()) {
            Err(k) => res matches Err(e) && e.kind() == k,
            Ok(_) => match scan_chunks(old(reader).bytes(), old(reader).pos() + 12, None) {
                Err(k) => res matches Err(e) && e.kind() == k,
                Ok((f, s, end)) => res matches Ok(p) && p.0 == f && p.1 == s
                    && final(reader).pos() == end,
            },
        }),
{
    let ghost b = old(reader).bytes();
    match read_riff_header(reader) {
        Ok(_) => (),
        Err(e) => {
            return Err(e);
        },
    };
    let ghost start = reader.pos();

    let mut wav_fmt: Option<WavFmt> = None;
    loop
        invariant
            reader.bytes() == b,
            0 <= reader.pos() <= b.len(),
            scan_chunks(b, reader.pos(), wav_fmt) == scan_chunks(b, start, None),
        decreases b.len() - reader.pos(),
    {
        let ghost p = reader.pos();
        let ghost have = wav_fmt;
        let chunk_header = match read_chunk_header(reader) {
            Ok(h) => h,
            Err(e) => {
                return Err(e);
            },
        };
        match chunk_header.kind {
            ChunkKind::Fmt => {
                let f = match read_fmt_subchunk(reader, chunk_header.size) {
                    Ok(f) => f,
                    Err(e) => {
                        return Err(e);
                    },
                };
                proof {
                    assert(scan_chunks(b, p, have) == scan_chunks(b, p + 24, Some(f)));
                }
                wav_fmt = Some(f);
            },
            ChunkKind::Data => {
                let data_size = chunk_header.size;
                match wav_fmt {
                    Some(wav) => {
                        return Ok((wav, data_size));
                    },
                    None => {
                        return Err(WavError::InvalidFormat("WAVE \"fmt \" not present"));
                    },
                }
            },
        };
    }
}

/// The decoded stream's shape: the validated format, the data chunk's byte
/// size, and the sample count and per-sample byte width derived from them.
pub struct WavConfig {
    pub wav_fmt: WavFmt,
    pub size: u32,
    pub samples: u32,
    pub bytes_per_sample: u32,
}

/// The configuration that a format `f` and a data chunk of `data_size`
/// bytes determine.
pub open spec fn config_of(f: WavFmt, data_size: u32) -> WavConfig {
    WavConfig {
        wav_fmt: f,
        size: data_size,
        samples: (data_size as int / (f.bits_per_sample as int / 8)) as u32,
        bytes_per_sample: (f.bits_per_sample as int / 8) as u32,
    }
}

impl WavConfig {
    /// The internal consistency that parsing establishes: a positive channel
    /// count, a positive sample width dividing the data size into the sample
    /// count, and a whole number of samples per channel.
    pub open spec fn wf(&self) -> bool {
        &&& self.wav_fmt.channels > 0
        &&& self.bytes_per_sample == self.wav_fmt.bits_per_sample as int / 8
        &&& self.bytes_per_sample > 0
        &&& self.samples == self.size as int / self.bytes_per_sample as int
        &&& self.samples as int % self.wav_fmt.channels as int == 0
    }

    /// The audio length in whole seconds; fractional seconds are floored, a
    /// documented precision limit.
    pub fn duration(&self) -> (d: u32)
        requires
            self.wav_fmt.channels > 0,
            self.wav_fmt.sample_rate > 0,
        ensures
            d == self.samples as int / self.wav_fmt.channels as int
                / self.wav_fmt.sample_rate as int,
    {
        self.samples / (self.wav_fmt.channels as u32) / self.wav_fmt.sample_rate
    }

    /// The format metadata this configuration was derived from.
    pub fn fmt(&self) -> (f: &WavFmt)
        ensures
            *f == self.wav_fmt,
    {
        &self.wav_fmt
    }
}

/// The signed sample value of width `bits` at position `p` of `b`.
pub open spec fn sample_at(b: Seq<u8>, p: int, bits: u16) -> int {
    if bits == 16 {
        le_i16(b[p], b[p + 1])
    } else if bits == 24 {
        le_i24(b[p], b[p + 1], b[p + 2])
    } else {
        le_i32(b[p], b[p + 1], b[p + 2], b[p + 3])
    }
}

/// The sum of `k` consecutive samples of `w` bytes each, starting at `p`.
pub open spec fn frame_sum(b: Seq<u8>, p: int, k: int, w: int, bits: u16) -> int
    decreases k,
{
    if k <= 0 {
        0
    } else {
        sample_at(b, p, bits) + frame_sum(b, p + w, k - 1, w, bits)
    }
}

/// Rust's integer division: truncating toward zero.
pub open spec fn div_trunc(a: int, b: int) -> int {
    if a >= 0 {
        a / b
    } else {
        -((-a) / b)
    }
}

/// The downmixed value of frame `i`: the per-channel sample sum, averaged
/// by truncating division over the channel count.
pub open spec fn mono_value(b: Seq<u8>, start: int, ch: int, w: int, bits: u16, i: int) -> int {
    div_trunc(frame_sum(b, start + i * (ch * w), ch, w, bits), ch)
}

/// Appending one more sample to a frame sum adds the sample at the end.
proof fn lemma_frame_sum_snoc(b: Seq<u8>, p: int, k: int, w: int, bits: u16)
    requires
        k >= 0,
    ensures
        frame_sum(b, p, k + 1, w, bits) == frame_sum(b, p, k, w, bits) + sample_at(
            b,
            p + k * w,
            bits,
        ),
    decreases k,
{
    if k == 0 {
        assert(frame_sum(b, p + w, 0, w, bits) == 0);
    } else {
        lemma_frame_sum_snoc(b, p + w, k - 1, w, bits);
        assert((k - 1) * w == k * w - w) by (nonlinear_arith);
    }
}

/// A frame sum of `k` samples stays within `k` times the sample range.
proof fn lemma_frame_sum_bound(b: Seq<u8>, p: int, k: int, w: int, bits: u16)
    requires
        k >= 0,
    ensures
        -(k * 0x8000_0000) <= frame_sum(b, p, k, w, bits) <= k * 0x7FFF_FFFF,
    decreases k,
{
    if k > 0 {
        lemma_frame_sum_bound(b, p + w, k - 1, w, bits);
        assert((k - 1) * 0x8000_0000 == k * 0x8000_0000 - 0x8000_0000) by (nonlinear_arith);
        assert((k - 1) * 0x7FFF_FFFF == k * 0x7FFF_FFFF - 0x7FFF_FFFF) by (nonlinear_arith);
    }
}

/// A WAV file opened for reading: the byte source, positioned at the first
/// sample, and the configuration parsed from its headers.
pub struct WavReader<R: ReaderExt> {
    pub reader: R,
    pub config: WavConfig,
}

impl<R: ReaderExt> WavReader<R> {
    /// Parses the container headers up to (not including) the sample data
    /// and derives the stream's configuration, rejecting a zero sample
    /// width as unsupported and an uneven per-channel sample count as
    /// corrupted.
    pub fn new(reader: R) -> (res: Result<WavReader<R>, WavError>)
        ensures
            (match scan_riff(reader.bytes(), reader.pos()) {
                Err(k) => res matches Err(e) && e.kind() == k,
                Ok(_) => match scan_chunks(reader.bytes(), reader.pos() + 12, None) {
                    Err(k) => res matches Err(e) && e.kind() == k,
                    Ok((f, dsize, end)) => {
                        if f.bits_per_sample as int / 8 == 0 {
                            res matches Err(e) && e.kind() == ErrKind::UnsupportedFormat
                        } else if (dsize as int / (f.bits_per_sample as int / 8))
                            % f.channels as int != 0 {
                            res matches Err(e) && e.kind() == ErrKind::Corrupted
                        } else {
                            res matches Ok(w) && w.config == config_of(f, dsize) && w.config.wf()
                                && w.reader.bytes() == reader.bytes() && w.reader.pos() == end
                        }
                    },
                },
            }),
    {
        let ghost b0 = reader.bytes();
        let ghost p0 = reader.pos();
        let mut reader = reader;
        let (wav_fmt, size) = match read_until_data(&mut reader) {
            Ok(x) => x,
            Err(e) => {
                return Err(e);
            },
        };
        proof {
            lemma_scan_chunks_channels(b0, p0 + 12, None);
        }

        let bytes_per_sample = (wav_fmt.bits_per_sample / 8) as u32;
        if bytes_per_sample == 0 {
            return Err(WavError::UnsupportedFormat("Sample size not supported"));
        }
        let samples = size / bytes_per_sample;

        if samples % wav_fmt.channels as u32 != 0 {
            return Err(WavError::Corrupted("Number of samples per channel must be equal"));
        }
        let config = WavConfig { wav_fmt, size, bytes_per_sample, samples };
        let wav_reader = WavReader { reader, config };
        Ok(wav_reader)
    }

    /// Decodes the interleaved frames from the reader's current position
    /// and downmixes each to one value: the per-channel sum, taken in a
    /// 64-bit accumulator so that it cannot overflow, averaged over the
    /// channel count with truncating division. Bit depths other than 16,
    /// 24 and 32 are unsupported; running out of bytes is an I/O failure.
    #[verifier::loop_isolation(false)]
    pub fn mono(&mut self) -> (res: Result<Vec<i32>, WavError>)
        requires
            old(self).config.wav_fmt.channels > 0,
        ensures
            final(self).config == old(self).config,
            final(self).reader.bytes() == old(self).reader.bytes(),
            ({
                let b = old(self).reader.bytes();
                let p = old(self).reader.pos();
                let cfg = old(self).config;
                let ch = cfg.wav_fmt.channels as int;
                let bits = cfg.wav_fmt.bits_per_sample;
                let w: int = if bits == 16 { 2int } else if bits == 24 { 3int } else { 4int };
                let frames = cfg.samples as int / ch;
                let need = frames * (ch * w);
                if frames == 0 {
                    res matches Ok(v) && v@.len() == 0
                } else if !(bits == 16 || bits == 24 || bits == 32) {
                    res matches Err(e) && e.kind() == ErrKind::UnsupportedFormat
                } else if !has_bytes(b, p, need) {
                    res matches Err(e) && e.kind() == ErrKind::Io
                } else {
                    res matches Ok(v) && v@.len() == frames && final(self).reader.pos() == p + need
                        && (forall|i: int|
                            0 <= i < frames ==> v@[i] == mono_value(b, p, ch, w, bits, i))
                }
            }),
    {
        let channels: u16 = self.config.wav_fmt.channels;
        let bits: u16 = self.config.wav_fmt.bits_per_sample;
        let samples: u32 = self.config.samples;
        let frames: u32 = samples / (channels as u32);
        let ghost b = self.reader.bytes();
        let ghost p0 = self.reader.pos();
        let ghost ch: int = channels as int;
        let ghost w: int = if bits == 16 { 2int } else if bits == 24 { 3int } else { 4int };
        let ghost need: int = (frames as int) * (ch * w);

        let mut data: Vec<i32> = Vec::new();
        if frames == 0 {
            return Ok(data);
        }
        if !(bits == 16 || bits == 24 || bits == 32) {
            return Err(WavError::UnsupportedFormat("Sample size not supported"));
        }

        let mut f: u32 = 0;
        while f < frames
            invariant
                self.config == old(self).config,
                self.reader.bytes() == b,
                0 <= f <= frames,
                data@.len() == f as int,
                self.reader.pos() == p0 + (f as int) * (ch * w),
                f > 0 ==> 0 <= p0 && self.reader.pos() <= b.len(),
                forall|i: int| 0 <= i < f ==> data@[i] == mono_value(b, p0, ch, w, bits, i),
            decreases frames - f,
        {
            let ghost fb = p0 + (f as int) * (ch * w);
            let mut channel_sum: i64 = 0;
            let mut c: u16 = 0;
            while c < channels
                invariant
                    self.config == old(self).config,
                    self.reader.bytes() == b,
                    0 <= c <= channels,
                    self.reader.pos() == fb + (c as int) * w,
                    channel_sum == frame_sum(b, fb, c as int, w, bits),
                    -((c as int) * 0x8000_0000) <= channel_sum <= (c as int) * 0x7FFF_FFFF,
                    (f > 0 || c > 0) ==> 0 <= p0 && self.reader.pos() <= b.len(),
                decreases channels - c,
            {
                let ghost q = fb + (c as int) * w;
                proof {
                    assert(0 <= (f as int) * (ch * w) && 0 <= (c as int) * w && (f as int) * (ch
                        * w) + (c as int) * w + w <= (frames as int) * (ch * w))
                        by (nonlinear_arith)
                        requires
                            0 <= f < frames,
                            0 <= c < ch,
                            0 < w,
                            ch == channels as int,
                    ;
                }
                let sample: i32 = if bits == 16 {
                    match self.reader.read_le_i16() {
                        Ok(v) => v as i32,
                        Err(e) => {
                            return Err(e);
                        },
                    }
                } else if bits == 24 {
                    match self.reader.read_le_i24() {
                        Ok(v) => v,
                        Err(e) => {
                            return Err(e);
                        },
                    }
                } else {
                    match self.reader.read_le_i32() {
                        Ok(v) => v,
                        Err(e) => {
                            return Err(e);
                        },
                    }
                };
                proof {
                    lemma_frame_sum_snoc(b, fb, c as int, w, bits);
                    assert(((c as int) + 1) * w == (c as int) * w + w) by (nonlinear_arith);
                    assert(((c as int) + 1) * 0x8000_0000 == (c as int) * 0x8000_0000
                        + 0x8000_0000) by (nonlinear_arith);
                    assert(((c as int) + 1) * 0x7FFF_FFFF == (c as int) * 0x7FFF_FFFF
                        + 0x7FFF_FFFF) by (nonlinear_arith);
                }
                channel_sum = channel_sum + sample as i64;
                c = c + 1;
            }

            proof {
                lemma_frame_sum_bound(b, fb, ch, w, bits);
                assert(channel_sum <= (ch) * 0x7FFF_FFFF <= 0xFFFF * 0x7FFF_FFFF)
                    by (nonlinear_arith)
                    requires
                        channel_sum <= ch * 0x7FFF_FFFF,
                        0 < ch <= 0xFFFF,
                ;
                assert(-(0xFFFFint * 0x8000_0000) <= -(ch * 0x8000_0000) <= channel_sum)
                    by (nonlinear_arith)
                    requires
                        -(ch * 0x8000_0000) <= channel_sum,
                        0 < ch <= 0xFFFF,
                ;
            }
            let avg: i64 = if channel_sum >= 0 {
                proof {
                    assert((channel_sum as u64) / (channels as u64) <= 0x7FFF_FFFF)
                        by (nonlinear_arith)
                        requires
                            0 <= channel_sum <= (channels as u64) * 0x7FFF_FFFF,
                            channels > 0,
                    ;
                }
                ((channel_sum as u64) / (channels as u64)) as i64
            } else {
                let neg: u64 = (-channel_sum) as u64;
                proof {
                    assert(neg / (channels as u64) <= 0x8000_0000) by (nonlinear_arith)
                        requires
                            0 <= neg <= (channels as u64) * 0x8000_0000,
                            channels > 0,
                    ;
                }
                -((neg / (channels as u64)) as i64)
            };
            data.push(avg as i32);
            proof {
                assert(((f as int) + 1) * (ch * w) == (f as int) * (ch * w) + ch * w)
                    by (nonlinear_arith);
            }
            f = f + 1;
        }
        proof {
            assert(self.reader.pos() == p0 + need);
        }
        Ok(data)
    }

    /// The parsed configuration.
    pub fn config(&self) -> (c: &WavConfig)
        ensures
            *c == self.config,
    {
        &self.config
    }

    /// The data chunk's declared size in bytes.
    pub fn size(&self) -> (s: u32)
        ensures
            s == self.config.size,
    {
        self.config.size
    }
}

} // verus!

