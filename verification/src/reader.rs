//! Little-endian byte decoding from a sequential byte source.
//!
//! `ReaderExt` is the capability a byte source offers the WAV parser: each
//! read consumes exactly 2, 3 or 4 bytes and advances the position, or fails
//! with an I/O error when too few bytes remain. `ByteCursor` is the one
//! in-memory implementation; the 24-bit read sign-extends by bit 7 of the
//! third byte, reproducing two's-complement for a non-native width.

use vstd::prelude::*;
use vstd::arithmetic::div_mod::lemma_fundamental_div_mod;
use vstd::arithmetic::div_mod::lemma_mod_division_less_than_divisor;
use vstd::arithmetic::div_mod::lemma_div_pos_is_pos;
use vstd::arithmetic::div_mod::lemma_multiply_divide_lt;

use crate::error::{ErrKind, WavError};

verus! {

/// Whether `n` bytes can be read from `b` at position `p`.
pub open spec fn has_bytes(b: Seq<u8>, p: int, n: int) -> bool {
    0 <= p && p + n <= b.len()
}

/// The unsigned value of two little-endian bytes.
pub open spec fn le_u16(b0: u8, b1: u8) -> int {
    b0 + 256 * b1
}

/// The unsigned value of three little-endian bytes.
pub open spec fn le_u24(b0: u8, b1: u8, b2: u8) -> int {
    b0 + 256 * b1 + 65536 * b2
}

/// The unsigned value of four little-endian bytes.
pub open spec fn le_u32(b0: u8, b1: u8, b2: u8, b3: u8) -> int {
    b0 + 256 * b1 + 65536 * b2 + 16777216 * b3
}

/// The two's-complement value of two little-endian bytes.
pub open spec fn le_i16(b0: u8, b1: u8) -> int {
    if le_u16(b0, b1) < 32768 {
        le_u16(b0, b1)
    } else {
        le_u16(b0, b1) - 65536
    }
}

/// The two's-complement value of three little-endian bytes.
pub open spec fn le_i24(b0: u8, b1: u8, b2: u8) -> int {
    if le_u24(b0, b1, b2) < 8388608 {
        le_u24(b0, b1, b2)
    } else {
        le_u24(b0, b1, b2) - 16777216
    }
}

/// The two's-complement value of four little-endian bytes.
pub open spec fn le_i32(b0: u8, b1: u8, b2: u8, b3: u8) -> int {
    if le_u32(b0, b1, b2, b3) < 2147483648 {
        le_u32(b0, b1, b2, b3)
    } else {
        le_u32(b0, b1, b2, b3) - 4294967296
    }
}

/// A sequential byte source with fixed-width little-endian decoders.
///
/// Every method either consumes exactly its width, leaving the underlying
/// bytes unchanged and advancing the position, or fails with an `Io` error
/// when too few bytes remain (the position is then left unspecified).
pub trait ReaderExt: Sized {
    /// The whole underlying byte sequence.
    spec fn bytes(&self) -> Seq<u8>;

    /// The current read position within `bytes()`.
    spec fn pos(&self) -> int;

    fn read_2_bytes(&mut self) -> (r: Result<[u8; 2], WavError>)
        ensures
            final(self).bytes() == old(self).bytes(),
            has_bytes(old(self).bytes(), old(self).pos(), 2) ==> (r matches Ok(a)
                && a@[0] == old(self).bytes()[old(self).pos()]
                && a@[1] == old(self).bytes()[old(self).pos() + 1]
                && final(self).pos() == old(self).pos() + 2),
            !has_bytes(old(self).bytes(), old(self).pos(), 2) ==> (r matches Err(e)
                && e.kind() == ErrKind::Io),
    ;

    fn read_3_bytes(&mut self) -> (r: Result<[u8; 3], WavError>)
        ensures
            final(self).bytes() == old(self).bytes(),
            has_bytes(old(self).bytes(), old(self).pos(), 3) ==> (r matches Ok(a)
                && a@[0] == old(self).bytes()[old(self).pos()]
                && a@[1] == old(self).bytes()[old(self).pos() + 1]
                && a@[2] == old(self).bytes()[old(self).pos() + 2]
                && final(self).pos() == old(self).pos() + 3),
            !has_bytes(old(self).bytes(), old(self).pos(), 3) ==> (r matches Err(e)
                && e.kind() == ErrKind::Io),
    ;

    fn read_4_bytes(&mut self) -> (r: Result<[u8; 4], WavError>)
        ensures
            final(self).bytes() == old(self).bytes(),
            has_bytes(old(self).bytes(), old(self).pos(), 4) ==> (r matches Ok(a)
                && a@[0] == old(self).bytes()[old(self).pos()]
                && a@[1] == old(self).bytes()[old(self).pos() + 1]
                && a@[2] == old(self).bytes()[old(self).pos() + 2]
                && a@[3] == old(self).bytes()[old(self).pos() + 3]
                && final(self).pos() == old(self).pos() + 4),
            !has_bytes(old(self).bytes(), old(self).pos(), 4) ==> (r matches Err(e)
                && e.kind() == ErrKind::Io),
    ;

    fn read_le_u16(&mut self) -> (r: Result<u16, WavError>)
        ensures
            final(self).bytes() == old(self).bytes(),
            has_bytes(old(self).bytes(), old(self).pos(), 2) ==> (r matches Ok(v)
                && v == le_u16(
                    old(self).bytes()[old(self).pos()],
                    old(self).bytes()[old(self).pos() + 1],
                )
                && final(self).pos() == old(self).pos() + 2),
            !has_bytes(old(self).bytes(), old(self).pos(), 2) ==> (r matches Err(e)
                && e.kind() == ErrKind::Io),
    ;

    fn read_le_i16(&mut self) -> (r: Result<i16, WavError>)
        ensures
            final(self).bytes() == old(self).bytes(),
            has_bytes(old(self).bytes(), old(self).pos(), 2) ==> (r matches Ok(v)
                && v == le_i16(
                    old(self).bytes()[old(self).pos()],
                    old(self).bytes()[old(self).pos() + 1],
                )
                && final(self).pos() == old(self).pos() + 2),
            !has_bytes(old(self).bytes(), old(self).pos(), 2) ==> (r matches Err(e)
                && e.kind() == ErrKind::Io),
    ;

    fn read_le_i24(&mut self) -> (r: Result<i32, WavError>)
        ensures
            final(self).bytes() == old(self).bytes(),
            has_bytes(old(self).bytes(), old(self).pos(), 3) ==> (r matches Ok(v)
                && v == le_i24(
                    old(self).bytes()[old(self).pos()],
                    old(self).bytes()[old(self).pos() + 1],
                    old(self).bytes()[old(self).pos() + 2],
                )
                && final(self).pos() == old(self).pos() + 3),
            !has_bytes(old(self).bytes(), old(self).pos(), 3) ==> (r matches Err(e)
                && e.kind() == ErrKind::Io),
    ;

    fn read_le_u32(&mut self) -> (r: Result<u32, WavError>)
        ensures
            final(self).bytes() == old(self).bytes(),
            has_bytes(old(self).bytes(), old(self).pos(), 4) ==> (r matches Ok(v)
                && v == le_u32(
                    old(self).bytes()[old(self).pos()],
                    old(self).bytes()[old(self).pos() + 1],
                    old(self).bytes()[old(self).pos() + 2],
                    old(self).bytes()[old(self).pos() + 3],
                )
                && final(self).pos() == old(self).pos() + 4),
            !has_bytes(old(self).bytes(), old(self).pos(), 4) ==> (r matches Err(e)
                && e.kind() == ErrKind::Io),
    ;

    fn read_le_i32(&mut self) -> (r: Result<i32, WavError>)
        ensures
            final(self).bytes() == old(self).bytes(),
            has_bytes(old(self).bytes(), old(self).pos(), 4) ==> (r matches Ok(v)
                && v == le_i32(
                    old(self).bytes()[old(self).pos()],
                    old(self).bytes()[old(self).pos() + 1],
                    old(self).bytes()[old(self).pos() + 2],
                    old(self).bytes()[old(self).pos() + 3],
                )
                && final(self).pos() == old(self).pos() + 4),
            !has_bytes(old(self).bytes(), old(self).pos(), 4) ==> (r matches Err(e)
                && e.kind() == ErrKind::Io),
    ;
}

/// An in-memory byte source: a buffer and a position that reads advance.
pub struct ByteCursor {
    data: Vec<u8>,
    pos: usize,
}

impl ByteCursor {
    /// A cursor over `data`, positioned at its start.
    pub fn new(data: Vec<u8>) -> (c: ByteCursor)
        ensures
            c.bytes() == data@,
            c.pos() == 0,
    {
        ByteCursor { data, pos: 0 }
    }
}

impl ReaderExt for ByteCursor {
    closed spec fn bytes(&self) -> Seq<u8> {
        self.data@
    }

    closed spec fn pos(&self) -> int {
        self.pos as int
    }

    fn read_2_bytes(&mut self) -> (r: Result<[u8; 2], WavError>) {
        if self.data.len() >= 2 && self.pos <= self.data.len() - 2 {
            let a = [self.data[self.pos], self.data[self.pos + 1]];
            self.pos = self.pos + 2;
            Ok(a)
        } else {
            Err(WavError::Io("unexpected end of input"))
        }
    }

    fn read_3_bytes(&mut self) -> (r: Result<[u8; 3], WavError>) {
        if self.data.len() >= 3 && self.pos <= self.data.len() - 3 {
            let a = [self.data[self.pos], self.data[self.pos + 1], self.data[self.pos + 2]];
            self.pos = self.pos + 3;
            Ok(a)
        } else {
            Err(WavError::Io("unexpected end of input"))
        }
    }

    fn read_4_bytes(&mut self) -> (r: Result<[u8; 4], WavError>) {
        if self.data.len() >= 4 && self.pos <= self.data.len() - 4 {
            let a = [
                self.data[self.pos],
                self.data[self.pos + 1],
                self.data[self.pos + 2],
                self.data[self.pos + 3],
            ];
            self.pos = self.pos + 4;
            Ok(a)
        } else {
            Err(WavError::Io("unexpected end of input"))
        }
    }

    fn read_le_u16(&mut self) -> (r: Result<u16, WavError>) {
        let a = match self.read_2_bytes() {
            Ok(a) => a,
            Err(e) => {
                return Err(e);
            },
        };
        Ok(a[0] as u16 + (a[1] as u16) * 256)
    }

    fn read_le_i16(&mut self) -> (r: Result<i16, WavError>) {
        let a = match self.read_2_bytes() {
            Ok(a) => a,
            Err(e) => {
                return Err(e);
            },
        };
        let u: u16 = a[0] as u16 + (a[1] as u16) * 256;
        if u < 32768 {
            Ok(u as i16)
        } else {
            Ok(((u as i32) - 65536) as i16)
        }
    }

    fn read_le_i24(&mut self) -> (r: Result<i32, WavError>) {
        let a = match self.read_3_bytes() {
            Ok(a) => a,
            Err(e) => {
                return Err(e);
            },
        };
        let hi = a[2];
        proof {
            assert(((hi & 0x80u8) == 0u8) == (hi < 128u8)) by (bit_vector);
        }
        let u: u32 = a[0] as u32 + (a[1] as u32) * 256 + (hi as u32) * 65536;
        if hi & 0x80 == 0 {
            Ok(u as i32)
        } else {
            Ok(((u as i64) - 16777216) as i32)
        }
    }

    fn read_le_u32(&mut self) -> (r: Result<u32, WavError>) {
        let a = match self.read_4_bytes() {
            Ok(a) => a,
            Err(e) => {
                return Err(e);
            },
        };
        Ok(a[0] as u32 + (a[1] as u32) * 256 + (a[2] as u32) * 65536 + (a[3] as u32) * 16777216)
    }

    fn read_le_i32(&mut self) -> (r: Result<i32, WavError>) {
        let a = match self.read_4_bytes() {
            Ok(a) => a,
            Err(e) => {
                return Err(e);
            },
        };
        let u: u32 = a[0] as u32 + (a[1] as u32) * 256 + (a[2] as u32) * 65536
            + (a[3] as u32) * 16777216;
        if u < 2147483648 {
            Ok(u as i32)
        } else {
            Ok(((u as i64) - 4294967296) as i32)
        }
    }
}

/// The two little-endian bytes that encode the unsigned value `u`.
pub open spec fn enc_le_u16(u: int) -> Seq<u8>
    recommends
        0 <= u < 65536,
{
    seq![(u % 256) as u8, (u / 256) as u8]
}

/// The two little-endian bytes that encode the signed value `v`.
pub open spec fn enc_le_i16(v: int) -> Seq<u8>
    recommends
        -32768 <= v < 32768,
{
    enc_le_u16(if v < 0 { v + 65536 } else { v })
}

/// The three little-endian bytes that encode the unsigned value `u`.
pub open spec fn enc_le_u24(u: int) -> Seq<u8>
    recommends
        0 <= u < 16777216,
{
    seq![(u % 256) as u8, ((u / 256) % 256) as u8, (u / 65536) as u8]
}

/// The three little-endian bytes that encode the signed value `v`.
pub open spec fn enc_le_i24(v: int) -> Seq<u8>
    recommends
        -8388608 <= v < 8388608,
{
    enc_le_u24(if v < 0 { v + 16777216 } else { v })
}

/// The four little-endian bytes that encode the unsigned value `u`.
pub open spec fn enc_le_u32(u: int) -> Seq<u8>
    recommends
        0 <= u < 4294967296,
{
    seq![
        (u % 256) as u8,
        ((u / 256) % 256) as u8,
        ((u / 65536) % 256) as u8,
        (u / 16777216) as u8,
    ]
}

/// The four little-endian bytes that encode the signed value `v`.
pub open spec fn enc_le_i32(v: int) -> Seq<u8>
    recommends
        -2147483648 <= v < 2147483648,
{
    enc_le_u32(if v < 0 { v + 4294967296 } else { v })
}

proof fn lemma_le_u16_decomposition(u: int)
    requires
        0 <= u < 65536,
    ensures
        le_u16(enc_le_u16(u)[0], enc_le_u16(u)[1]) == u,
{
    lemma_fundamental_div_mod(u, 256);
    lemma_mod_division_less_than_divisor(u, 256);
    lemma_div_pos_is_pos(u, 256);
    lemma_multiply_divide_lt(u, 256, 256);
}

proof fn lemma_le_u24_decomposition(u: int)
    requires
        0 <= u < 16777216,
    ensures
        le_u24(enc_le_u24(u)[0], enc_le_u24(u)[1], enc_le_u24(u)[2]) == u,
{
    lemma_fundamental_div_mod(u, 256);
    lemma_mod_division_less_than_divisor(u, 256);
    lemma_div_pos_is_pos(u, 256);
    lemma_fundamental_div_mod(u / 256, 256);
    lemma_mod_division_less_than_divisor(u / 256, 256);
    lemma_div_pos_is_pos(u / 256, 256);
    lemma_multiply_divide_lt(u, 65536, 256);
    assert((u / 256) / 256 == u / 65536) by {
        vstd::arithmetic::div_mod::lemma_div_denominator(u, 256, 256);
    }
}

proof fn lemma_le_u32_decomposition(u: int)
    requires
        0 <= u < 4294967296,
    ensures
        le_u32(enc_le_u32(u)[0], enc_le_u32(u)[1], enc_le_u32(u)[2], enc_le_u32(u)[3]) == u,
{
    lemma_fundamental_div_mod(u, 256);
    lemma_mod_division_less_than_divisor(u, 256);
    lemma_div_pos_is_pos(u, 256);
    lemma_fundamental_div_mod(u / 256, 256);
    lemma_mod_division_less_than_divisor(u / 256, 256);
    lemma_div_pos_is_pos(u / 256, 256);
    lemma_fundamental_div_mod(u / 65536, 256);
    lemma_mod_division_less_than_divisor(u / 65536, 256);
    lemma_div_pos_is_pos(u / 65536, 256);
    lemma_multiply_divide_lt(u, 16777216, 256);
    assert((u / 256) / 256 == u / 65536) by {
        vstd::arithmetic::div_mod::lemma_div_denominator(u, 256, 256);
    }
    assert((u / 65536) / 256 == u / 16777216) by {
        vstd::arithmetic::div_mod::lemma_div_denominator(u, 65536, 256);
    }
}

/// Law: every 16-bit value in range, encoded little-endian, decodes back to
/// itself; `read_le_i16` therefore round-trips the full `i16` range.
pub proof fn lemma_le_i16_round_trip(v: int)
    requires
        -32768 <= v < 32768,
    ensures
        le_i16(enc_le_i16(v)[0], enc_le_i16(v)[1]) == v,
{
    let u = if v < 0 { v + 65536int } else { v };
    lemma_le_u16_decomposition(u);
}

/// Law: every 24-bit value in range, encoded little-endian, decodes back to
/// itself; `read_le_i24` therefore round-trips the full 24-bit signed range.
pub proof fn lemma_le_i24_round_trip(v: int)
    requires
        -8388608 <= v < 8388608,
    ensures
        le_i24(enc_le_i24(v)[0], enc_le_i24(v)[1], enc_le_i24(v)[2]) == v,
{
    let u = if v < 0 { v + 16777216int } else { v };
    lemma_le_u24_decomposition(u);
}

/// Law: every 32-bit value in range, encoded little-endian, decodes back to
/// itself; `read_le_i32` therefore round-trips the full `i32` range.
pub proof fn lemma_le_i32_round_trip(v: int)
    requires
        -2147483648 <= v < 2147483648,
    ensures
        le_i32(enc_le_i32(v)[0], enc_le_i32(v)[1], enc_le_i32(v)[2], enc_le_i32(v)[3]) == v,
{
    let u = if v < 0 { v + 4294967296int } else { v };
    lemma_le_u32_decomposition(u);
}

} // verus!
