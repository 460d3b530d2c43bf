//! The MessagePack forms this crate writes and reads, and the calls into `rmp` that
//! write and read them.
//!
//! Writes go through `rmp::encode::ByteBuf`, whose writes cannot fail; reads go
//! through `rmp::decode::Bytes`, which fails exactly when the input runs out.

use vstd::prelude::*;
use vstd::utf8::{encode_utf8, decode_utf8, valid_utf8};
use rmp::encode::ByteBuf;
use rmp::decode::{Bytes, ValueReadError, DecodeStringError};
use crate::decode::DecodeError;

verus! {

pub const MARKER_FALSE: u8 = 0xc2;
pub const MARKER_TRUE: u8 = 0xc3;
pub const MARKER_U8: u8 = 0xcc;
pub const MARKER_U16: u8 = 0xcd;
pub const MARKER_U32: u8 = 0xce;
pub const MARKER_U64: u8 = 0xcf;
pub const MARKER_I8: u8 = 0xd0;
pub const MARKER_I16: u8 = 0xd1;
pub const MARKER_I32: u8 = 0xd2;
pub const MARKER_I64: u8 = 0xd3;
pub const MARKER_FIXSTR: u8 = 0xa0;
pub const MARKER_STR8: u8 = 0xd9;
pub const MARKER_STR16: u8 = 0xda;
pub const MARKER_STR32: u8 = 0xdb;

// ---------------------------------------------------------------------------
// Big-endian byte layouts

/// Big-endian bytes of a 16-bit value.
pub open spec fn be16(v: u16) -> Seq<u8> {
    seq![(v >> 8u16) as u8, v as u8]
}

/// Big-endian bytes of a 32-bit value.
pub open spec fn be32(v: u32) -> Seq<u8> {
    seq![(v >> 24u32) as u8, (v >> 16u32) as u8, (v >> 8u32) as u8, v as u8]
}

/// Big-endian bytes of a 64-bit value.
pub open spec fn be64(v: u64) -> Seq<u8> {
    seq![
        (v >> 56u64) as u8, (v >> 48u64) as u8, (v >> 40u64) as u8, (v >> 32u64) as u8,
        (v >> 24u64) as u8, (v >> 16u64) as u8, (v >> 8u64) as u8, v as u8,
    ]
}

pub open spec fn be16_value(b0: u8, b1: u8) -> u16 {
    ((b0 as u16) << 8u16) | (b1 as u16)
}

pub open spec fn be32_value(b0: u8, b1: u8, b2: u8, b3: u8) -> u32 {
    ((b0 as u32) << 24u32) | ((b1 as u32) << 16u32) | ((b2 as u32) << 8u32) | (b3 as u32)
}

pub open spec fn be64_value(b0: u8, b1: u8, b2: u8, b3: u8, b4: u8, b5: u8, b6: u8, b7: u8) -> u64 {
    ((b0 as u64) << 56u64) | ((b1 as u64) << 48u64) | ((b2 as u64) << 40u64) | ((b3 as u64) << 32u64)
        | ((b4 as u64) << 24u64) | ((b5 as u64) << 16u64) | ((b6 as u64) << 8u64) | (b7 as u64)
}

/// The 16-bit value whose big-endian bytes start `s`.
pub open spec fn from_be16(s: Seq<u8>) -> u16 {
    be16_value(s[0], s[1])
}

/// The 32-bit value whose big-endian bytes start `s`.
pub open spec fn from_be32(s: Seq<u8>) -> u32 {
    be32_value(s[0], s[1], s[2], s[3])
}

/// The 64-bit value whose big-endian bytes start `s`.
pub open spec fn from_be64(s: Seq<u8>) -> u64 {
    be64_value(s[0], s[1], s[2], s[3], s[4], s[5], s[6], s[7])
}

// ---------------------------------------------------------------------------
// What is written

pub open spec fn enc_u8(v: u8) -> Seq<u8> {
    seq![MARKER_U8, v]
}

pub open spec fn enc_i8(v: i8) -> Seq<u8> {
    seq![MARKER_I8, v as u8]
}

pub open spec fn enc_u16(v: u16) -> Seq<u8> {
    seq![MARKER_U16] + be16(v)
}

pub open spec fn enc_i16(v: i16) -> Seq<u8> {
    seq![MARKER_I16] + be16(v as u16)
}

pub open spec fn enc_u32(v: u32) -> Seq<u8> {
    seq![MARKER_U32] + be32(v)
}

pub open spec fn enc_i32(v: i32) -> Seq<u8> {
    seq![MARKER_I32] + be32(v as u32)
}

pub open spec fn enc_u64(v: u64) -> Seq<u8> {
    seq![MARKER_U64] + be64(v)
}

pub open spec fn enc_i64(v: i64) -> Seq<u8> {
    seq![MARKER_I64] + be64(v as u64)
}

/// The header of a string of `n` bytes: the shortest of fixstr, str8, str16, str32.
pub open spec fn str_header(n: u32) -> Seq<u8> {
    if n < 32 {
        seq![(MARKER_FIXSTR + n) as u8]
    } else if n < 256 {
        seq![MARKER_STR8, n as u8]
    } else if n < 65536 {
        seq![MARKER_STR16] + be16(n as u16)
    } else {
        seq![MARKER_STR32] + be32(n)
    }
}

/// A string whose UTF-8 bytes are `bytes`: its header, then the bytes. The header holds the
/// length taken modulo 2^32, as the length is cast to `u32` before it is written.
pub open spec fn enc_str(bytes: Seq<u8>) -> Seq<u8> {
    str_header(bytes.len() as u32) + bytes
}

// ---------------------------------------------------------------------------
// What is read

/// What reading a value stored as `marker` followed by `width` data bytes gives:
/// the data bytes, or the reason it fails.
pub open spec fn read_fixed(s: Seq<u8>, marker: u8, width: nat) -> Result<Seq<u8>, DecodeError> {
    if s.len() == 0 {
        Err(DecodeError::MarkerRead)
    } else if s[0] != marker {
        Err(DecodeError::TypeMismatch(s[0]))
    } else if s.len() < 1 + width {
        Err(DecodeError::DataRead)
    } else {
        Ok(s.subrange(1, 1 + width as int))
    }
}

pub open spec fn dec_u8(s: Seq<u8>) -> Result<(u8, nat), DecodeError> {
    match read_fixed(s, MARKER_U8, 1) {
        Ok(d) => Ok((d[0], 2)),
        Err(e) => Err(e),
    }
}

pub open spec fn dec_i8(s: Seq<u8>) -> Result<(i8, nat), DecodeError> {
    match read_fixed(s, MARKER_I8, 1) {
        Ok(d) => Ok((d[0] as i8, 2)),
        Err(e) => Err(e),
    }
}

pub open spec fn dec_u16(s: Seq<u8>) -> Result<(u16, nat), DecodeError> {
    match read_fixed(s, MARKER_U16, 2) {
        Ok(d) => Ok((from_be16(d), 3)),
        Err(e) => Err(e),
    }
}

pub open spec fn dec_i16(s: Seq<u8>) -> Result<(i16, nat), DecodeError> {
    match read_fixed(s, MARKER_I16, 2) {
        Ok(d) => Ok((from_be16(d) as i16, 3)),
        Err(e) => Err(e),
    }
}

pub open spec fn dec_u32(s: Seq<u8>) -> Result<(u32, nat), DecodeError> {
    match read_fixed(s, MARKER_U32, 4) {
        Ok(d) => Ok((from_be32(d), 5)),
        Err(e) => Err(e),
    }
}

pub open spec fn dec_i32(s: Seq<u8>) -> Result<(i32, nat), DecodeError> {
    match read_fixed(s, MARKER_I32, 4) {
        Ok(d) => Ok((from_be32(d) as i32, 5)),
        Err(e) => Err(e),
    }
}

pub open spec fn dec_u64(s: Seq<u8>) -> Result<(u64, nat), DecodeError> {
    match read_fixed(s, MARKER_U64, 8) {
        Ok(d) => Ok((from_be64(d), 9)),
        Err(e) => Err(e),
    }
}

pub open spec fn dec_i64(s: Seq<u8>) -> Result<(i64, nat), DecodeError> {
    match read_fixed(s, MARKER_I64, 8) {
        Ok(d) => Ok((from_be64(d) as i64, 9)),
        Err(e) => Err(e),
    }
}

pub open spec fn dec_bool(s: Seq<u8>) -> Result<(bool, nat), DecodeError> {
    if s.len() == 0 {
        Err(DecodeError::MarkerRead)
    } else if s[0] == MARKER_TRUE {
        Ok((true, 1))
    } else if s[0] == MARKER_FALSE {
        Ok((false, 1))
    } else {
        Err(DecodeError::TypeMismatch(s[0]))
    }
}

/// What reading a string header gives: the string's length in bytes and the header's length.
pub open spec fn dec_str_header(s: Seq<u8>) -> Result<(u32, nat), DecodeError> {
    if s.len() == 0 {
        Err(DecodeError::MarkerRead)
    } else if MARKER_FIXSTR <= s[0] && s[0] < MARKER_FIXSTR + 32 {
        Ok(((s[0] - MARKER_FIXSTR) as u32, 1))
    } else if s[0] == MARKER_STR8 {
        if s.len() < 2 { Err(DecodeError::DataRead) } else { Ok((s[1] as u32, 2)) }
    } else if s[0] == MARKER_STR16 {
        if s.len() < 3 { Err(DecodeError::DataRead) } else { Ok((from_be16(s.subrange(1, 3)) as u32, 3)) }
    } else if s[0] == MARKER_STR32 {
        if s.len() < 5 { Err(DecodeError::DataRead) } else { Ok((from_be32(s.subrange(1, 5)), 5)) }
    } else {
        Err(DecodeError::TypeMismatch(s[0]))
    }
}

/// What reading a whole string gives: its characters and the number of bytes it takes.
pub open spec fn dec_str(s: Seq<u8>) -> Result<(Seq<char>, nat), DecodeError> {
    match dec_str_header(s) {
        Err(e) => Err(e),
        Ok((len, h)) => {
            if s.len() < h + len {
                Err(DecodeError::DataRead)
            } else if !valid_utf8(s.subrange(h as int, h + len)) {
                Err(DecodeError::InvalidUtf8)
            } else {
                Ok((decode_utf8(s.subrange(h as int, h + len)), (h + len) as nat))
            }
        }
    }
}

/// A read from `input` gave `r` as `expected` says: on success the value and the unread
/// rest of `input` after the bytes that `expected` counts; on failure the same error.
pub open spec fn read_gives<T>(r: Result<(T, &[u8]), DecodeError>, input: Seq<u8>, expected: Result<(T, nat), DecodeError>) -> bool {
    match expected {
        Ok((v, n)) => r matches Ok((w, rest)) && w == v && n <= input.len() && rest@ == input.skip(n as int),
        Err(e) => r matches Err(e2) && e2 == e,
    }
}


// ---------------------------------------------------------------------------
// Reading back what was written

proof fn lemma_be16(v: u16)
    ensures
        from_be16(be16(v)) == v,
{
    assert(be16_value((v >> 8u16) as u8, v as u8) == v) by (bit_vector);
}

proof fn lemma_be32(v: u32)
    ensures
        from_be32(be32(v)) == v,
{
    assert(be32_value((v >> 24u32) as u8, (v >> 16u32) as u8, (v >> 8u32) as u8, v as u8) == v)
        by (bit_vector);
}

proof fn lemma_be64(v: u64)
    ensures
        from_be64(be64(v)) == v,
{
    assert(be64_value(
        (v >> 56u64) as u8, (v >> 48u64) as u8, (v >> 40u64) as u8, (v >> 32u64) as u8,
        (v >> 24u64) as u8, (v >> 16u64) as u8, (v >> 8u64) as u8, v as u8,
    ) == v) by (bit_vector);
}

proof fn lemma_read_fixed(marker: u8, data: Seq<u8>, rest: Seq<u8>)
    ensures
        read_fixed(seq![marker] + data + rest, marker, data.len()) == Ok::<Seq<u8>, DecodeError>(data),
{
    let s = seq![marker] + data + rest;
    assert(s[0] == marker);
    assert(s.subrange(1, 1 + data.len() as int) =~= data);
}

/// An 8-bit unsigned integer reads back as itself, whatever follows it.
pub proof fn lemma_u8_roundtrip(v: u8, rest: Seq<u8>)
    ensures
        dec_u8(enc_u8(v) + rest) == Ok::<(u8, nat), DecodeError>((v, 2)),
{
    assert(enc_u8(v) + rest =~= seq![MARKER_U8] + seq![v] + rest);
    lemma_read_fixed(MARKER_U8, seq![v], rest);
}

/// An 8-bit signed integer reads back as itself, whatever follows it.
pub proof fn lemma_i8_roundtrip(v: i8, rest: Seq<u8>)
    ensures
        dec_i8(enc_i8(v) + rest) == Ok::<(i8, nat), DecodeError>((v, 2)),
{
    assert(enc_i8(v) + rest =~= seq![MARKER_I8] + seq![v as u8] + rest);
    lemma_read_fixed(MARKER_I8, seq![v as u8], rest);
    assert((v as u8) as i8 == v) by (bit_vector);
}

/// A 16-bit unsigned integer reads back as itself, whatever follows it.
pub proof fn lemma_u16_roundtrip(v: u16, rest: Seq<u8>)
    ensures
        dec_u16(enc_u16(v) + rest) == Ok::<(u16, nat), DecodeError>((v, 3)),
{
    lemma_read_fixed(MARKER_U16, be16(v), rest);
    lemma_be16(v);
}

/// A 16-bit signed integer reads back as itself, whatever follows it.
pub proof fn lemma_i16_roundtrip(v: i16, rest: Seq<u8>)
    ensures
        dec_i16(enc_i16(v) + rest) == Ok::<(i16, nat), DecodeError>((v, 3)),
{
    lemma_read_fixed(MARKER_I16, be16(v as u16), rest);
    lemma_be16(v as u16);
    assert((v as u16) as i16 == v) by (bit_vector);
}

/// A 32-bit unsigned integer reads back as itself, whatever follows it.
pub proof fn lemma_u32_roundtrip(v: u32, rest: Seq<u8>)
    ensures
        dec_u32(enc_u32(v) + rest) == Ok::<(u32, nat), DecodeError>((v, 5)),
{
    lemma_read_fixed(MARKER_U32, be32(v), rest);
    lemma_be32(v);
}

/// A 32-bit signed integer reads back as itself, whatever follows it.
pub proof fn lemma_i32_roundtrip(v: i32, rest: Seq<u8>)
    ensures
        dec_i32(enc_i32(v) + rest) == Ok::<(i32, nat), DecodeError>((v, 5)),
{
    lemma_read_fixed(MARKER_I32, be32(v as u32), rest);
    lemma_be32(v as u32);
    assert((v as u32) as i32 == v) by (bit_vector);
}

/// A 64-bit unsigned integer reads back as itself, whatever follows it.
pub proof fn lemma_u64_roundtrip(v: u64, rest: Seq<u8>)
    ensures
        dec_u64(enc_u64(v) + rest) == Ok::<(u64, nat), DecodeError>((v, 9)),
{
    lemma_read_fixed(MARKER_U64, be64(v), rest);
    lemma_be64(v);
}

/// A 64-bit signed integer reads back as itself, whatever follows it.
pub proof fn lemma_i64_roundtrip(v: i64, rest: Seq<u8>)
    ensures
        dec_i64(enc_i64(v) + rest) == Ok::<(i64, nat), DecodeError>((v, 9)),
{
    lemma_read_fixed(MARKER_I64, be64(v as u64), rest);
    lemma_be64(v as u64);
    assert((v as u64) as i64 == v) by (bit_vector);
}

/// A string header reads back as the length it was written for.
pub proof fn lemma_str_header_roundtrip(n: u32, rest: Seq<u8>)
    ensures
        dec_str_header(str_header(n) + rest) == Ok::<(u32, nat), DecodeError>((n, str_header(n).len())),
{
    let s = str_header(n) + rest;
    if n < 32 {
    } else if n < 256 {
    } else if n < 65536 {
        assert(s.subrange(1, 3) =~= be16(n as u16));
        lemma_be16(n as u16);
    } else {
        assert(s.subrange(1, 5) =~= be32(n));
        lemma_be32(n);
    }
}

/// A string of fewer than 2^32 UTF-8 bytes reads back as its characters, whatever follows it.
pub proof fn lemma_str_roundtrip(chars: Seq<char>, rest: Seq<u8>)
    requires
        encode_utf8(chars).len() <= u32::MAX,
    ensures
        dec_str(enc_str(encode_utf8(chars)) + rest)
            == Ok::<(Seq<char>, nat), DecodeError>((chars, enc_str(encode_utf8(chars)).len())),
{
    let bytes = encode_utf8(chars);
    let n = bytes.len() as u32;
    let h = str_header(n);
    let s = enc_str(bytes) + rest;
    assert(s =~= h + (bytes + rest));
    lemma_str_header_roundtrip(n, bytes + rest);
    assert(s.subrange(h.len() as int, h.len() + n) =~= bytes);
    vstd::utf8::encode_utf8_valid_utf8(chars);
    vstd::utf8::encode_utf8_decode_utf8(chars);
}


// ---------------------------------------------------------------------------
// Calls into rmp

/// `rmp::encode::write_u8` into a `ByteBuf` (whose writes cannot fail): appends the marker 0xcc and the byte.
#[verifier::external_body]
pub(crate) fn mp_write_u8(buf: &mut Vec<u8>, v: u8)
    ensures
        final(buf)@ == old(buf)@ + enc_u8(v),
{
    let mut out = ByteBuf::from_vec(std::mem::take(buf));
    let _ = rmp::encode::write_u8(&mut out, v);
    *buf = out.into_vec();
}

/// `rmp::encode::write_i8` into a `ByteBuf` (whose writes cannot fail): appends the marker 0xd0 and the byte.
#[verifier::external_body]
pub(crate) fn mp_write_i8(buf: &mut Vec<u8>, v: i8)
    ensures
        final(buf)@ == old(buf)@ + enc_i8(v),
{
    let mut out = ByteBuf::from_vec(std::mem::take(buf));
    let _ = rmp::encode::write_i8(&mut out, v);
    *buf = out.into_vec();
}

/// `rmp::encode::write_u16` into a `ByteBuf` (whose writes cannot fail): appends the marker 0xcd and two big-endian bytes.
#[verifier::external_body]
pub(crate) fn mp_write_u16(buf: &mut Vec<u8>, v: u16)
    ensures
        final(buf)@ == old(buf)@ + enc_u16(v),
{
    let mut out = ByteBuf::from_vec(std::mem::take(buf));
    let _ = rmp::encode::write_u16(&mut out, v);
    *buf = out.into_vec();
}

/// `rmp::encode::write_i16` into a `ByteBuf` (whose writes cannot fail): appends the marker 0xd1 and two big-endian bytes.
#[verifier::external_body]
pub(crate) fn mp_write_i16(buf: &mut Vec<u8>, v: i16)
    ensures
        final(buf)@ == old(buf)@ + enc_i16(v),
{
    let mut out = ByteBuf::from_vec(std::mem::take(buf));
    let _ = rmp::encode::write_i16(&mut out, v);
    *buf = out.into_vec();
}

/// `rmp::encode::write_u32` into a `ByteBuf` (whose writes cannot fail): appends the marker 0xce and four big-endian bytes.
#[verifier::external_body]
pub(crate) fn mp_write_u32(buf: &mut Vec<u8>, v: u32)
    ensures
        final(buf)@ == old(buf)@ + enc_u32(v),
{
    let mut out = ByteBuf::from_vec(std::mem::take(buf));
    let _ = rmp::encode::write_u32(&mut out, v);
    *buf = out.into_vec();
}

/// `rmp::encode::write_i32` into a `ByteBuf` (whose writes cannot fail): appends the marker 0xd2 and four big-endian bytes.
#[verifier::external_body]
pub(crate) fn mp_write_i32(buf: &mut Vec<u8>, v: i32)
    ensures
        final(buf)@ == old(buf)@ + enc_i32(v),
{
    let mut out = ByteBuf::from_vec(std::mem::take(buf));
    let _ = rmp::encode::write_i32(&mut out, v);
    *buf = out.into_vec();
}

/// `rmp::encode::write_u64` into a `ByteBuf` (whose writes cannot fail): appends the marker 0xcf and eight big-endian bytes.
#[verifier::external_body]
pub(crate) fn mp_write_u64(buf: &mut Vec<u8>, v: u64)
    ensures
        final(buf)@ == old(buf)@ + enc_u64(v),
{
    let mut out = ByteBuf::from_vec(std::mem::take(buf));
    let _ = rmp::encode::write_u64(&mut out, v);
    *buf = out.into_vec();
}

/// `rmp::encode::write_i64` into a `ByteBuf` (whose writes cannot fail): appends the marker 0xd3 and eight big-endian bytes.
#[verifier::external_body]
pub(crate) fn mp_write_i64(buf: &mut Vec<u8>, v: i64)
    ensures
        final(buf)@ == old(buf)@ + enc_i64(v),
{
    let mut out = ByteBuf::from_vec(std::mem::take(buf));
    let _ = rmp::encode::write_i64(&mut out, v);
    *buf = out.into_vec();
}

/// `rmp::encode::write_str` into a `ByteBuf` (whose writes cannot fail): appends the header for
/// the string's byte length cast to `u32` (`rmp::encode::write_str_len`), then its UTF-8 bytes.
#[verifier::external_body]
pub(crate) fn mp_write_str(buf: &mut Vec<u8>, s: &str)
    ensures
        final(buf)@ == old(buf)@ + enc_str(encode_utf8(s@)),
{
    let mut out = ByteBuf::from_vec(std::mem::take(buf));
    let _ = rmp::encode::write_str(&mut out, s);
    *buf = out.into_vec();
}

/// `rmp::decode::read_u8` from a `Bytes` reader over `input`: reads the marker 0xcc and the byte; fails when the input
/// ends before the marker or inside the data, or when the marker (reported as its byte) differs.
#[verifier::external_body]
pub(crate) fn mp_read_u8(input: &[u8]) -> (r: Result<(u8, &[u8]), DecodeError>)
    ensures
        read_gives(r, input@, dec_u8(input@)),
{
    let mut rd = Bytes::new(input);
    match rmp::decode::read_u8(&mut rd) {
        Ok(v) => Ok((v, rd.remaining_slice())),
        Err(ValueReadError::InvalidMarkerRead(_)) => Err(DecodeError::MarkerRead),
        Err(ValueReadError::InvalidDataRead(_)) => Err(DecodeError::DataRead),
        Err(ValueReadError::TypeMismatch(m)) => Err(DecodeError::TypeMismatch(m.to_u8())),
    }
}

/// `rmp::decode::read_i8` from a `Bytes` reader over `input`: reads the marker 0xd0 and the byte; fails when the input
/// ends before the marker or inside the data, or when the marker (reported as its byte) differs.
#[verifier::external_body]
pub(crate) fn mp_read_i8(input: &[u8]) -> (r: Result<(i8, &[u8]), DecodeError>)
    ensures
        read_gives(r, input@, dec_i8(input@)),
{
    let mut rd = Bytes::new(input);
    match rmp::decode::read_i8(&mut rd) {
        Ok(v) => Ok((v, rd.remaining_slice())),
        Err(ValueReadError::InvalidMarkerRead(_)) => Err(DecodeError::MarkerRead),
        Err(ValueReadError::InvalidDataRead(_)) => Err(DecodeError::DataRead),
        Err(ValueReadError::TypeMismatch(m)) => Err(DecodeError::TypeMismatch(m.to_u8())),
    }
}

/// `rmp::decode::read_u16` from a `Bytes` reader over `input`: reads the marker 0xcd and two big-endian bytes; fails when the input
/// ends before the marker or inside the data, or when the marker (reported as its byte) differs.
#[verifier::external_body]
pub(crate) fn mp_read_u16(input: &[u8]) -> (r: Result<(u16, &[u8]), DecodeError>)
    ensures
        read_gives(r, input@, dec_u16(input@)),
{
    let mut rd = Bytes::new(input);
    match rmp::decode::read_u16(&mut rd) {
        Ok(v) => Ok((v, rd.remaining_slice())),
        Err(ValueReadError::InvalidMarkerRead(_)) => Err(DecodeError::MarkerRead),
        Err(ValueReadError::InvalidDataRead(_)) => Err(DecodeError::DataRead),
        Err(ValueReadError::TypeMismatch(m)) => Err(DecodeError::TypeMismatch(m.to_u8())),
    }
}

/// `rmp::decode::read_i16` from a `Bytes` reader over `input`: reads the marker 0xd1 and two big-endian bytes; fails when the input
/// ends before the marker or inside the data, or when the marker (reported as its byte) differs.
#[verifier::external_body]
pub(crate) fn mp_read_i16(input: &[u8]) -> (r: Result<(i16, &[u8]), DecodeError>)
    ensures
        read_gives(r, input@, dec_i16(input@)),
{
    let mut rd = Bytes::new(input);
    match rmp::decode::read_i16(&mut rd) {
        Ok(v) => Ok((v, rd.remaining_slice())),
        Err(ValueReadError::InvalidMarkerRead(_)) => Err(DecodeError::MarkerRead),
        Err(ValueReadError::InvalidDataRead(_)) => Err(DecodeError::DataRead),
        Err(ValueReadError::TypeMismatch(m)) => Err(DecodeError::TypeMismatch(m.to_u8())),
    }
}

/// `rmp::decode::read_u32` from a `Bytes` reader over `input`: reads the marker 0xce and four big-endian bytes; fails when the input
/// ends before the marker or inside the data, or when the marker (reported as its byte) differs.
#[verifier::external_body]
pub(crate) fn mp_read_u32(input: &[u8]) -> (r: Result<(u32, &[u8]), DecodeError>)
    ensures
        read_gives(r, input@, dec_u32(input@)),
{
    let mut rd = Bytes::new(input);
    match rmp::decode::read_u32(&mut rd) {
        Ok(v) => Ok((v, rd.remaining_slice())),
        Err(ValueReadError::InvalidMarkerRead(_)) => Err(DecodeError::MarkerRead),
        Err(ValueReadError::InvalidDataRead(_)) => Err(DecodeError::DataRead),
        Err(ValueReadError::TypeMismatch(m)) => Err(DecodeError::TypeMismatch(m.to_u8())),
    }
}

/// `rmp::decode::read_i32` from a `Bytes` reader over `input`: reads the marker 0xd2 and four big-endian bytes; fails when the input
/// ends before the marker or inside the data, or when the marker (reported as its byte) differs.
#[verifier::external_body]
pub(crate) fn mp_read_i32(input: &[u8]) -> (r: Result<(i32, &[u8]), DecodeError>)
    ensures
        read_gives(r, input@, dec_i32(input@)),
{
    let mut rd = Bytes::new(input);
    match rmp::decode::read_i32(&mut rd) {
        Ok(v) => Ok((v, rd.remaining_slice())),
        Err(ValueReadError::InvalidMarkerRead(_)) => Err(DecodeError::MarkerRead),
        Err(ValueReadError::InvalidDataRead(_)) => Err(DecodeError::DataRead),
        Err(ValueReadError::TypeMismatch(m)) => Err(DecodeError::TypeMismatch(m.to_u8())),
    }
}

/// `rmp::decode::read_u64` from a `Bytes` reader over `input`: reads the marker 0xcf and eight big-endian bytes; fails when the input
/// ends before the marker or inside the data, or when the marker (reported as its byte) differs.
#[verifier::external_body]
pub(crate) fn mp_read_u64(input: &[u8]) -> (r: Result<(u64, &[u8]), DecodeError>)
    ensures
        read_gives(r, input@, dec_u64(input@)),
{
    let mut rd = Bytes::new(input);
    match rmp::decode::read_u64(&mut rd) {
        Ok(v) => Ok((v, rd.remaining_slice())),
        Err(ValueReadError::InvalidMarkerRead(_)) => Err(DecodeError::MarkerRead),
        Err(ValueReadError::InvalidDataRead(_)) => Err(DecodeError::DataRead),
        Err(ValueReadError::TypeMismatch(m)) => Err(DecodeError::TypeMismatch(m.to_u8())),
    }
}

/// `rmp::decode::read_i64` from a `Bytes` reader over `input`: reads the marker 0xd3 and eight big-endian bytes; fails when the input
/// ends before the marker or inside the data, or when the marker (reported as its byte) differs.
#[verifier::external_body]
pub(crate) fn mp_read_i64(input: &[u8]) -> (r: Result<(i64, &[u8]), DecodeError>)
    ensures
        read_gives(r, input@, dec_i64(input@)),
{
    let mut rd = Bytes::new(input);
    match rmp::decode::read_i64(&mut rd) {
        Ok(v) => Ok((v, rd.remaining_slice())),
        Err(ValueReadError::InvalidMarkerRead(_)) => Err(DecodeError::MarkerRead),
        Err(ValueReadError::InvalidDataRead(_)) => Err(DecodeError::DataRead),
        Err(ValueReadError::TypeMismatch(m)) => Err(DecodeError::TypeMismatch(m.to_u8())),
    }
}

/// `rmp::decode::read_bool` from a `Bytes` reader over `input`: reads the marker 0xc3 (true) or
/// 0xc2 (false); fails when the input is empty or the marker (reported as its byte) is another.
#[verifier::external_body]
pub(crate) fn mp_read_bool(input: &[u8]) -> (r: Result<(bool, &[u8]), DecodeError>)
    ensures
        read_gives(r, input@, dec_bool(input@)),
{
    let mut rd = Bytes::new(input);
    match rmp::decode::read_bool(&mut rd) {
        Ok(v) => Ok((v, rd.remaining_slice())),
        Err(ValueReadError::InvalidMarkerRead(_)) => Err(DecodeError::MarkerRead),
        Err(ValueReadError::InvalidDataRead(_)) => Err(DecodeError::DataRead),
        Err(ValueReadError::TypeMismatch(m)) => Err(DecodeError::TypeMismatch(m.to_u8())),
    }
}

/// `rmp::decode::read_str_len` from a `Bytes` reader over `input`: reads a fixstr, str8, str16
/// or str32 header and gives the length it holds.
#[verifier::external_body]
pub(crate) fn mp_read_str_len(input: &[u8]) -> (r: Result<(u32, &[u8]), DecodeError>)
    ensures
        read_gives(r, input@, dec_str_header(input@)),
{
    let mut rd = Bytes::new(input);
    match rmp::decode::read_str_len(&mut rd) {
        Ok(v) => Ok((v, rd.remaining_slice())),
        Err(ValueReadError::InvalidMarkerRead(_)) => Err(DecodeError::MarkerRead),
        Err(ValueReadError::InvalidDataRead(_)) => Err(DecodeError::DataRead),
        Err(ValueReadError::TypeMismatch(m)) => Err(DecodeError::TypeMismatch(m.to_u8())),
    }
}

/// `rmp::decode::read_str` from a `Bytes` reader over `input` into `buf`: reads the header, fails
/// if `buf` is shorter than the length, reads that many bytes into `buf` and checks them with
/// `core::str::from_utf8`; the text is copied out into a `String`. Of `buf` afterwards only its
/// length is stated.
#[verifier::external_body]
pub(crate) fn mp_read_str<'a>(input: &'a [u8], buf: &mut Vec<u8>) -> (r: Result<(String, &'a [u8]), DecodeError>)
    ensures
        final(buf)@.len() == old(buf)@.len(),
        match dec_str_header(input@) {
            Err(e) => r matches Err(e2) && e2 == e,
            Ok((len, h)) => {
                if old(buf)@.len() < len {
                    r matches Err(e2) && e2 == DecodeError::BufferTooSmall(len)
                } else if input@.len() < h + len {
                    r matches Err(e2) && e2 == DecodeError::DataRead
                } else if !valid_utf8(input@.subrange(h as int, h + len)) {
                    r matches Err(e2) && e2 == DecodeError::InvalidUtf8
                } else {
                    r matches Ok((text, rest)) && encode_utf8(text@) == input@.subrange(h as int, h + len)
                        && rest@ == input@.skip(h + len)
                }
            },
        },
{
    let mut rd = Bytes::new(input);
    match rmp::decode::read_str(&mut rd, buf.as_mut_slice()) {
        Ok(text) => Ok((text.to_string(), rd.remaining_slice())),
        Err(DecodeStringError::InvalidMarkerRead(_)) => Err(DecodeError::MarkerRead),
        Err(DecodeStringError::InvalidDataRead(_)) => Err(DecodeError::DataRead),
        Err(DecodeStringError::TypeMismatch(m)) => Err(DecodeError::TypeMismatch(m.to_u8())),
        Err(DecodeStringError::BufferSizeTooSmall(n)) => Err(DecodeError::BufferTooSmall(n)),
        Err(DecodeStringError::InvalidUtf8(_, _)) => Err(DecodeError::InvalidUtf8),
    }
}

} // verus!
