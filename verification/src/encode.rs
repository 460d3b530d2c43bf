//! Writing values as bytes.

use vstd::prelude::*;
use vstd::utf8::encode_utf8;
use crate::msgpack::{
    enc_i8, enc_u8, enc_i16, enc_u16, enc_i32, enc_u32, enc_i64, enc_u64, enc_str,
    mp_write_i8, mp_write_u8, mp_write_i16, mp_write_u16, mp_write_i32, mp_write_u32,
    mp_write_i64, mp_write_u64, mp_write_str,
};

verus! {

/// A value that can be written as bytes. `spec_encode` gives the bytes written for a value,
/// by its view; `encode` appends exactly those bytes to the buffer.
pub trait Encode: View {
    spec fn spec_encode(v: Self::V) -> Seq<u8>;

    fn encode(&self, buf: &mut Vec<u8>)
        ensures
            final(buf)@ == old(buf)@ + Self::spec_encode(self@),
    ;
}

impl Encode for i8 {
    open spec fn spec_encode(v: i8) -> Seq<u8> {
        enc_i8(v)
    }

    fn encode(&self, buf: &mut Vec<u8>) {
        mp_write_i8(buf, *self);
    }
}

impl Encode for u8 {
    open spec fn spec_encode(v: u8) -> Seq<u8> {
        enc_u8(v)
    }

    fn encode(&self, buf: &mut Vec<u8>) {
        mp_write_u8(buf, *self);
    }
}

impl Encode for i16 {
    open spec fn spec_encode(v: i16) -> Seq<u8> {
        enc_i16(v)
    }

    fn encode(&self, buf: &mut Vec<u8>) {
        mp_write_i16(buf, *self);
    }
}

impl Encode for u16 {
    open spec fn spec_encode(v: u16) -> Seq<u8> {
        enc_u16(v)
    }

    fn encode(&self, buf: &mut Vec<u8>) {
        mp_write_u16(buf, *self);
    }
}

impl Encode for i32 {
    open spec fn spec_encode(v: i32) -> Seq<u8> {
        enc_i32(v)
    }

    fn encode(&self, buf: &mut Vec<u8>) {
        mp_write_i32(buf, *self);
    }
}

impl Encode for u32 {
    open spec fn spec_encode(v: u32) -> Seq<u8> {
        enc_u32(v)
    }

    fn encode(&self, buf: &mut Vec<u8>) {
        mp_write_u32(buf, *self);
    }
}

impl Encode for i64 {
    open spec fn spec_encode(v: i64) -> Seq<u8> {
        enc_i64(v)
    }

    fn encode(&self, buf: &mut Vec<u8>) {
        mp_write_i64(buf, *self);
    }
}

impl Encode for u64 {
    open spec fn spec_encode(v: u64) -> Seq<u8> {
        enc_u64(v)
    }

    fn encode(&self, buf: &mut Vec<u8>) {
        mp_write_u64(buf, *self);
    }
}

impl<'a> Encode for &'a str {
    open spec fn spec_encode(v: Seq<char>) -> Seq<u8> {
        enc_str(encode_utf8(v))
    }

    fn encode(&self, buf: &mut Vec<u8>) {
        mp_write_str(buf, *self);
    }
}

impl Encode for String {
    open spec fn spec_encode(v: Seq<char>) -> Seq<u8> {
        enc_str(encode_utf8(v))
    }

    fn encode(&self, buf: &mut Vec<u8>) {
        let s: &str = self.as_str();
        s.encode(buf);
    }
}

} // verus!
