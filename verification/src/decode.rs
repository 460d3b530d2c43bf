//! Reading values back from their encoded bytes.

use vstd::prelude::*;
use vstd::utf8::decode_utf8;
use crate::msgpack::{
    dec_bool, dec_i8, dec_u8, dec_i16, dec_u16, dec_i32, dec_u32, dec_i64, dec_u64, dec_str,
    dec_str_header, mp_read_bool, mp_read_i8, mp_read_u8, mp_read_i16, mp_read_u16, mp_read_i32,
    mp_read_u32, mp_read_i64, mp_read_u64, mp_read_str_len, mp_read_str,
};

verus! {

/// Reasons that reading a value from bytes fails.
#[derive(Debug, Clone, Copy, PartialEq, Eq, Structural)]
pub enum DecodeError {
    /// The input ended before a MessagePack marker.
    MarkerRead,
    /// The input ended inside the data that follows a marker.
    DataRead,
    /// The marker found (given) is not one of the expected type.
    TypeMismatch(u8),
    /// A string's length (given) exceeds the buffer it is read into.
    BufferTooSmall(u32),
    /// A string's bytes are not valid UTF-8.
    InvalidUtf8,
    /// A packet tag (given) names no packet type.
    InvalidPacketType(u8),
    /// A connection packet carried the wrong magic number.
    InvalidConnectionMagic,
    /// A disconnection packet carried the wrong magic number.
    InvalidDisconnectionMagic,
    /// The packet is not a custom packet.
    NotCustom,
}


/// A value that can be read back from bytes. `spec_decode` gives, for the bytes at the start of
/// the input, the view of the value read and the number of bytes it takes, or the error;
/// `decode` reads the value accordingly. Bytes after the value are left unread.
pub trait Decode: Sized + View {
    spec fn spec_decode(s: Seq<u8>) -> Result<(Self::V, nat), DecodeError>;

    fn decode(input: &[u8]) -> (r: Result<(Self, usize), DecodeError>)
        ensures
            decoded_as::<Self>(r, Self::spec_decode(input@)),
            r matches Ok((_, n)) ==> n <= input.len(),
    ;
}

/// `r` is what `expected` says: the value (by its view) and the count on success, the same
/// error on failure.
pub open spec fn decoded_as<T: View>(r: Result<(T, usize), DecodeError>, expected: Result<(T::V, nat), DecodeError>) -> bool {
    match expected {
        Ok((v, n)) => r matches Ok((w, m)) && w@ == v && m == n,
        Err(e) => r matches Err(e2) && e2 == e,
    }
}

impl Decode for bool {
    open spec fn spec_decode(s: Seq<u8>) -> Result<(bool, nat), DecodeError> {
        dec_bool(s)
    }

    fn decode(input: &[u8]) -> (r: Result<(bool, usize), DecodeError>) {
        match mp_read_bool(input) {
            Ok((v, rest)) => Ok((v, input.len() - rest.len())),
            Err(e) => Err(e),
        }
    }
}

impl Decode for i8 {
    open spec fn spec_decode(s: Seq<u8>) -> Result<(i8, nat), DecodeError> {
        dec_i8(s)
    }

    fn decode(input: &[u8]) -> (r: Result<(i8, usize), DecodeError>) {
        match mp_read_i8(input) {
            Ok((v, rest)) => Ok((v, input.len() - rest.len())),
            Err(e) => Err(e),
        }
    }
}

impl Decode for u8 {
    open spec fn spec_decode(s: Seq<u8>) -> Result<(u8, nat), DecodeError> {
        dec_u8(s)
    }

    fn decode(input: &[u8]) -> (r: Result<(u8, usize), DecodeError>) {
        match mp_read_u8(input) {
            Ok((v, rest)) => Ok((v, input.len() - rest.len())),
            Err(e) => Err(e),
        }
    }
}

impl Decode for i16 {
    open spec fn spec_decode(s: Seq<u8>) -> Result<(i16, nat), DecodeError> {
        dec_i16(s)
    }

    fn decode(input: &[u8]) -> (r: Result<(i16, usize), DecodeError>) {
        match mp_read_i16(input) {
            Ok((v, rest)) => Ok((v, input.len() - rest.len())),
            Err(e) => Err(e),
        }
    }
}

impl Decode for u16 {
    open spec fn spec_decode(s: Seq<u8>) -> Result<(u16, nat), DecodeError> {
        dec_u16(s)
    }

    fn decode(input: &[u8]) -> (r: Result<(u16, usize), DecodeError>) {
        match mp_read_u16(input) {
            Ok((v, rest)) => Ok((v, input.len() - rest.len())),
            Err(e) => Err(e),
        }
    }
}

impl Decode for i32 {
    open spec fn spec_decode(s: Seq<u8>) -> Result<(i32, nat), DecodeError> {
        dec_i32(s)
    }

    fn decode(input: &[u8]) -> (r: Result<(i32, usize), DecodeError>) {
        match mp_read_i32(input) {
            Ok((v, rest)) => Ok((v, input.len() - rest.len())),
            Err(e) => Err(e),
        }
    }
}

impl Decode for u32 {
    open spec fn spec_decode(s: Seq<u8>) -> Result<(u32, nat), DecodeError> {
        dec_u32(s)
    }

    fn decode(input: &[u8]) -> (r: Result<(u32, usize), DecodeError>) {
        match mp_read_u32(input) {
            Ok((v, rest)) => Ok((v, input.len() - rest.len())),
            Err(e) => Err(e),
        }
    }
}

impl Decode for i64 {
    open spec fn spec_decode(s: Seq<u8>) -> Result<(i64, nat), DecodeError> {
        dec_i64(s)
    }

    fn decode(input: &[u8]) -> (r: Result<(i64, usize), DecodeError>) {
        match mp_read_i64(input) {
            Ok((v, rest)) => Ok((v, input.len() - rest.len())),
            Err(e) => Err(e),
        }
    }
}

impl Decode for u64 {
    open spec fn spec_decode(s: Seq<u8>) -> Result<(u64, nat), DecodeError> {
        dec_u64(s)
    }

    fn decode(input: &[u8]) -> (r: Result<(u64, usize), DecodeError>) {
        match mp_read_u64(input) {
            Ok((v, rest)) => Ok((v, input.len() - rest.len())),
            Err(e) => Err(e),
        }
    }
}

impl Decode for String {
    open spec fn spec_decode(s: Seq<u8>) -> Result<(Seq<char>, nat), DecodeError> {
        dec_str(s)
    }

    fn decode(input: &[u8]) -> (r: Result<(String, usize), DecodeError>) {
        // The header gives the length, so the buffer the text is read into fits it exactly.
        let len = match mp_read_str_len(input) {
            Ok((len, _)) => len,
            Err(e) => return Err(e),
        };
        let mut buffer: Vec<u8> = vec![0u8; len as usize];
        match mp_read_str(input, &mut buffer) {
            Ok((text, rest)) => {
                proof {
                    let bytes = input@.subrange(dec_str_header(input@)->Ok_0.1 as int, (dec_str_header(input@)->Ok_0.1 + len) as int);
                    vstd::utf8::encode_utf8_decode_utf8(text@);
                    assert(decode_utf8(bytes) == text@);
                }
                Ok((text, input.len() - rest.len()))
            },
            Err(e) => Err(e),
        }
    }
}

} // verus!
