//! The packets' payloads: a text message, the two handshake markers, and custom bytes.

use vstd::prelude::*;
use vstd::slice::{slice_subrange, slice_to_vec};
use vstd::utf8::encode_utf8;
use crate::decode::{Decode, DecodeError};
use crate::encode::Encode;
use crate::msgpack::{enc_str, enc_u32, enc_u64, dec_str, dec_u32, dec_u64};

verus! {

/// The magic number a connection packet carries ("CONN" in ASCII).
pub const CONNECTION_MAGIC: u32 = 0x434F4E4E;

/// The magic number a disconnection packet carries ("DISC" in ASCII).
pub const DISCONNECTION_MAGIC: u32 = 0x44495354;

/// A text message.
#[derive(Clone)]
pub struct Message(pub String);

impl View for Message {
    type V = Seq<char>;

    open spec fn view(&self) -> Seq<char> {
        self.0@
    }
}

impl Message {
    pub fn new(message: &str) -> (m: Self)
        ensures
            m@ == message@,
    {
        Message(message.to_owned())
    }
}

impl Encode for Message {
    open spec fn spec_encode(v: Seq<char>) -> Seq<u8> {
        enc_str(encode_utf8(v))
    }

    fn encode(&self, buf: &mut Vec<u8>) {
        self.0.encode(buf);
    }
}

impl Decode for Message {
    open spec fn spec_decode(s: Seq<u8>) -> Result<(Seq<char>, nat), DecodeError> {
        dec_str(s)
    }

    fn decode(input: &[u8]) -> (r: Result<(Message, usize), DecodeError>) {
        match String::decode(input) {
            Ok((text, n)) => Ok((Message(text), n)),
            Err(e) => Err(e),
        }
    }
}

/// What reading a handshake marker that must carry `magic` gives; `wrong` is the error when
/// it carries another number.
pub open spec fn dec_marker(s: Seq<u8>, magic: u32, wrong: DecodeError) -> Result<(u32, nat), DecodeError> {
    match dec_u32(s) {
        Ok((v, n)) => if v == magic { Ok((v, n)) } else { Err(wrong) },
        Err(e) => Err(e),
    }
}

/// Sent by each peer when it has connected. It always carries `CONNECTION_MAGIC`.
#[derive(Copy, Clone, PartialEq, Eq)]
pub struct ConnectionAcquired(u32);

impl ConnectionAcquired {
    #[verifier::type_invariant]
    spec fn carries_magic(self) -> bool {
        self.0 == CONNECTION_MAGIC
    }
}

impl View for ConnectionAcquired {
    type V = u32;

    closed spec fn view(&self) -> u32 {
        self.0
    }
}

impl Default for ConnectionAcquired {
    fn default() -> (r: Self)
        ensures
            r@ == CONNECTION_MAGIC,
    {
        ConnectionAcquired(CONNECTION_MAGIC)
    }
}

impl ConnectionAcquired {
    pub fn new() -> (r: Self)
        ensures
            r@ == CONNECTION_MAGIC,
    {
        Self::default()
    }

    /// Whether the packet carries the connection magic number; every value does.
    pub fn is_valid(self) -> (r: bool)
        ensures
            r == (self@ == CONNECTION_MAGIC),
            r,
    {
        proof {
            use_type_invariant(&self);
        }
        self.0 == CONNECTION_MAGIC
    }
}

impl Encode for ConnectionAcquired {
    open spec fn spec_encode(v: u32) -> Seq<u8> {
        enc_u32(v)
    }

    fn encode(&self, buf: &mut Vec<u8>) {
        self.0.encode(buf);
    }
}

impl Decode for ConnectionAcquired {
    open spec fn spec_decode(s: Seq<u8>) -> Result<(u32, nat), DecodeError> {
        dec_marker(s, CONNECTION_MAGIC, DecodeError::InvalidConnectionMagic)
    }

    fn decode(input: &[u8]) -> (r: Result<(ConnectionAcquired, usize), DecodeError>) {
        let (val, n) = match u32::decode(input) {
            Ok(x) => x,
            Err(e) => return Err(e),
        };
        if val != CONNECTION_MAGIC {
            Err(DecodeError::InvalidConnectionMagic)
        } else {
            Ok((ConnectionAcquired(val), n))
        }
    }
}

/// Sent by a peer that is shutting down. It always carries `DISCONNECTION_MAGIC`.
#[derive(Copy, Clone, PartialEq, Eq)]
pub struct Disconnection(u32);

impl Disconnection {
    #[verifier::type_invariant]
    spec fn carries_magic(self) -> bool {
        self.0 == DISCONNECTION_MAGIC
    }
}

impl View for Disconnection {
    type V = u32;

    closed spec fn view(&self) -> u32 {
        self.0
    }
}

impl Default for Disconnection {
    fn default() -> (r: Self)
        ensures
            r@ == DISCONNECTION_MAGIC,
    {
        Disconnection(DISCONNECTION_MAGIC)
    }
}

impl Disconnection {
    pub fn new() -> (r: Self)
        ensures
            r@ == DISCONNECTION_MAGIC,
    {
        Self::default()
    }

    /// Whether the packet carries the disconnection magic number; every value does.
    pub fn is_valid(self) -> (r: bool)
        ensures
            r == (self@ == DISCONNECTION_MAGIC),
            r,
    {
        proof {
            use_type_invariant(&self);
        }
        self.0 == DISCONNECTION_MAGIC
    }
}

impl Encode for Disconnection {
    open spec fn spec_encode(v: u32) -> Seq<u8> {
        enc_u32(v)
    }

    fn encode(&self, buf: &mut Vec<u8>) {
        self.0.encode(buf);
    }
}

impl Decode for Disconnection {
    open spec fn spec_decode(s: Seq<u8>) -> Result<(u32, nat), DecodeError> {
        dec_marker(s, DISCONNECTION_MAGIC, DecodeError::InvalidDisconnectionMagic)
    }

    fn decode(input: &[u8]) -> (r: Result<(Disconnection, usize), DecodeError>) {
        let (val, n) = match u32::decode(input) {
            Ok(x) => x,
            Err(e) => return Err(e),
        };
        if val != DISCONNECTION_MAGIC {
            Err(DecodeError::InvalidDisconnectionMagic)
        } else {
            Ok((Disconnection(val), n))
        }
    }
}

/// Raw bytes that the user encoded; written as their count (a `u64`) followed by the bytes.
#[derive(Clone)]
pub struct Custom(pub(crate) Vec<u8>);

impl View for Custom {
    type V = Seq<u8>;

    closed spec fn view(&self) -> Seq<u8> {
        self.0@
    }
}

impl Custom {
    pub(crate) fn from_bytes(bytes: Vec<u8>) -> (c: Custom)
        ensures
            c@ == bytes@,
    {
        Custom(bytes)
    }

    pub(crate) fn as_bytes(&self) -> (b: &[u8])
        ensures
            b@ == self@,
    {
        self.0.as_slice()
    }
}

/// What reading custom bytes gives: the count, then that many bytes (the count is cast to
/// `usize` before it is used).
pub open spec fn dec_custom(s: Seq<u8>) -> Result<(Seq<u8>, nat), DecodeError> {
    match dec_u64(s) {
        Err(e) => Err(e),
        Ok((size, n)) => {
            if s.len() - n < (size as usize) {
                Err(DecodeError::DataRead)
            } else {
                Ok((s.subrange(n as int, n + (size as usize)), (n + (size as usize)) as nat))
            }
        },
    }
}

impl Encode for Custom {
    open spec fn spec_encode(v: Seq<u8>) -> Seq<u8> {
        enc_u64(v.len() as u64) + v
    }

    fn encode(&self, buf: &mut Vec<u8>) {
        let size = self.0.len() as u64;
        size.encode(buf);
        let mut bytes = slice_to_vec(self.0.as_slice());
        buf.append(&mut bytes);
    }
}

impl Decode for Custom {
    open spec fn spec_decode(s: Seq<u8>) -> Result<(Seq<u8>, nat), DecodeError> {
        dec_custom(s)
    }

    fn decode(input: &[u8]) -> (r: Result<(Custom, usize), DecodeError>) {
        let (size, n) = match u64::decode(input) {
            Ok(x) => x,
            Err(e) => return Err(e),
        };
        let size = size as usize;
        if input.len() - n < size {
            return Err(DecodeError::DataRead);
        }
        let data = slice_to_vec(slice_subrange(input, n, n + size));
        Ok((Custom(data), n + size))
    }
}

} // verus!
