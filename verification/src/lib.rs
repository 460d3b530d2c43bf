//! Packets exchanged between two peers over a byte stream, encoded with MessagePack.
//!
//! A packet is written as its type tag (a MessagePack `u8`) followed by its payload.

pub mod decode;
pub mod encode;
pub mod laws;
pub mod msgpack;
pub mod packets;
pub mod server;

pub use decode::{Decode, DecodeError};
pub use encode::Encode;

use vstd::prelude::*;
use vstd::utf8::encode_utf8;
use crate::msgpack::{enc_u8, dec_u8};
use crate::packets::{Message, ConnectionAcquired, Disconnection, Custom, CONNECTION_MAGIC, DISCONNECTION_MAGIC};

verus! {

/// The port the peers meet on.
pub const PORT: u16 = 18050;

/// A packet: a text message, one of the two handshake markers, or custom bytes.
#[derive(Clone)]
pub enum Packet {
    Message(Message),
    Connection(ConnectionAcquired),
    Disconnection(Disconnection),
    Custom(Custom),
}

/// A packet as a mathematical value.
pub enum PacketView {
    Message(Seq<char>),
    Connection(u32),
    Disconnection(u32),
    Custom(Seq<u8>),
}

impl View for Packet {
    type V = PacketView;

    open spec fn view(&self) -> PacketView {
        match self {
            Packet::Message(m) => PacketView::Message(m@),
            Packet::Connection(c) => PacketView::Connection(c@),
            Packet::Disconnection(d) => PacketView::Disconnection(d@),
            Packet::Custom(c) => PacketView::Custom(c@),
        }
    }
}

/// The type tag written in front of each packet.
#[derive(Debug, Copy, Clone, PartialEq, Eq, Structural)]
enum PacketType {
    Message,
    Connection,
    Disconnection,
    Custom,
}

impl View for PacketType {
    type V = PacketType;

    closed spec fn view(&self) -> PacketType {
        *self
    }
}

/// The number that stands for a packet type.
spec fn tag_of(t: PacketType) -> u8 {
    match t {
        PacketType::Message => 0,
        PacketType::Connection => 1,
        PacketType::Disconnection => 2,
        PacketType::Custom => 3,
    }
}

/// The packet type a number stands for: 0 to 3, else an error naming the number.
spec fn packet_type_of(value: u8) -> Result<PacketType, DecodeError> {
    if value == 0 {
        Ok(PacketType::Message)
    } else if value == 1 {
        Ok(PacketType::Connection)
    } else if value == 2 {
        Ok(PacketType::Disconnection)
    } else if value == 3 {
        Ok(PacketType::Custom)
    } else {
        Err(DecodeError::InvalidPacketType(value))
    }
}

impl PacketType {
    fn tag(self) -> (r: u8)
        ensures
            r == tag_of(self),
    {
        match self {
            PacketType::Message => 0,
            PacketType::Connection => 1,
            PacketType::Disconnection => 2,
            PacketType::Custom => 3,
        }
    }

    fn try_from(value: u8) -> (r: Result<PacketType, DecodeError>)
        ensures
            r == packet_type_of(value),
    {
        match value {
            0 => Ok(PacketType::Message),
            1 => Ok(PacketType::Connection),
            2 => Ok(PacketType::Disconnection),
            3 => Ok(PacketType::Custom),
            _ => Err(DecodeError::InvalidPacketType(value)),
        }
    }
}

impl Encode for PacketType {
    closed spec fn spec_encode(v: PacketType) -> Seq<u8> {
        enc_u8(tag_of(v))
    }

    fn encode(&self, buf: &mut Vec<u8>) {
        self.tag().encode(buf);
    }
}

impl Decode for PacketType {
    closed spec fn spec_decode(s: Seq<u8>) -> Result<(PacketType, nat), DecodeError> {
        match dec_u8(s) {
            Err(e) => Err(e),
            Ok((v, n)) => match packet_type_of(v) {
                Ok(t) => Ok((t, n)),
                Err(e) => Err(e),
            },
        }
    }

    fn decode(input: &[u8]) -> (r: Result<(PacketType, usize), DecodeError>) {
        let (val, n) = match u8::decode(input) {
            Ok(x) => x,
            Err(e) => return Err(e),
        };
        match PacketType::try_from(val) {
            Ok(t) => Ok((t, n)),
            Err(e) => Err(e),
        }
    }
}

/// The bytes written for a packet: its tag, then its payload.
pub open spec fn spec_encode_packet(p: PacketView) -> Seq<u8> {
    match p {
        PacketView::Message(m) => enc_u8(0) + <Message as Encode>::spec_encode(m),
        PacketView::Connection(c) => enc_u8(1) + <ConnectionAcquired as Encode>::spec_encode(c),
        PacketView::Disconnection(d) => enc_u8(2) + <Disconnection as Encode>::spec_encode(d),
        PacketView::Custom(c) => enc_u8(3) + <Custom as Encode>::spec_encode(c),
    }
}

/// Puts the packet read from the payload behind a tag of `tag_len` bytes.
pub open spec fn behind_tag<T>(
    tag_len: nat,
    payload: Result<(T, nat), DecodeError>,
    make: spec_fn(T) -> PacketView,
) -> Result<(PacketView, nat), DecodeError> {
    match payload {
        Ok((v, n)) => Ok((make(v), tag_len + n)),
        Err(e) => Err(e),
    }
}

/// What reading a packet gives: the tag, then the payload of the type it names.
pub open spec fn spec_decode_packet(s: Seq<u8>) -> Result<(PacketView, nat), DecodeError> {
    match dec_u8(s) {
        Err(e) => Err(e),
        Ok((tag, n)) => {
            let rest = s.skip(n as int);
            if tag == 0 {
                behind_tag(n, <Message as Decode>::spec_decode(rest), |m: Seq<char>| PacketView::Message(m))
            } else if tag == 1 {
                behind_tag(n, <ConnectionAcquired as Decode>::spec_decode(rest), |c: u32| PacketView::Connection(c))
            } else if tag == 2 {
                behind_tag(n, <Disconnection as Decode>::spec_decode(rest), |d: u32| PacketView::Disconnection(d))
            } else if tag == 3 {
                behind_tag(n, <Custom as Decode>::spec_decode(rest), |c: Seq<u8>| PacketView::Custom(c))
            } else {
                Err(DecodeError::InvalidPacketType(tag))
            }
        },
    }
}

impl Encode for Packet {
    open spec fn spec_encode(v: PacketView) -> Seq<u8> {
        spec_encode_packet(v)
    }

    fn encode(&self, buf: &mut Vec<u8>) {
        match self {
            Packet::Message(m) => {
                PacketType::Message.encode(buf);
                m.encode(buf);
            },
            Packet::Connection(c) => {
                PacketType::Connection.encode(buf);
                c.encode(buf);
            },
            Packet::Disconnection(d) => {
                PacketType::Disconnection.encode(buf);
                d.encode(buf);
            },
            Packet::Custom(c) => {
                PacketType::Custom.encode(buf);
                c.encode(buf);
            },
        }
        proof {
            assert(final(buf)@ =~= old(buf)@ + spec_encode_packet(self@));
        }
    }
}

impl Decode for Packet {
    open spec fn spec_decode(s: Seq<u8>) -> Result<(PacketView, nat), DecodeError> {
        spec_decode_packet(s)
    }

    fn decode(input: &[u8]) -> (r: Result<(Packet, usize), DecodeError>) {
        let (t, n) = match PacketType::decode(input) {
            Ok(x) => x,
            Err(e) => return Err(e),
        };
        let rest = vstd::slice::slice_subrange(input, n, input.len());
        match t {
            PacketType::Message => match Message::decode(rest) {
                Ok((m, k)) => Ok((Packet::Message(m), n + k)),
                Err(e) => Err(e),
            },
            PacketType::Connection => match ConnectionAcquired::decode(rest) {
                Ok((c, k)) => Ok((Packet::Connection(c), n + k)),
                Err(e) => Err(e),
            },
            PacketType::Disconnection => match Disconnection::decode(rest) {
                Ok((d, k)) => Ok((Packet::Disconnection(d), n + k)),
                Err(e) => Err(e),
            },
            PacketType::Custom => match Custom::decode(rest) {
                Ok((c, k)) => Ok((Packet::Custom(c), n + k)),
                Err(e) => Err(e),
            },
        }
    }
}

impl Packet {
    /// A custom packet holding the bytes that `custom` encodes to.
    pub fn from_custom<E: Encode>(custom: &E) -> (p: Packet)
        ensures
            p@ == PacketView::Custom(E::spec_encode(custom@)),
    {
        let mut bytes: Vec<u8> = Vec::new();
        custom.encode(&mut bytes);
        Packet::Custom(Custom::from_bytes(bytes))
    }

    /// Reads a `D` from the bytes of a custom packet; bytes after it are ignored. Any other
    /// packet gives `NotCustom`.
    pub fn into_custom<D: Decode>(self) -> (r: Result<D, DecodeError>)
        ensures
            match self@ {
                PacketView::Custom(data) => match D::spec_decode(data) {
                    Ok((v, _)) => r matches Ok(d) && d@ == v,
                    Err(e) => r matches Err(e2) && e2 == e,
                },
                _ => r matches Err(e) && e == DecodeError::NotCustom,
            },
    {
        match self {
            Packet::Custom(c) => match D::decode(c.as_bytes()) {
                Ok((d, _)) => Ok(d),
                Err(e) => Err(e),
            },
            _ => Err(DecodeError::NotCustom),
        }
    }
}

/// The packets that a `Packet` value can hold: a message whose UTF-8 form has fewer than 2^32
/// bytes (longer ones get a header with a truncated length), the connection and disconnection
/// markers with their magic numbers, and custom bytes of any length.
pub open spec fn packet_well_formed(p: PacketView) -> bool {
    match p {
        PacketView::Message(m) => encode_utf8(m).len() <= u32::MAX,
        PacketView::Connection(c) => c == CONNECTION_MAGIC,
        PacketView::Disconnection(d) => d == DISCONNECTION_MAGIC,
        PacketView::Custom(c) => c.len() <= usize::MAX,
    }
}

/// Reading back the bytes written for a packet gives that packet and consumes exactly those
/// bytes, whatever follows them.
pub proof fn lemma_packet_roundtrip(p: PacketView, rest: Seq<u8>)
    requires
        packet_well_formed(p),
    ensures
        spec_decode_packet(spec_encode_packet(p) + rest)
            == Ok::<(PacketView, nat), DecodeError>((p, spec_encode_packet(p).len())),
{
    let tag: u8 = match p {
        PacketView::Message(_) => 0,
        PacketView::Connection(_) => 1,
        PacketView::Disconnection(_) => 2,
        PacketView::Custom(_) => 3,
    };
    let payload = spec_encode_packet(p).skip(2);
    assert(spec_encode_packet(p) =~= enc_u8(tag) + payload);
    let s = spec_encode_packet(p) + rest;
    assert(s =~= enc_u8(tag) + (payload + rest));
    crate::msgpack::lemma_u8_roundtrip(tag, payload + rest);
    assert(s.skip(2) =~= payload + rest);
    match p {
        PacketView::Message(m) => {
            assert(payload =~= crate::msgpack::enc_str(encode_utf8(m)));
            crate::msgpack::lemma_str_roundtrip(m, rest);
            assert(<Message as Decode>::spec_decode(s.skip(2)) == Ok::<(Seq<char>, nat), DecodeError>((m, payload.len())));
        },
        PacketView::Connection(c) => {
            crate::msgpack::lemma_u32_roundtrip(c, rest);
        },
        PacketView::Disconnection(d) => {
            crate::msgpack::lemma_u32_roundtrip(d, rest);
        },
        PacketView::Custom(c) => {
            let size = c.len() as u64;
            crate::msgpack::lemma_u64_roundtrip(size, c + rest);
            assert(payload + rest =~= crate::msgpack::enc_u64(size) + (c + rest));
            assert((payload + rest).subrange(9, 9 + c.len() as int) =~= c);
        },
    }
}

} // verus!
