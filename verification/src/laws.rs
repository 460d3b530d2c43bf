//! What the encodings are for: every value this crate writes reads back as itself, taking
//! exactly the bytes written, whatever follows; and each value is written in its MessagePack form.

use vstd::prelude::*;
use vstd::utf8::encode_utf8;
use crate::decode::{Decode, DecodeError};
use crate::encode::Encode;
use crate::msgpack::{
    lemma_u8_roundtrip, lemma_i8_roundtrip, lemma_u16_roundtrip, lemma_i16_roundtrip,
    lemma_u32_roundtrip, lemma_i32_roundtrip, lemma_u64_roundtrip, lemma_i64_roundtrip,
    lemma_str_roundtrip, enc_str, str_header,
};
use crate::packets::{Message, ConnectionAcquired, Disconnection, Custom, CONNECTION_MAGIC, DISCONNECTION_MAGIC};
use crate::{Packet, PacketView, packet_well_formed, lemma_packet_roundtrip};

verus! {

/// A `u8` is written as the marker 0xcc followed by 1 data byte(s), and reads back as
/// itself from exactly those 2 bytes, whatever follows them.
pub proof fn lemma_u8_codec(v: u8, rest: Seq<u8>)
    ensures
        <u8 as Encode>::spec_encode(v).len() == 2,
        <u8 as Encode>::spec_encode(v)[0] == 0xcc,
        <u8 as Decode>::spec_decode(<u8 as Encode>::spec_encode(v) + rest)
            == Ok::<(u8, nat), DecodeError>((v, 2nat)),
{
    lemma_u8_roundtrip(v, rest);
}

/// A `i8` is written as the marker 0xd0 followed by 1 data byte(s), and reads back as
/// itself from exactly those 2 bytes, whatever follows them.
pub proof fn lemma_i8_codec(v: i8, rest: Seq<u8>)
    ensures
        <i8 as Encode>::spec_encode(v).len() == 2,
        <i8 as Encode>::spec_encode(v)[0] == 0xd0,
        <i8 as Decode>::spec_decode(<i8 as Encode>::spec_encode(v) + rest)
            == Ok::<(i8, nat), DecodeError>((v, 2nat)),
{
    lemma_i8_roundtrip(v, rest);
}

/// A `u16` is written as the marker 0xcd followed by 2 data byte(s), and reads back as
/// itself from exactly those 3 bytes, whatever follows them.
pub proof fn lemma_u16_codec(v: u16, rest: Seq<u8>)
    ensures
        <u16 as Encode>::spec_encode(v).len() == 3,
        <u16 as Encode>::spec_encode(v)[0] == 0xcd,
        <u16 as Decode>::spec_decode(<u16 as Encode>::spec_encode(v) + rest)
            == Ok::<(u16, nat), DecodeError>((v, 3nat)),
{
    lemma_u16_roundtrip(v, rest);
}

/// A `i16` is written as the marker 0xd1 followed by 2 data byte(s), and reads back as
/// itself from exactly those 3 bytes, whatever follows them.
pub proof fn lemma_i16_codec(v: i16, rest: Seq<u8>)
    ensures
        <i16 as Encode>::spec_encode(v).len() == 3,
        <i16 as Encode>::spec_encode(v)[0] == 0xd1,
        <i16 as Decode>::spec_decode(<i16 as Encode>::spec_encode(v) + rest)
            == Ok::<(i16, nat), DecodeError>((v, 3nat)),
{
    lemma_i16_roundtrip(v, rest);
}

/// A `u32` is written as the marker 0xce followed by 4 data byte(s), and reads back as
/// itself from exactly those 5 bytes, whatever follows them.
pub proof fn lemma_u32_codec(v: u32, rest: Seq<u8>)
    ensures
        <u32 as Encode>::spec_encode(v).len() == 5,
        <u32 as Encode>::spec_encode(v)[0] == 0xce,
        <u32 as Decode>::spec_decode(<u32 as Encode>::spec_encode(v) + rest)
            == Ok::<(u32, nat), DecodeError>((v, 5nat)),
{
    lemma_u32_roundtrip(v, rest);
}

/// A `i32` is written as the marker 0xd2 followed by 4 data byte(s), and reads back as
/// itself from exactly those 5 bytes, whatever follows them.
pub proof fn lemma_i32_codec(v: i32, rest: Seq<u8>)
    ensures
        <i32 as Encode>::spec_encode(v).len() == 5,
        <i32 as Encode>::spec_encode(v)[0] == 0xd2,
        <i32 as Decode>::spec_decode(<i32 as Encode>::spec_encode(v) + rest)
            == Ok::<(i32, nat), DecodeError>((v, 5nat)),
{
    lemma_i32_roundtrip(v, rest);
}

/// A `u64` is written as the marker 0xcf followed by 8 data byte(s), and reads back as
/// itself from exactly those 9 bytes, whatever follows them.
pub proof fn lemma_u64_codec(v: u64, rest: Seq<u8>)
    ensures
        <u64 as Encode>::spec_encode(v).len() == 9,
        <u64 as Encode>::spec_encode(v)[0] == 0xcf,
        <u64 as Decode>::spec_decode(<u64 as Encode>::spec_encode(v) + rest)
            == Ok::<(u64, nat), DecodeError>((v, 9nat)),
{
    lemma_u64_roundtrip(v, rest);
}

/// A `i64` is written as the marker 0xd3 followed by 8 data byte(s), and reads back as
/// itself from exactly those 9 bytes, whatever follows them.
pub proof fn lemma_i64_codec(v: i64, rest: Seq<u8>)
    ensures
        <i64 as Encode>::spec_encode(v).len() == 9,
        <i64 as Encode>::spec_encode(v)[0] == 0xd3,
        <i64 as Decode>::spec_decode(<i64 as Encode>::spec_encode(v) + rest)
            == Ok::<(i64, nat), DecodeError>((v, 9nat)),
{
    lemma_i64_roundtrip(v, rest);
}

/// The length of the shortest MessagePack string header for `n` bytes.
pub open spec fn shortest_header_len(n: nat) -> nat {
    if n < 32 { 1 } else if n < 256 { 2 } else if n < 65536 { 3 } else { 5 }
}

/// Text is written alike whether it is a `&str`, a `String` or a `Message`: the shortest
/// string header, then its UTF-8 bytes; and it reads back as itself (as a `String` or a
/// `Message`), taking exactly those bytes, whatever follows them.
pub proof fn lemma_text_codec(v: Seq<char>, rest: Seq<u8>)
    requires
        encode_utf8(v).len() <= u32::MAX,
    ensures
        <&str as Encode>::spec_encode(v) == <String as Encode>::spec_encode(v),
        <Message as Encode>::spec_encode(v) == <String as Encode>::spec_encode(v),
        <String as Encode>::spec_encode(v).len() == shortest_header_len(encode_utf8(v).len()) + encode_utf8(v).len(),
        <String as Encode>::spec_encode(v).skip(shortest_header_len(encode_utf8(v).len()) as int) == encode_utf8(v),
        <String as Decode>::spec_decode(<&str as Encode>::spec_encode(v) + rest)
            == Ok::<(Seq<char>, nat), DecodeError>((v, <&str as Encode>::spec_encode(v).len())),
        <String as Decode>::spec_decode(<String as Encode>::spec_encode(v) + rest)
            == Ok::<(Seq<char>, nat), DecodeError>((v, <String as Encode>::spec_encode(v).len())),
        <Message as Decode>::spec_decode(<Message as Encode>::spec_encode(v) + rest)
            == Ok::<(Seq<char>, nat), DecodeError>((v, <Message as Encode>::spec_encode(v).len())),
{
    lemma_str_roundtrip(v, rest);
    let bytes = encode_utf8(v);
    let h = str_header(bytes.len() as u32);
    assert(enc_str(bytes) == h + bytes);
    assert((h + bytes).skip(h.len() as int) =~= bytes);
}

/// Custom bytes are written as their count (a `u64`) and the bytes, and read back as themselves.
pub proof fn lemma_custom_codec(d: Seq<u8>, rest: Seq<u8>)
    requires
        d.len() <= usize::MAX,
    ensures
        <Custom as Encode>::spec_encode(d).len() == 9 + d.len(),
        <Custom as Encode>::spec_encode(d).skip(9) == d,
        <Custom as Decode>::spec_decode(<Custom as Encode>::spec_encode(d) + rest)
            == Ok::<(Seq<u8>, nat), DecodeError>((d, <Custom as Encode>::spec_encode(d).len())),
{
    let size = d.len() as u64;
    lemma_u64_roundtrip(size, d + rest);
    let e = <Custom as Encode>::spec_encode(d);
    assert(e + rest =~= crate::msgpack::enc_u64(size) + (d + rest));
    assert((e + rest).subrange(9, 9 + d.len() as int) =~= d);
    assert(e.skip(9) =~= d);
}

/// The handshake markers read back as themselves.
pub proof fn lemma_marker_codec(rest: Seq<u8>)
    ensures
        <ConnectionAcquired as Decode>::spec_decode(<ConnectionAcquired as Encode>::spec_encode(CONNECTION_MAGIC) + rest)
            == Ok::<(u32, nat), DecodeError>((CONNECTION_MAGIC, 5)),
        <Disconnection as Decode>::spec_decode(<Disconnection as Encode>::spec_encode(DISCONNECTION_MAGIC) + rest)
            == Ok::<(u32, nat), DecodeError>((DISCONNECTION_MAGIC, 5)),
{
    lemma_u32_roundtrip(CONNECTION_MAGIC, rest);
    lemma_u32_roundtrip(DISCONNECTION_MAGIC, rest);
}

/// A packet reads back as itself through the `Encode` and `Decode` impls of `Packet`, taking
/// exactly the bytes written, whatever follows them.
pub proof fn lemma_packet_codec(p: PacketView, rest: Seq<u8>)
    requires
        packet_well_formed(p),
    ensures
        <Packet as Decode>::spec_decode(<Packet as Encode>::spec_encode(p) + rest)
            == Ok::<(PacketView, nat), DecodeError>((p, <Packet as Encode>::spec_encode(p).len())),
{
    lemma_packet_roundtrip(p, rest);
}

} // verus!
