use packet_server::packets::{ConnectionAcquired, Custom, Disconnection, Message};
use packet_server::{Decode, DecodeError, Encode, Packet};

fn bytes_of<T: Encode>(v: &T) -> Vec<u8> {
    let mut buf = Vec::new();
    v.encode(&mut buf);
    buf
}

#[test]
fn integers_have_their_messagepack_bytes() {
    assert_eq!(bytes_of(&5u8), vec![0xcc, 5]);
    assert_eq!(bytes_of(&-1i8), vec![0xd0, 0xff]);
    assert_eq!(bytes_of(&0x1234u16), vec![0xcd, 0x12, 0x34]);
    assert_eq!(bytes_of(&-2i16), vec![0xd1, 0xff, 0xfe]);
    assert_eq!(bytes_of(&0xdeadbeefu32), vec![0xce, 0xde, 0xad, 0xbe, 0xef]);
    assert_eq!(bytes_of(&-1i32), vec![0xd2, 0xff, 0xff, 0xff, 0xff]);
    assert_eq!(bytes_of(&0x0102030405060708u64), vec![0xcf, 1, 2, 3, 4, 5, 6, 7, 8]);
    assert_eq!(bytes_of(&-3i64), vec![0xd3, 0xff, 0xff, 0xff, 0xff, 0xff, 0xff, 0xff, 0xfd]);
}

#[test]
fn encoding_appends_to_what_is_there() {
    let mut buf = vec![9u8, 9];
    7u8.encode(&mut buf);
    assert_eq!(buf, vec![9, 9, 0xcc, 7]);
}

#[test]
fn integers_read_back_leaving_the_rest() {
    let mut buf = bytes_of(&0xbeefu16);
    buf.push(0x42);
    assert_eq!(u16::decode(&buf).unwrap(), (0xbeef, 3));
    assert_eq!(u8::decode(&[0xcc, 200, 1]).unwrap(), (200, 2));
    assert_eq!(i8::decode(&bytes_of(&-100i8)).unwrap(), (-100, 2));
    assert_eq!(i16::decode(&bytes_of(&-30000i16)).unwrap(), (-30000, 3));
    assert_eq!(u32::decode(&bytes_of(&4000000000u32)).unwrap(), (4000000000, 5));
    assert_eq!(i32::decode(&bytes_of(&-2000000000i32)).unwrap(), (-2000000000, 5));
    assert_eq!(u64::decode(&bytes_of(&u64::MAX)).unwrap(), (u64::MAX, 9));
    assert_eq!(i64::decode(&bytes_of(&i64::MIN)).unwrap(), (i64::MIN, 9));
}

#[test]
fn booleans_read_from_their_markers() {
    assert_eq!(bool::decode(&[0xc3]).unwrap(), (true, 1));
    assert_eq!(bool::decode(&[0xc2, 0]).unwrap(), (false, 1));
    assert_eq!(bool::decode(&[0x00]).unwrap_err(), DecodeError::TypeMismatch(0x00));
    assert_eq!(bool::decode(&[]).unwrap_err(), DecodeError::MarkerRead);
}

#[test]
fn read_errors_name_their_cause() {
    assert_eq!(u16::decode(&[]).unwrap_err(), DecodeError::MarkerRead);
    assert_eq!(u16::decode(&[0xcd, 0x12]).unwrap_err(), DecodeError::DataRead);
    assert_eq!(u16::decode(&[0xce, 0, 0, 0, 1]).unwrap_err(), DecodeError::TypeMismatch(0xce));
    assert_eq!(u32::decode(&[0x05]).unwrap_err(), DecodeError::TypeMismatch(0x05));
    assert_eq!(i64::decode(&[0xd3, 1, 2]).unwrap_err(), DecodeError::DataRead);
}

#[test]
fn strings_get_the_shortest_header() {
    assert_eq!(bytes_of(&""), vec![0xa0]);
    assert_eq!(bytes_of(&"abc"), vec![0xa3, b'a', b'b', b'c']);
    let s40 = "x".repeat(40);
    let b = bytes_of(&s40);
    assert_eq!(&b[..2], &[0xd9, 40]);
    assert_eq!(b.len(), 42);
    let s300 = "y".repeat(300);
    let b = bytes_of(&s300);
    assert_eq!(&b[..3], &[0xda, 0x01, 0x2c]);
    assert_eq!(b.len(), 303);
    let s70000 = "z".repeat(70000);
    let b = bytes_of(&s70000);
    assert_eq!(&b[..5], &[0xdb, 0x00, 0x01, 0x11, 0x70]);
    assert_eq!(b.len(), 70005);
    assert_eq!(String::decode(&b).unwrap(), (s70000, 70005));
}

#[test]
fn strings_read_back() {
    let text = String::from("héllo wörld ✓");
    let mut b = bytes_of(&text);
    let n = b.len();
    b.extend_from_slice(&[1, 2, 3]);
    assert_eq!(String::decode(&b).unwrap(), (text, n));
    assert_eq!(String::decode(&bytes_of(&"y".repeat(300))).unwrap().0, "y".repeat(300));
}

#[test]
fn string_errors() {
    assert_eq!(String::decode(&[0xa2, 0xff, 0xfe]).unwrap_err(), DecodeError::InvalidUtf8);
    assert_eq!(String::decode(&[0xa3, b'a']).unwrap_err(), DecodeError::DataRead);
    assert_eq!(String::decode(&[0xcc, 1]).unwrap_err(), DecodeError::TypeMismatch(0xcc));
    assert_eq!(String::decode(&[0xd9]).unwrap_err(), DecodeError::DataRead);
    assert_eq!(String::decode(&[]).unwrap_err(), DecodeError::MarkerRead);
}

#[test]
fn packets_are_tag_then_payload() {
    let p = Packet::Message(Message::new("hi"));
    assert_eq!(bytes_of(&p), vec![0xcc, 0, 0xa2, b'h', b'i']);
    let c = Packet::Connection(ConnectionAcquired::new());
    assert_eq!(bytes_of(&c), vec![0xcc, 1, 0xce, b'C', b'O', b'N', b'N']);
    let d = Packet::Disconnection(Disconnection::new());
    assert_eq!(bytes_of(&d), vec![0xcc, 2, 0xce, b'D', b'I', b'S', b'T']);
}

#[test]
fn packet_read_consumes_exactly_the_packet() {
    let p = Packet::Message(Message::new("Hello world!"));
    let mut b = bytes_of(&p);
    let n = b.len();
    b.extend_from_slice(&bytes_of(&Packet::Disconnection(Disconnection::new())));
    let (first, used) = Packet::decode(&b).unwrap();
    assert_eq!(used, n);
    assert!(matches!(first, Packet::Message(ref m) if m.0 == "Hello world!"));
    let (second, _) = Packet::decode(&b[used..]).unwrap();
    assert!(matches!(second, Packet::Disconnection(_)));
}

#[test]
fn packet_errors() {
    assert_eq!(Packet::decode(&[0xcc, 4]).err(), Some(DecodeError::InvalidPacketType(4)));
    assert_eq!(Packet::decode(&[0xcd, 0, 1]).err(), Some(DecodeError::TypeMismatch(0xcd)));
    assert_eq!(
        Packet::decode(&[0xcc, 1, 0xce, 0, 0, 0, 1]).err(),
        Some(DecodeError::InvalidConnectionMagic)
    );
    assert_eq!(
        Packet::decode(&[0xcc, 2, 0xce, b'C', b'O', b'N', b'N']).err(),
        Some(DecodeError::InvalidDisconnectionMagic)
    );
    assert_eq!(Packet::decode(&[0xcc, 3, 0xcf, 0, 0, 0, 0, 0, 0, 0, 5, 1, 2]).err(), Some(DecodeError::DataRead));
    assert_eq!(Packet::decode(&[]).err(), Some(DecodeError::MarkerRead));
}

#[test]
fn custom_packets_carry_what_was_encoded() {
    let p = Packet::from_custom(&42u32);
    assert_eq!(
        bytes_of(&p),
        vec![0xcc, 3, 0xcf, 0, 0, 0, 0, 0, 0, 0, 5, 0xce, 0, 0, 0, 42]
    );
    let (q, _) = Packet::decode(&bytes_of(&p)).unwrap();
    assert_eq!(q.into_custom::<u32>().unwrap(), 42);
    let text = Packet::from_custom(&String::from("payload"));
    assert_eq!(text.into_custom::<String>().unwrap(), "payload");
    let wrong = Packet::from_custom(&7u8);
    assert_eq!(wrong.into_custom::<u16>().err(), Some(DecodeError::TypeMismatch(0xcc)));
}

#[test]
fn only_custom_packets_give_custom_data() {
    let p = Packet::Message(Message::new("x"));
    assert_eq!(p.into_custom::<u8>().err(), Some(DecodeError::NotCustom));
}

#[test]
fn custom_payload_reads_back() {
    let p = Packet::from_custom(&-5i16);
    let b = bytes_of(&p);
    let (c, n) = Custom::decode(&b[2..]).unwrap();
    assert_eq!(n, b.len() - 2);
    let again = Packet::Custom(c);
    assert_eq!(bytes_of(&again), b);
}

#[test]
fn connection_and_disconnection_read_back_valid() {
    let (c, n) = ConnectionAcquired::decode(&bytes_of(&ConnectionAcquired::new())).unwrap();
    assert!(c.is_valid());
    assert_eq!(n, 5);
    let (d, _) = Disconnection::decode(&bytes_of(&Disconnection::new())).unwrap();
    assert!(d.is_valid());
    assert_eq!(
        Disconnection::decode(&[0xce, 0, 0, 0, 0]).err(),
        Some(DecodeError::InvalidDisconnectionMagic)
    );
}
