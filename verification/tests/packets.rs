use packet_server::packets::{ConnectionAcquired, Disconnection, Message};
use packet_server::{Decode, Encode, Packet};

#[test]
fn packet_msg_test() {
    let message = Message::new("Hello world!");
    let packet = Packet::Message(message);
    let mut rw: Vec<u8> = vec![];
    packet.encode(&mut rw);
    let (packet2, _) = Packet::decode(&rw).unwrap();
    match packet2 {
        Packet::Message(msg) => assert_eq!(msg.0, "Hello world!"),
        _ => panic!("Received packet was invalid type!"),
    }
}

#[test]
fn packet_connection_test() {
    let message = ConnectionAcquired::default();
    let packet = Packet::Connection(message);
    let mut rw: Vec<u8> = vec![];
    packet.encode(&mut rw);
    let (packet2, _) = Packet::decode(&rw).unwrap();
    match packet2 {
        Packet::Connection(c) => assert!(c.is_valid()),
        _ => panic!("Received packet was invalid type!"),
    }
}

#[test]
fn packet_disconnection_test() {
    let message = Disconnection::default();
    let packet = Packet::Disconnection(message);
    let mut rw: Vec<u8> = vec![];
    packet.encode(&mut rw);
    let (packet2, _) = Packet::decode(&rw).unwrap();
    match packet2 {
        Packet::Disconnection(d) => assert!(d.is_valid()),
        _ => panic!("Received packet was invalid type!"),
    }
}

#[test]
fn msg_test() {
    let message = Message::new("Hello world!");
    let mut read_writer: Vec<u8> = vec![];
    message.encode(&mut read_writer);
    let (message2, _) = Message::decode(&read_writer).unwrap();
    assert_eq!(message.0, message2.0);
}

#[test]
fn conn_test() {
    let message = ConnectionAcquired::default();
    let packet = Packet::Connection(message);
    let mut rw: Vec<u8> = vec![];
    packet.encode(&mut rw);
    let (packet2, _) = Packet::decode(&rw).unwrap();
    match packet2 {
        Packet::Connection(c) => assert!(c.is_valid()),
        _ => panic!("Received packet was invalid type!"),
    }
}

#[test]
fn disc_test() {
    let message = Disconnection::default();
    let packet = Packet::Disconnection(message);
    let mut rw: Vec<u8> = vec![];
    packet.encode(&mut rw);
    let (packet2, _) = Packet::decode(&rw).unwrap();
    match packet2 {
        Packet::Disconnection(d) => assert!(d.is_valid()),
        _ => panic!("Received packet was invalid type!"),
    }
}
