use std::collections::VecDeque;
use std::sync::mpsc;

use packet_server::packets::{ConnectionAcquired, Disconnection, Message};
use packet_server::server::{
    decode_frame, encode_frame, frame_length, CommandPoll, EventPoll, Handshake, HandshakeError,
    HandshakeStep, PacketError, PacketQueue, Server, ServerCommand, ServerError,
    ServerEvent, ServerLoop, TurnAction,
};
use packet_server::{Encode, Packet};

fn text_of(p: &Packet) -> String {
    match p {
        Packet::Message(m) => m.0.clone(),
        _ => String::from("<other>"),
    }
}

fn msg(s: &str) -> Packet {
    Packet::Message(Message::new(s))
}

#[test]
fn frames_carry_length_then_packet() {
    let p = msg("Hello world!");
    let mut body = Vec::new();
    p.encode(&mut body);
    let frame = encode_frame(&p);
    assert_eq!(frame.len(), 8 + body.len());
    assert_eq!(&frame[..8], &(body.len() as u64).to_le_bytes());
    let mut header = [0u8; 8];
    header.copy_from_slice(&frame[..8]);
    assert_eq!(frame_length(&header), body.len() as u64);
    let back = decode_frame(&frame[8..]).unwrap();
    assert_eq!(text_of(&back), "Hello world!");
}

#[test]
fn frame_length_is_little_endian() {
    assert_eq!(frame_length(&[0x01, 0x02, 0, 0, 0, 0, 0, 0]), 0x0201);
}

#[test]
fn queue_is_first_in_first_out() {
    let mut q = PacketQueue::new();
    assert!(q.is_empty());
    assert_eq!(q.pop().err(), Some(PacketError::Empty));
    q.push(msg("a"));
    q.extend(vec![msg("b"), msg("c")]);
    assert_eq!(q.len(), 3);
    assert_eq!(text_of(&q.pop().unwrap()), "a");
    assert_eq!(text_of(&q.pop().unwrap()), "b");
    assert_eq!(text_of(&q.pop().unwrap()), "c");
    assert_eq!(q.pop().err(), Some(PacketError::Empty));
}

#[test]
fn taking_incoming_packets() {
    let mut q = PacketQueue::new();
    assert_eq!(q.take_incoming().err(), Some(PacketError::Empty));
    q.extend(vec![msg("x"), msg("y")]);
    let taken: VecDeque<Packet> = q.take_incoming().unwrap();
    assert_eq!(taken.len(), 2);
    assert_eq!(text_of(&taken[0]), "x");
    assert_eq!(text_of(&taken[1]), "y");
    assert!(q.is_empty());
}

#[test]
fn kill_stops_once_outgoing_is_drained() {
    let mut s = ServerLoop::new();
    assert!(!s.should_stop());
    assert_eq!(s.on_command(CommandPoll::Received(ServerCommand::Kill)), Ok(TurnAction::Exchange));
    assert!(!s.should_stop());
    let mut out = PacketQueue::new();
    out.push(msg("last"));
    let batch = s.take_outgoing(&mut out).unwrap();
    assert_eq!(batch.len(), 1);
    assert!(!s.should_stop());
    assert!(s.take_outgoing(&mut out).is_none());
    assert!(s.should_stop());
}

#[test]
fn kill_while_paused_after_drain_stops() {
    let mut s = ServerLoop::new();
    let mut out = PacketQueue::new();
    assert!(s.take_outgoing(&mut out).is_none());
    assert_eq!(s.on_command(CommandPoll::Received(ServerCommand::Pause)), Ok(TurnAction::Idle));
    assert_eq!(s.on_command(CommandPoll::Received(ServerCommand::Kill)), Ok(TurnAction::Idle));
    assert!(s.should_stop());
}

#[test]
fn kill_while_paused_stops_before_any_drain() {
    let mut s = ServerLoop::new();
    assert_eq!(s.on_command(CommandPoll::Received(ServerCommand::Pause)), Ok(TurnAction::Idle));
    assert!(!s.should_stop());
    assert_eq!(s.on_command(CommandPoll::Received(ServerCommand::Kill)), Ok(TurnAction::Idle));
    assert!(s.should_stop());
}

#[test]
fn pause_and_resume() {
    let mut s = ServerLoop::new();
    assert_eq!(s.on_command(CommandPoll::Received(ServerCommand::Resume)), Ok(TurnAction::Exchange));
    assert_eq!(s, ServerLoop::new());
    assert_eq!(s.on_command(CommandPoll::Received(ServerCommand::Pause)), Ok(TurnAction::Idle));
    assert_eq!(s.on_command(CommandPoll::Received(ServerCommand::Pause)), Ok(TurnAction::Idle));
    assert!(s.paused);
    assert_eq!(s.on_command(CommandPoll::Received(ServerCommand::Resume)), Ok(TurnAction::Exchange));
    assert!(!s.paused);
    assert_eq!(s.on_command(CommandPoll::Disconnected), Err(ServerError::CommandChannelClosed));
}

#[test]
fn client_handshake_receives_then_sends() {
    let mut h = Handshake::new(true);
    assert_eq!(h.on_event(EventPoll::Nothing), Ok(()));
    assert_eq!(h.step(), HandshakeStep::AwaitServer);
    assert_eq!(h.on_event(EventPoll::Event(ServerEvent::Connected)), Ok(()));
    assert_eq!(h.step(), HandshakeStep::AwaitHello);
    assert_eq!(h.on_packet(Err(PacketError::Empty)), Ok(()));
    assert_eq!(h.step(), HandshakeStep::AwaitHello);
    assert_eq!(h.on_packet(Ok(Packet::Connection(ConnectionAcquired::new()))), Ok(()));
    assert_eq!(h.step(), HandshakeStep::SendHello);
    assert!(h.state().hello_received && !h.state().hello_sent);
    assert_eq!(h.on_sent(Ok(())), Ok(()));
    assert_eq!(h.step(), HandshakeStep::Done);
}

#[test]
fn host_handshake_sends_then_receives() {
    let mut h = Handshake::new(false);
    assert_eq!(h.on_event(EventPoll::Event(ServerEvent::Connected)), Ok(()));
    assert_eq!(h.step(), HandshakeStep::SendHello);
    assert_eq!(h.on_sent(Ok(())), Ok(()));
    assert_eq!(h.step(), HandshakeStep::AwaitHello);
    assert_eq!(h.on_packet(Ok(Handshake::hello())), Ok(()));
    assert_eq!(h.step(), HandshakeStep::Done);
    assert!(h.state().hello_sent && h.state().hello_received);
}

#[test]
fn handshake_failures() {
    let mut h = Handshake::new(true);
    assert_eq!(h.on_event(EventPoll::Disconnected), Err(HandshakeError::ServerStopped));
    let mut h = Handshake::new(true);
    h.on_event(EventPoll::Event(ServerEvent::Connected)).unwrap();
    assert_eq!(h.on_packet(Ok(msg("hello?"))), Err(HandshakeError::UnexpectedFirstMessage));
    assert_eq!(
        h.on_packet(Ok(Packet::Disconnection(Disconnection::new()))),
        Err(HandshakeError::UnexpectedFirstMessage)
    );
    assert_eq!(h.on_packet(Err(PacketError::Locked)), Err(HandshakeError::UnexpectedFirstMessage));
    let mut host = Handshake::new(false);
    host.on_event(EventPoll::Event(ServerEvent::Connected)).unwrap();
    assert_eq!(host.on_sent(Err(PacketError::Empty)), Err(HandshakeError::Packet(PacketError::Empty)));
    assert_eq!(host.step(), HandshakeStep::SendHello);
}

#[test]
fn events_reach_a_live_receiver_only() {
    let (tx, rx) = mpsc::channel();
    assert_eq!(Server::send_event(&tx, ServerEvent::Connected), Ok(()));
    assert_eq!(rx.recv().unwrap(), ServerEvent::Connected);
    drop(rx);
    assert_eq!(
        Server::send_event(&tx, ServerEvent::Connected),
        Err(ServerError::EventNotDelivered(ServerEvent::Connected))
    );
}

#[test]
fn locked_outgoing_queue_means_try_again() {
    let mut host = Handshake::new(false);
    host.on_event(EventPoll::Event(ServerEvent::Connected)).unwrap();
    assert_eq!(host.on_sent(Err(PacketError::Locked)), Ok(()));
    assert_eq!(host.step(), HandshakeStep::SendHello);
    assert_eq!(host.on_sent(Ok(())), Ok(()));
    assert_eq!(host.step(), HandshakeStep::AwaitHello);

    let mut client = Handshake::new(true);
    client.on_event(EventPoll::Event(ServerEvent::Connected)).unwrap();
    client.on_packet(Ok(Handshake::hello())).unwrap();
    assert_eq!(client.on_sent(Err(PacketError::Locked)), Ok(()));
    assert_eq!(client.step(), HandshakeStep::SendHello);
    assert_eq!(client.on_sent(Ok(())), Ok(()));
    assert_eq!(client.step(), HandshakeStep::Done);
}

#[test]
fn queued_packets_arrive_once_in_order() {
    let mut state = ServerLoop::new();
    let mut out = PacketQueue::new();
    let mut stream: Vec<u8> = Vec::new();
    out.push(msg("one"));
    out.extend(vec![msg("two"), msg("three")]);
    for p in state.take_outgoing(&mut out).unwrap() {
        stream.extend_from_slice(&encode_frame(&p));
    }
    out.push(msg("four"));
    for p in state.take_outgoing(&mut out).unwrap() {
        stream.extend_from_slice(&encode_frame(&p));
    }
    assert!(state.take_outgoing(&mut out).is_none());

    let mut incoming = PacketQueue::new();
    let mut at = 0;
    while at < stream.len() {
        let mut header = [0u8; 8];
        header.copy_from_slice(&stream[at..at + 8]);
        let n = frame_length(&header) as usize;
        incoming.push(decode_frame(&stream[at + 8..at + 8 + n]).unwrap());
        at += 8 + n;
    }
    let got: Vec<String> = incoming.take_all().iter().map(text_of).collect();
    assert_eq!(got, vec!["one", "two", "three", "four"]);
}
