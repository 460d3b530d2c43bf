//! The exchange of packets with the peer: the packet queues shared with the user, the framing
//! of packets on the stream, and the decisions of the server loop and of the handshake.
//!
//! The thread, the socket and the locks live with the caller; this module decides what is
//! done with what they report.

use vstd::prelude::*;
use std::collections::VecDeque;
use std::sync::mpsc::Sender;
use byteorder::{ByteOrder, LittleEndian};
use crate::{Packet, PacketView, spec_encode_packet, spec_decode_packet, packet_well_formed, lemma_packet_roundtrip};
use crate::decode::{Decode, DecodeError};
use crate::encode::Encode;
use crate::packets::ConnectionAcquired;

verus! {

/// Commands the user sends to the server.
#[derive(Debug, Copy, Clone, PartialEq, Eq, Structural)]
pub enum ServerCommand {
    /// Pauses the server until `Resume`; does nothing if it is already paused.
    Pause,
    /// Resumes the server if it is paused; does nothing otherwise.
    Resume,
    /// Stops the server.
    Kill,
}

/// Events the server reports to the user.
#[derive(Debug, Copy, Clone, PartialEq, Eq, Structural)]
pub enum ServerEvent {
    /// The server has connected to its peer.
    Connected,
}

/// Why a packet could not be queued or taken.
#[derive(Debug, Copy, Clone, PartialEq, Eq, Structural)]
pub enum PacketError {
    /// The packet queue is held by the other side.
    Locked,
    /// The packet queue is empty.
    Empty,
}

/// Why the server loop ends early.
#[derive(Debug, Copy, Clone, PartialEq, Eq, Structural)]
pub enum ServerError {
    /// The user's end of the command channel is gone.
    CommandChannelClosed,
    /// The user's end of the event channel is gone; the event (given) was not delivered.
    EventNotDelivered(ServerEvent),
}

/// The server; it is started by the caller on a thread of its own.
pub struct Server;

// ---------------------------------------------------------------------------
// Events

#[verifier::external_type_specification]
#[verifier::external_body]
#[verifier::reject_recursive_types(T)]
pub struct ExSender<T>(Sender<T>);

/// `std::sync::mpsc::Sender::send`: fails, handing the event back, when the receiver is gone.
/// Whether it is gone depends on the other thread, so success is not stated.
#[verifier::external_body]
fn channel_send(event_tx: &Sender<ServerEvent>, event: ServerEvent) -> (r: Result<(), ServerEvent>)
    ensures
        r matches Err(e) ==> e == event,
{
    match event_tx.send(event) {
        Ok(()) => Ok(()),
        Err(std::sync::mpsc::SendError(e)) => Err(e),
    }
}

/// `sent` is what `Sender::send` gave back when `event` was handed to it on `event_tx`.
pub closed spec fn handed_to_channel(event_tx: &Sender<ServerEvent>, event: ServerEvent, sent: Result<(), ServerEvent>) -> bool {
    call_ensures(channel_send, (event_tx, event), sent)
}

impl Server {
    /// Sends `event` to the user; fails with the event when the user's receiver is gone.
    pub fn send_event(event_tx: &Sender<ServerEvent>, event: ServerEvent) -> (r: Result<(), ServerError>)
        ensures
            r matches Err(e) ==> e == ServerError::EventNotDelivered(event),
            exists|sent: Result<(), ServerEvent>| #[trigger] handed_to_channel(event_tx, event, sent)
                && (sent is Ok <==> r is Ok),
    {
        let sent = channel_send(event_tx, event);
        assert(handed_to_channel(event_tx, event, sent));
        match sent {
            Ok(()) => Ok(()),
            Err(e) => Err(ServerError::EventNotDelivered(e)),
        }
    }
}

// ---------------------------------------------------------------------------
// Framing: each packet goes on the stream as its length (eight little-endian bytes)
// followed by its bytes.

/// Little-endian bytes of a 64-bit value.
pub open spec fn le64(v: u64) -> Seq<u8> {
    seq![
        v as u8, (v >> 8u64) as u8, (v >> 16u64) as u8, (v >> 24u64) as u8,
        (v >> 32u64) as u8, (v >> 40u64) as u8, (v >> 48u64) as u8, (v >> 56u64) as u8,
    ]
}

pub open spec fn le64_value(b0: u8, b1: u8, b2: u8, b3: u8, b4: u8, b5: u8, b6: u8, b7: u8) -> u64 {
    (b0 as u64) | ((b1 as u64) << 8u64) | ((b2 as u64) << 16u64) | ((b3 as u64) << 24u64)
        | ((b4 as u64) << 32u64) | ((b5 as u64) << 40u64) | ((b6 as u64) << 48u64) | ((b7 as u64) << 56u64)
}

/// The 64-bit value whose little-endian bytes start `s`.
pub open spec fn from_le64(s: Seq<u8>) -> u64 {
    le64_value(s[0], s[1], s[2], s[3], s[4], s[5], s[6], s[7])
}

/// The frame of a packet: the length of its bytes, then the bytes.
pub open spec fn spec_frame(p: PacketView) -> Seq<u8> {
    le64(spec_encode_packet(p).len() as u64) + spec_encode_packet(p)
}

/// `byteorder::LittleEndian::write_u64` into eight zero bytes: they become `n` in little-endian order.
#[verifier::external_body]
fn le_u64_bytes(n: u64) -> (b: Vec<u8>)
    ensures
        b@ == le64(n),
{
    let mut b = vec![0u8; 8];
    LittleEndian::write_u64(&mut b, n);
    b
}

/// `byteorder::LittleEndian::read_u64`: the value of the first eight bytes, little-endian.
#[verifier::external_body]
fn le_u64_value(header: &[u8; 8]) -> (n: u64)
    ensures
        n == from_le64(header@),
{
    LittleEndian::read_u64(header)
}

/// The frame that carries `packet` on the stream.
pub fn encode_frame(packet: &Packet) -> (frame: Vec<u8>)
    ensures
        frame@ == spec_frame(packet@),
{
    let mut data: Vec<u8> = Vec::new();
    packet.encode(&mut data);
    let mut frame = le_u64_bytes(data.len() as u64);
    frame.append(&mut data);
    frame
}

/// The length of the packet that follows a frame header.
pub fn frame_length(header: &[u8; 8]) -> (n: u64)
    ensures
        n == from_le64(header@),
{
    le_u64_value(header)
}

/// Reads the packet at the start of a frame's body; bytes after it are ignored.
pub fn decode_frame(body: &[u8]) -> (r: Result<Packet, DecodeError>)
    ensures
        match spec_decode_packet(body@) {
            Ok((p, _)) => r matches Ok(q) && q@ == p,
            Err(e) => r matches Err(e2) && e2 == e,
        },
{
    match Packet::decode(body) {
        Ok((p, _)) => Ok(p),
        Err(e) => Err(e),
    }
}

/// A frame's header gives the length of the rest of the frame, and that rest reads back as
/// the packet.
pub proof fn lemma_frame_roundtrip(p: PacketView)
    requires
        packet_well_formed(p),
        spec_encode_packet(p).len() <= u64::MAX,
    ensures
        from_le64(spec_frame(p).subrange(0, 8)) == spec_frame(p).len() - 8,
        spec_decode_packet(spec_frame(p).skip(8))
            == Ok::<(PacketView, nat), DecodeError>((p, (spec_frame(p).len() - 8) as nat)),
{
    let body = spec_encode_packet(p);
    let n = body.len() as u64;
    assert(spec_frame(p).subrange(0, 8) =~= le64(n));
    assert(le64_value(
        n as u8, (n >> 8u64) as u8, (n >> 16u64) as u8, (n >> 24u64) as u8,
        (n >> 32u64) as u8, (n >> 40u64) as u8, (n >> 48u64) as u8, (n >> 56u64) as u8,
    ) == n) by (bit_vector);
    assert(spec_frame(p).skip(8) =~= body + Seq::<u8>::empty());
    lemma_packet_roundtrip(p, Seq::<u8>::empty());
}

/// The bytes that carry these packets on the stream, one frame after another.
pub open spec fn spec_stream(ps: Seq<PacketView>) -> Seq<u8>
    decreases ps.len(),
{
    if ps.len() == 0 {
        Seq::empty()
    } else {
        spec_frame(ps[0]) + spec_stream(ps.drop_first())
    }
}

/// The packets a reader takes from `s` as the server reads them: a header, then a body of the
/// length it gives, read as a packet; frame after frame until the bytes run out or a frame
/// does not read.
pub open spec fn read_stream(s: Seq<u8>) -> Seq<PacketView>
    decreases s.len(),
{
    if s.len() < 8 {
        Seq::empty()
    } else {
        let n = from_le64(s.subrange(0, 8));
        if s.len() - 8 < n {
            Seq::empty()
        } else {
            match spec_decode_packet(s.subrange(8, 8 + n)) {
                Ok((p, _)) => seq![p] + read_stream(s.skip(8 + n)),
                Err(_) => Seq::empty(),
            }
        }
    }
}

/// Packets that can travel in frames: well formed, with fewer than 2^64 bytes each.
pub open spec fn framable(ps: Seq<PacketView>) -> bool {
    forall|i: int| 0 <= i < ps.len() ==> packet_well_formed(#[trigger] ps[i])
        && spec_encode_packet(ps[i]).len() <= u64::MAX
}

/// A frame, whatever follows it, reads back as its packet and then what follows.
proof fn lemma_read_frame_then(p: PacketView, t: Seq<u8>)
    requires
        packet_well_formed(p),
        spec_encode_packet(p).len() <= u64::MAX,
    ensures
        read_stream(spec_frame(p) + t) == seq![p] + read_stream(t),
{
    lemma_frame_roundtrip(p);
    let f = spec_frame(p);
    let body = spec_encode_packet(p);
    let s = f + t;
    assert(s.subrange(0, 8) =~= f.subrange(0, 8));
    let n = from_le64(s.subrange(0, 8));
    assert(n == body.len());
    assert(s.subrange(8, 8 + n) =~= body + Seq::<u8>::empty());
    lemma_packet_roundtrip(p, Seq::<u8>::empty());
    assert(s.skip(8 + n) =~= t);
}

/// Frames written one after another read back as the same packets, in the same order.
pub proof fn lemma_stream_roundtrip(ps: Seq<PacketView>)
    requires
        framable(ps),
    ensures
        read_stream(spec_stream(ps)) == ps,
    decreases ps.len(),
{
    if ps.len() > 0 {
        let rest = ps.drop_first();
        assert(framable(rest)) by {
            assert forall|i: int| 0 <= i < rest.len() implies packet_well_formed(#[trigger] rest[i])
                && spec_encode_packet(rest[i]).len() <= u64::MAX by {
                assert(rest[i] == ps[i + 1]);
            }
        }
        lemma_stream_roundtrip(rest);
        assert(packet_well_formed(ps[0]) && spec_encode_packet(ps[0]).len() <= u64::MAX);
        lemma_read_frame_then(ps[0], spec_stream(rest));
        assert(seq![ps[0]] + rest =~= ps);
    }
}

// ---------------------------------------------------------------------------
// Packet queues

/// A first-in first-out queue of packets, shared between the user and the server.
pub struct PacketQueue {
    packets: VecDeque<Packet>,
}

impl View for PacketQueue {
    type V = Seq<Packet>;

    closed spec fn view(&self) -> Seq<Packet> {
        self.packets@
    }
}

impl PacketQueue {
    pub fn new() -> (q: PacketQueue)
        ensures
            q@ == Seq::<Packet>::empty(),
    {
        PacketQueue { packets: VecDeque::new() }
    }

    pub fn len(&self) -> (n: usize)
        ensures
            n == self@.len(),
    {
        self.packets.len()
    }

    pub fn is_empty(&self) -> (b: bool)
        ensures
            b == (self@.len() == 0),
    {
        self.packets.len() == 0
    }

    /// Puts a packet at the back.
    pub fn push(&mut self, packet: Packet)
        ensures
            final(self)@ == old(self)@.push(packet),
            run_outgoing(old(self)@, seq![OutgoingOp::Queue(seq![packet])])
                == (Seq::<Packet>::empty(), final(self)@),
    {
        self.packets.push_back(packet);
        proof {
            reveal_with_fuel(run_outgoing, 2);
            let ops = seq![OutgoingOp::Queue(seq![packet])];
            assert(ops.drop_first() =~= Seq::<OutgoingOp>::empty());
            assert(old(self)@ + seq![packet] =~= old(self)@.push(packet));
        }
    }

    /// Puts packets at the back, in their order.
    pub fn extend(&mut self, packets: Vec<Packet>)
        ensures
            final(self)@ == old(self)@ + packets@,
            run_outgoing(old(self)@, seq![OutgoingOp::Queue(packets@)]) == (Seq::<Packet>::empty(), final(self)@),
    {
        let ghost start = self.packets@;
        let ghost all = packets@;
        for p in it: packets.into_iter()
            invariant
                it.seq() == all,
                self.packets@ == start + all.take(it.index() as int),
        {
            self.packets.push_back(p);
            proof {
                assert(all.take(it.index() as int + 1) =~= all.take(it.index() as int).push(p));
            }
        }
        proof {
            assert(all.take(all.len() as int) =~= all);
            reveal_with_fuel(run_outgoing, 2);
            let ops = seq![OutgoingOp::Queue(all)];
            assert(ops.drop_first() =~= Seq::<OutgoingOp>::empty());
        }
    }

    /// Takes the packet at the front; `Empty` when there is none.
    pub fn pop(&mut self) -> (r: Result<Packet, PacketError>)
        ensures
            old(self)@.len() == 0 ==> r == Err::<Packet, PacketError>(PacketError::Empty) && final(self)@ == old(self)@,
            old(self)@.len() > 0 ==> r == Ok::<Packet, PacketError>(old(self)@[0])
                && final(self)@ == old(self)@.drop_first(),
    {
        match self.packets.pop_front() {
            Some(packet) => Ok(packet),
            None => Err(PacketError::Empty),
        }
    }

    /// Takes every packet, in order, leaving the queue empty.
    pub fn take_all(&mut self) -> (taken: VecDeque<Packet>)
        ensures
            taken@ == old(self)@,
            final(self)@ == Seq::<Packet>::empty(),
    {
        let mut taken: VecDeque<Packet> = VecDeque::new();
        std::mem::swap(&mut taken, &mut self.packets);
        taken
    }

    /// Takes every packet, in order; `Empty` (and nothing changes) when there is none.
    pub fn take_incoming(&mut self) -> (r: Result<VecDeque<Packet>, PacketError>)
        ensures
            old(self)@.len() == 0 ==> (r matches Err(e) && e == PacketError::Empty),
            old(self)@.len() > 0 ==> (r matches Ok(taken) && taken@ == old(self)@),
            final(self)@ == Seq::<Packet>::empty(),
    {
        let taken = self.take_all();
        if taken.len() == 0 {
            Err(PacketError::Empty)
        } else {
            Ok(taken)
        }
    }
}

// ---------------------------------------------------------------------------
// The server loop
//
// Each turn of the loop: stop if a kill was asked for and the server is paused or has found the
// outgoing queue empty; otherwise wait a moment, apply the command received, if any; if paused,
// end the turn; otherwise send what is queued for the peer, then take in what the peer sent.

/// What polling the command channel found.
#[derive(Debug, Copy, Clone, PartialEq, Eq, Structural)]
pub enum CommandPoll {
    Received(ServerCommand),
    Nothing,
    Disconnected,
}

/// What the rest of a turn of the server loop does after the command poll.
#[derive(Debug, Copy, Clone, PartialEq, Eq, Structural)]
pub enum TurnAction {
    /// The server is paused: the turn ends here.
    Idle,
    /// Send and receive packets.
    Exchange,
}

/// The state of the server loop.
#[derive(Debug, Copy, Clone, PartialEq, Eq, Structural)]
pub struct ServerLoop {
    /// A `Pause` came after the last `Resume`.
    pub paused: bool,
    /// A `Kill` has come.
    pub kill_requested: bool,
    /// The outgoing queue has been found empty at least once.
    pub drained: bool,
}

/// The state after a command.
pub open spec fn after_command(s: ServerLoop, cmd: ServerCommand) -> ServerLoop {
    match cmd {
        ServerCommand::Pause => ServerLoop { paused: true, ..s },
        ServerCommand::Resume => ServerLoop { paused: false, ..s },
        ServerCommand::Kill => ServerLoop { kill_requested: true, ..s },
    }
}

/// Whether the loop stops at the start of its next turn: a kill was asked for, and the server
/// is paused or has nothing left to send.
pub open spec fn stops(s: ServerLoop) -> bool {
    s.kill_requested && (s.paused || s.drained)
}

/// The state after a turn finds the outgoing queue empty.
pub open spec fn after_drain(s: ServerLoop) -> ServerLoop {
    ServerLoop { drained: true, ..s }
}

impl ServerLoop {
    pub fn new() -> (s: ServerLoop)
        ensures
            !s.paused && !s.kill_requested && !s.drained,
    {
        ServerLoop { paused: false, kill_requested: false, drained: false }
    }

    /// Whether the loop ends now (a kill was asked for, and the server is paused or has nothing
    /// left to send).
    pub fn should_stop(&self) -> (r: bool)
        ensures
            r == stops(*self),
    {
        self.kill_requested && (self.paused || self.drained)
    }

    /// Applies what the command poll found. A closed command channel ends the loop with an
    /// error and changes nothing; otherwise the turn goes on unless the server is paused.
    pub fn on_command(&mut self, poll: CommandPoll) -> (r: Result<TurnAction, ServerError>)
        ensures
            match poll {
                CommandPoll::Received(cmd) => *final(self) == after_command(*old(self), cmd),
                _ => *final(self) == *old(self),
            },
            poll == CommandPoll::Disconnected ==> r == Err::<TurnAction, ServerError>(ServerError::CommandChannelClosed),
            poll != CommandPoll::Disconnected ==> r == Ok::<TurnAction, ServerError>(
                if final(self).paused { TurnAction::Idle } else { TurnAction::Exchange }),
    {
        match poll {
            CommandPoll::Received(ServerCommand::Pause) => self.paused = true,
            CommandPoll::Received(ServerCommand::Resume) => self.paused = false,
            CommandPoll::Received(ServerCommand::Kill) => self.kill_requested = true,
            CommandPoll::Nothing => {},
            CommandPoll::Disconnected => return Err(ServerError::CommandChannelClosed),
        }
        if self.paused {
            Ok(TurnAction::Idle)
        } else {
            Ok(TurnAction::Exchange)
        }
    }

    /// Takes what is queued for the peer (once the caller holds the outgoing queue). When
    /// nothing is queued the loop notes that it has drained the queue and nothing is sent.
    pub fn take_outgoing(&mut self, outgoing: &mut PacketQueue) -> (batch: Option<VecDeque<Packet>>)
        ensures
            final(outgoing)@ == Seq::<Packet>::empty(),
            old(outgoing)@.len() == 0 ==> batch is None && *final(self) == after_drain(*old(self)),
            old(outgoing)@.len() > 0 ==> (batch matches Some(b) && b@ == old(outgoing)@) && *final(self) == *old(self),
            run_outgoing(old(outgoing)@, seq![OutgoingOp::Take]) == (batch_packets(batch), final(outgoing)@),
    {
        let batch = outgoing.take_all();
        proof {
            reveal_with_fuel(run_outgoing, 2);
            let ops = seq![OutgoingOp::Take];
            assert(ops.drop_first() =~= Seq::<OutgoingOp>::empty());
            assert(old(outgoing)@ + Seq::<Packet>::empty() =~= old(outgoing)@);
            assert(old(outgoing)@.len() == 0 ==> old(outgoing)@ =~= Seq::<Packet>::empty());
        }
        if batch.len() == 0 {
            self.drained = true;
            None
        } else {
            Some(batch)
        }
    }
}

/// A kill stops the server whether it is paused or running: a paused server stops at the start
/// of the next turn; a running one stops at the start of the turn after the one that finds the
/// outgoing queue empty (what was queued before is sent first), or at once if it has found it
/// empty before.
pub proof fn lemma_kill_stops(s: ServerLoop)
    ensures
        after_command(s, ServerCommand::Kill).paused ==> stops(after_command(s, ServerCommand::Kill)),
        s.drained ==> stops(after_command(s, ServerCommand::Kill)),
        stops(after_drain(after_command(s, ServerCommand::Kill))),
{
}

/// No command undoes a kill; a server that has found its outgoing queue empty and is stopping
/// stays stopping whatever commands come.
pub proof fn lemma_kill_is_final(s: ServerLoop, cmd: ServerCommand)
    ensures
        s.kill_requested ==> after_command(s, cmd).kill_requested,
        s.drained && stops(s) ==> stops(after_command(s, cmd)),
{
}

/// The loop stops only after a Kill, and then only when the server is paused or has nothing
/// left to send; a Kill with either of those does stop it.
pub proof fn lemma_stop_needs_kill(s: ServerLoop)
    ensures
        stops(s) ==> s.kill_requested,
        stops(s) ==> s.paused || s.drained,
        s.kill_requested && (s.paused || s.drained) ==> stops(s),
        !s.kill_requested ==> !stops(s),
{
}

/// Only Pause and Resume change whether the server is paused, and only Kill asks it to stop;
/// finding the outgoing queue empty changes neither, and no command changes whether the queue
/// has been found empty.
pub proof fn lemma_what_changes_what(s: ServerLoop, cmd: ServerCommand)
    ensures
        after_drain(s).paused == s.paused,
        after_drain(s).kill_requested == s.kill_requested,
        after_drain(s).drained,
        cmd == ServerCommand::Kill ==> after_command(s, cmd).paused == s.paused,
        cmd == ServerCommand::Pause ==> after_command(s, cmd).paused,
        cmd == ServerCommand::Resume ==> !after_command(s, cmd).paused,
        cmd != ServerCommand::Kill ==> after_command(s, cmd).kill_requested == s.kill_requested,
        cmd == ServerCommand::Kill ==> after_command(s, cmd).kill_requested,
        after_command(s, cmd).drained == s.drained,
{
}

/// Pausing twice is pausing once; resuming a server that is not paused changes nothing; a
/// pause followed by a resume leaves the state as a resume alone does.
pub proof fn lemma_pause_resume(s: ServerLoop)
    ensures
        after_command(after_command(s, ServerCommand::Pause), ServerCommand::Pause)
            == after_command(s, ServerCommand::Pause),
        !s.paused ==> after_command(s, ServerCommand::Resume) == s,
        after_command(after_command(s, ServerCommand::Pause), ServerCommand::Resume)
            == after_command(s, ServerCommand::Resume),
{
}

/// What happens to the outgoing queue over a run: the user queues packets (`push` or
/// `extend`), and the server loop takes the whole queue (`take_outgoing`) and writes what it
/// took as frames (`encode_frame`), in order.
pub enum OutgoingOp {
    Queue(Seq<Packet>),
    Take,
}

/// The packets sent, in order, and those left in the queue after `ops`, starting from `q`.
pub open spec fn run_outgoing(q: Seq<Packet>, ops: Seq<OutgoingOp>) -> (Seq<Packet>, Seq<Packet>)
    decreases ops.len(),
{
    if ops.len() == 0 {
        (Seq::empty(), q)
    } else {
        match ops[0] {
            OutgoingOp::Queue(ps) => run_outgoing(q + ps, ops.drop_first()),
            OutgoingOp::Take => {
                let later = run_outgoing(Seq::empty(), ops.drop_first());
                (q + later.0, later.1)
            },
        }
    }
}

/// Every packet queued in `ops`, in order.
pub open spec fn queued(ops: Seq<OutgoingOp>) -> Seq<Packet>
    decreases ops.len(),
{
    if ops.len() == 0 {
        Seq::empty()
    } else {
        match ops[0] {
            OutgoingOp::Queue(ps) => ps + queued(ops.drop_first()),
            OutgoingOp::Take => queued(ops.drop_first()),
        }
    }
}

/// The packets' views.
pub open spec fn views(ps: Seq<Packet>) -> Seq<PacketView> {
    ps.map_values(|p: Packet| p@)
}

/// The packets in a batch taken from the outgoing queue; none when nothing was taken.
pub open spec fn batch_packets(batch: Option<VecDeque<Packet>>) -> Seq<Packet> {
    match batch {
        Some(b) => b@,
        None => Seq::empty(),
    }
}

/// A run is its first part followed by its second: what the first sends, then what the second
/// sends from the queue the first leaves. So the calls of `push`, `extend` and `take_outgoing`,
/// each of which `ensures` its single step of `run_outgoing`, compose into one run.
pub proof fn lemma_run_concat(q: Seq<Packet>, ops1: Seq<OutgoingOp>, ops2: Seq<OutgoingOp>)
    ensures
        run_outgoing(q, ops1 + ops2) == (
            run_outgoing(q, ops1).0 + run_outgoing(run_outgoing(q, ops1).1, ops2).0,
            run_outgoing(run_outgoing(q, ops1).1, ops2).1,
        ),
    decreases ops1.len(),
{
    if ops1.len() == 0 {
        assert(ops1 + ops2 =~= ops2);
        assert(Seq::<Packet>::empty() + run_outgoing(q, ops2).0 =~= run_outgoing(q, ops2).0);
    } else {
        let all = ops1 + ops2;
        assert(all[0] == ops1[0]);
        assert(all.drop_first() =~= ops1.drop_first() + ops2);
        match ops1[0] {
            OutgoingOp::Queue(ps) => {
                lemma_run_concat(q + ps, ops1.drop_first(), ops2);
            },
            OutgoingOp::Take => {
                lemma_run_concat(Seq::empty(), ops1.drop_first(), ops2);
                let a = run_outgoing(Seq::<Packet>::empty(), ops1.drop_first());
                let b = run_outgoing(a.1, ops2);
                assert(q + (a.0 + b.0) =~= (q + a.0) + b.0);
            },
        }
    }
}

/// The stream of frames for packets sent one batch after another is the frames of the first
/// batch followed by those of the second; one packet's stream is its frame.
pub proof fn lemma_stream_concat(a: Seq<PacketView>, b: Seq<PacketView>)
    ensures
        spec_stream(a + b) == spec_stream(a) + spec_stream(b),
        a.len() == 1 ==> spec_stream(a) == spec_frame(a[0]),
    decreases a.len(),
{
    if a.len() == 0 {
        assert(a + b =~= b);
        assert(Seq::<u8>::empty() + spec_stream(b) =~= spec_stream(b));
    } else {
        assert((a + b).drop_first() =~= a.drop_first() + b);
        assert((a + b)[0] == a[0]);
        lemma_stream_concat(a.drop_first(), b);
        assert(spec_frame(a[0]) + (spec_stream(a.drop_first()) + spec_stream(b))
            =~= (spec_frame(a[0]) + spec_stream(a.drop_first())) + spec_stream(b));
        if a.len() == 1 {
            assert(a.drop_first() =~= Seq::<PacketView>::empty());
            assert(spec_frame(a[0]) + Seq::<u8>::empty() =~= spec_frame(a[0]));
        }
    }
}

/// Every packet queued for the peer is sent exactly once, in the order it was queued, or is
/// still waiting in the queue.
pub proof fn lemma_outgoing_in_order(q: Seq<Packet>, ops: Seq<OutgoingOp>)
    ensures
        run_outgoing(q, ops).0 + run_outgoing(q, ops).1 == q + queued(ops),
    decreases ops.len(),
{
    if ops.len() > 0 {
        match ops[0] {
            OutgoingOp::Queue(ps) => {
                lemma_outgoing_in_order(q + ps, ops.drop_first());
                assert(q + ps + queued(ops.drop_first()) =~= q + queued(ops));
            },
            OutgoingOp::Take => {
                lemma_outgoing_in_order(Seq::empty(), ops.drop_first());
                let later = run_outgoing(Seq::<Packet>::empty(), ops.drop_first());
                assert(Seq::<Packet>::empty() + queued(ops.drop_first()) =~= queued(ops.drop_first()));
                assert(q + later.0 + later.1 =~= q + (later.0 + later.1));
            },
        }
    } else {
        assert(Seq::<Packet>::empty() + q =~= q + Seq::<Packet>::empty());
    }
}

/// Over a run, the peer reads back from the stream exactly the packets sent, in order: every
/// queued packet arrives once, in queue order, unless it is still waiting.
pub proof fn lemma_delivery(q: Seq<Packet>, ops: Seq<OutgoingOp>)
    requires
        framable(views(run_outgoing(q, ops).0)),
    ensures
        read_stream(spec_stream(views(run_outgoing(q, ops).0))) == views(run_outgoing(q, ops).0),
        run_outgoing(q, ops).0 + run_outgoing(q, ops).1 == q + queued(ops),
{
    lemma_outgoing_in_order(q, ops);
    lemma_stream_roundtrip(views(run_outgoing(q, ops).0));
}

// ---------------------------------------------------------------------------
// The handshake
//
// Both peers wait for the server to connect. Then the client waits for the host's connection
// packet and answers with its own; the host sends its packet first and then waits for the
// client's. A packet other than the connection packet while waiting is an error.

/// What polling the event channel found.
#[derive(Debug, Copy, Clone, PartialEq, Eq, Structural)]
pub enum EventPoll {
    Event(ServerEvent),
    Nothing,
    Disconnected,
}

/// Where the handshake stands.
#[derive(Debug, Copy, Clone, PartialEq, Eq, Structural)]
pub enum HandshakeStep {
    /// Waiting for the server to connect.
    AwaitServer,
    /// Waiting for the peer's connection packet.
    AwaitHello,
    /// Sending our connection packet.
    SendHello,
    /// Connected.
    Done,
}

/// Why the handshake fails.
#[derive(Debug, Copy, Clone, PartialEq, Eq, Structural)]
pub enum HandshakeError {
    /// The server stopped before connecting.
    ServerStopped,
    /// The first packet from the peer was not the connection packet.
    UnexpectedFirstMessage,
    /// Our connection packet could not be queued.
    Packet(PacketError),
}

/// Where a handshake stands, as plain values.
#[derive(Debug, Copy, Clone, PartialEq, Eq, Structural)]
pub struct HandshakeState {
    pub is_client: bool,
    pub step: HandshakeStep,
    /// Our connection packet has been queued.
    pub hello_sent: bool,
    /// The peer's connection packet has been received.
    pub hello_received: bool,
}

impl HandshakeState {
    /// The handshake's steps come in its order, and what has been sent and received matches
    /// the step: the client receives before it sends, the host sends before it receives.
    pub open spec fn wf(self) -> bool {
        match self.step {
            HandshakeStep::AwaitServer => !self.hello_sent && !self.hello_received,
            HandshakeStep::AwaitHello => !self.hello_received && self.hello_sent == !self.is_client,
            HandshakeStep::SendHello => !self.hello_sent && self.hello_received == self.is_client,
            HandshakeStep::Done => self.hello_sent && self.hello_received,
        }
    }
}

/// A handshake in progress; its state is always well formed.
pub struct Handshake {
    state: HandshakeState,
}

impl Handshake {
    #[verifier::type_invariant]
    spec fn state_wf(self) -> bool {
        self.state.wf()
    }
}

impl View for Handshake {
    type V = HandshakeState;

    closed spec fn view(&self) -> HandshakeState {
        self.state
    }
}

impl Handshake {
    pub fn new(is_client: bool) -> (h: Handshake)
        ensures
            h@ == (HandshakeState {
                is_client,
                step: HandshakeStep::AwaitServer,
                hello_sent: false,
                hello_received: false,
            }),
    {
        Handshake {
            state: HandshakeState {
                is_client,
                step: HandshakeStep::AwaitServer,
                hello_sent: false,
                hello_received: false,
            },
        }
    }

    /// Where the handshake stands; the state is always well formed.
    pub fn state(&self) -> (s: HandshakeState)
        ensures
            s == self@,
            s.wf(),
    {
        proof {
            use_type_invariant(self);
        }
        self.state
    }

    /// The step the handshake is at.
    pub fn step(&self) -> (s: HandshakeStep)
        ensures
            s == self@.step,
    {
        self.state.step
    }

    /// The connection packet each side sends.
    pub fn hello() -> (p: Packet)
        ensures
            p@ == PacketView::Connection(crate::packets::CONNECTION_MAGIC),
    {
        Packet::Connection(ConnectionAcquired::new())
    }

    /// While waiting for the server: on its connection the client goes on to wait for the
    /// host's packet and the host goes on to send its own; nothing yet means keep waiting; a
    /// closed event channel means the server has stopped.
    pub fn on_event(&mut self, poll: EventPoll) -> (r: Result<(), HandshakeError>)
        requires
            old(self)@.step == HandshakeStep::AwaitServer,
        ensures
            match poll {
                EventPoll::Event(ServerEvent::Connected) => r is Ok && final(self)@ == (HandshakeState {
                    step: if old(self)@.is_client { HandshakeStep::AwaitHello } else { HandshakeStep::SendHello },
                    ..old(self)@
                }),
                EventPoll::Nothing => r is Ok && final(self)@ == old(self)@,
                EventPoll::Disconnected => r == Err::<(), HandshakeError>(HandshakeError::ServerStopped)
                    && final(self)@ == old(self)@,
            },
    {
        proof {
            use_type_invariant(&*self);
        }
        match poll {
            EventPoll::Event(ServerEvent::Connected) => {
                let step = if self.state.is_client { HandshakeStep::AwaitHello } else { HandshakeStep::SendHello };
                self.state = HandshakeState { step, ..self.state };
                Ok(())
            },
            EventPoll::Nothing => Ok(()),
            EventPoll::Disconnected => Err(HandshakeError::ServerStopped),
        }
    }

    /// While waiting for the peer's packet: the connection packet moves the client on to send
    /// its own and ends the host's handshake; an empty queue means keep waiting; anything else
    /// is an error.
    pub fn on_packet(&mut self, taken: Result<Packet, PacketError>) -> (r: Result<(), HandshakeError>)
        requires
            old(self)@.step == HandshakeStep::AwaitHello,
        ensures
            match taken {
                Ok(Packet::Connection(_)) => r is Ok && final(self)@ == (HandshakeState {
                    step: if old(self)@.is_client { HandshakeStep::SendHello } else { HandshakeStep::Done },
                    hello_received: true,
                    ..old(self)@
                }),
                Err(PacketError::Empty) => r is Ok && final(self)@ == old(self)@,
                _ => r == Err::<(), HandshakeError>(HandshakeError::UnexpectedFirstMessage)
                    && final(self)@ == old(self)@,
            },
    {
        proof {
            use_type_invariant(&*self);
        }
        match taken {
            Ok(Packet::Connection(_)) => {
                let step = if self.state.is_client { HandshakeStep::SendHello } else { HandshakeStep::Done };
                self.state = HandshakeState { step, hello_received: true, ..self.state };
                Ok(())
            },
            Err(PacketError::Empty) => Ok(()),
            _ => Err(HandshakeError::UnexpectedFirstMessage),
        }
    }

    /// After trying to queue our connection packet: the client's handshake ends and the host
    /// goes on to wait for the client's packet; a queue held by the server at that moment means
    /// try again; an empty queue reported back is an error.
    pub fn on_sent(&mut self, sent: Result<(), PacketError>) -> (r: Result<(), HandshakeError>)
        requires
            old(self)@.step == HandshakeStep::SendHello,
        ensures
            match sent {
                Ok(()) => r is Ok && final(self)@ == (HandshakeState {
                    step: if old(self)@.is_client { HandshakeStep::Done } else { HandshakeStep::AwaitHello },
                    hello_sent: true,
                    ..old(self)@
                }),
                Err(PacketError::Locked) => r is Ok && final(self)@ == old(self)@,
                Err(PacketError::Empty) => r == Err::<(), HandshakeError>(HandshakeError::Packet(PacketError::Empty))
                    && final(self)@ == old(self)@,
            },
    {
        proof {
            use_type_invariant(&*self);
        }
        match sent {
            Ok(()) => {
                let step = if self.state.is_client { HandshakeStep::Done } else { HandshakeStep::AwaitHello };
                self.state = HandshakeState { step, hello_sent: true, ..self.state };
                Ok(())
            },
            Err(PacketError::Locked) => Ok(()),
            Err(e) => Err(HandshakeError::Packet(e)),
        }
    }
}

/// A handshake is done only once our connection packet was queued and the peer's received;
/// the client never sends before it has received, and the host never receives before it has
/// sent. (Every `Handshake`'s state is well formed: see `Handshake::state`.)
pub proof fn lemma_handshake_order(h: HandshakeState)
    requires
        h.wf(),
    ensures
        h.step == HandshakeStep::Done ==> h.hello_sent && h.hello_received,
        h.is_client ==> (h.hello_sent ==> h.hello_received),
        !h.is_client ==> (h.hello_received ==> h.hello_sent),
{
}

} // verus!
