//! The network side of one participant once the handshake is done: what has
//! arrived and not been handled, what waits to be transmitted, when the next
//! heartbeat is due, and the state of the latency probe.
//!
//! Two things come from outside and are different for every run: the wall
//! clock and what the receiver pipeline has put in its channel. Each is read
//! by one small function (`now`, `poll`); what is done with the reading is a
//! function of the reading (`handle_ping_at`, `accept`, `Game::tick`).

use crate::packet::{InstructionPacket, Packet, SyncPacket};
use std::sync::mpsc::{Receiver, TryRecvError};
use vstd::prelude::*;

verus! {

/// The number of ticks between two heartbeats.
pub const SYNC_PERIOD: usize = 120;

/// The tick count that a new controller starts from, so that its first tick
/// already sends a heartbeat.
pub const FIRST_SYNC_COUNT: usize = 420;

/// A moment of the wall clock: whole seconds since the start of 1970 and
/// the nanoseconds after that second.
#[derive(Clone, Copy, Debug, PartialEq, Eq, Structural)]
pub struct Timestamp {
    pub sec: i64,
    pub nsec: i32,
}

/// The state of the latency probe.
#[derive(Clone, Copy, Debug, PartialEq, Eq, Structural)]
pub enum PingStatus {
    /// No probe is under way.
    Ready,
    /// A probe left at the given moment and has not come back.
    Awaiting(Timestamp),
}

/// What one look into the receiver pipeline's channel finds.
#[derive(Clone, Copy, Debug, PartialEq, Eq, Structural)]
pub enum Delivery {
    /// A packet had arrived.
    Message(Packet),
    /// Nothing has arrived yet.
    Empty,
    /// The pipeline has ended and will deliver nothing more.
    Disconnected,
}

/// The receiver pipeline has ended: the session is over.
#[derive(Clone, Copy, Debug, PartialEq, Eq, Structural)]
pub struct ChannelDisconnected;

/// `std::sync::mpsc::Receiver`: the receiving end of a channel. What it holds
/// cannot be seen from here.
#[verifier::external_type_specification]
#[verifier::external_body]
#[verifier::reject_recursive_types(T)]
pub struct ExReceiver<T>(std::sync::mpsc::Receiver<T>);

/// `time::get_time`: the wall clock. The crate builds its result with
/// `Timespec::new`, which takes no nanosecond count outside one second, so
/// that much holds of every reading; nothing relates two readings.
#[verifier::external_body]
pub(crate) fn now() -> (t: Timestamp)
    ensures
        t.in_second(),
{
    let t = time::get_time();
    Timestamp { sec: t.sec, nsec: t.nsec }
}

/// `std::sync::mpsc::Receiver::try_recv`: takes the oldest packet out of the
/// channel if there is one, without waiting. Which of the three outcomes
/// comes depends on what the sending side has done so far, so none is
/// promised.
#[verifier::external_body]
pub(crate) fn poll(inbox: &Receiver<Packet>) -> (delivery: Delivery) {
    match inbox.try_recv() {
        Ok(packet) => Delivery::Message(packet),
        Err(TryRecvError::Empty) => Delivery::Empty,
        Err(TryRecvError::Disconnected) => Delivery::Disconnected,
    }
}

impl Timestamp {
    /// Whether the nanoseconds stay within one second.
    pub open spec fn in_second(self) -> bool {
        0 <= self.nsec < 1_000_000_000
    }

    /// The whole milliseconds from `self` to `later`; negative where `later`
    /// is the earlier one.
    pub open spec fn millis_until(self, later: Timestamp) -> int {
        ((later.sec - self.sec) * 1_000_000_000 + (later.nsec - self.nsec)) / 1_000_000
    }

    /// `millis_until`, held to what 32 bits can carry: zero where it is
    /// negative, the largest value where it is larger.
    pub open spec fn spec_elapsed_ms(self, later: Timestamp) -> u32 {
        let ms = self.millis_until(later);
        if ms < 0 {
            0
        } else if ms > u32::MAX {
            u32::MAX
        } else {
            ms as u32
        }
    }

    /// The whole milliseconds from `self` to `later`, held to what 32 bits
    /// can carry.
    #[verifier::when_used_as_spec(spec_elapsed_ms)]
    pub fn elapsed_ms(self, later: Timestamp) -> (ms: u32)
        ensures
            ms == self.spec_elapsed_ms(later),
    {
        let secs: i128 = later.sec as i128 - self.sec as i128;
        let nanos: i128 = secs * 1_000_000_000 + (later.nsec as i128 - self.nsec as i128);
        if nanos < 0 {
            0
        } else {
            let ms: i128 = nanos / 1_000_000;
            if ms > u32::MAX as i128 {
                u32::MAX
            } else {
                ms as u32
            }
        }
    }
}

/// The network state of one participant.
pub struct NetController {
    /// Where the receiver pipeline puts what it has decoded.
    pub net_thread_outbox: Receiver<Packet>,
    /// The datagrams that wait for the transport, oldest first.
    pub output_stream: Vec<Vec<u8>>,
    /// What has arrived and not been handled, oldest first.
    pub packets: Vec<Packet>,
    /// The ticks since the last heartbeat went out.
    pub frames_since_last_sync: usize,
    /// The hero that this participant controls.
    pub assigned_hero_id: usize,
    /// The last round trip that the peer reported, in milliseconds.
    pub ping: u32,
    pub ping_status: PingStatus,
}

/// Everything about a controller but its channel, as plain values.
pub struct NetView {
    pub sent: Seq<Seq<u8>>,
    pub packets: Seq<Packet>,
    pub frames_since_last_sync: nat,
    pub assigned_hero_id: nat,
    pub ping: u32,
    pub ping_status: PingStatus,
}

impl NetView {
    /// After a look into the channel that found `delivery`.
    pub open spec fn accepted(self, delivery: Delivery) -> NetView {
        match delivery {
            Delivery::Message(packet) => NetView { packets: self.packets.push(packet), ..self },
            _ => self,
        }
    }

    /// With `packet` queued for the transport.
    pub open spec fn sending(self, packet: Packet) -> NetView {
        NetView { sent: self.sent.push(packet.encoding()), ..self }
    }

    /// After one more tick has been counted.
    pub open spec fn counted(self) -> NetView {
        NetView { frames_since_last_sync: self.frames_since_last_sync + 1, ..self }
    }

    /// Whether a heartbeat is due.
    pub open spec fn sync_due(self) -> bool {
        self.frames_since_last_sync >= SYNC_PERIOD
    }

    /// After a heartbeat has been queued.
    pub open spec fn synced(self, sp: SyncPacket) -> NetView {
        NetView { frames_since_last_sync: 0, ..self.sending(Packet::SyncPacket(sp)) }
    }

    /// After a probe has been handled at the moment `now`.
    pub open spec fn pinged(self, now: Timestamp) -> NetView {
        match self.ping_status {
            PingStatus::Ready => NetView {
                ping_status: PingStatus::Awaiting(now),
                ..self.sending(Packet::Ping)
            },
            PingStatus::Awaiting(since) => NetView {
                ping_status: PingStatus::Ready,
                ..self.sending(Packet::YourPing(since.elapsed_ms(now)))
            },
        }
    }

    /// After the peer has reported the round trip `p`.
    pub open spec fn measured(self, p: u32) -> NetView {
        NetView { ping: p, ping_status: PingStatus::Ready, ..self }
    }

    /// After the newest pending packet has been taken.
    pub open spec fn taken(self) -> NetView {
        if self.packets.len() > 0 {
            NetView { packets: self.packets.drop_last(), ..self }
        } else {
            self
        }
    }

    /// The newest pending packet.
    pub open spec fn newest(self) -> Option<Packet> {
        if self.packets.len() > 0 {
            Some(self.packets.last())
        } else {
            None
        }
    }
}

impl View for NetController {
    type V = NetView;

    open spec fn view(&self) -> NetView {
        NetView {
            sent: Seq::new(self.output_stream@.len(), |i: int| self.output_stream@[i]@),
            packets: self.packets@,
            frames_since_last_sync: self.frames_since_last_sync as nat,
            assigned_hero_id: self.assigned_hero_id as nat,
            ping: self.ping,
            ping_status: self.ping_status,
        }
    }
}

impl NetController {
    /// The controller of the participant that the handshake gave hero `id`:
    /// nothing pending, nothing to transmit, no probe under way, and a
    /// heartbeat due at once.
    pub fn new(id: usize, inbox: Receiver<Packet>) -> (nc: NetController)
        ensures
            nc@ == (NetView {
                sent: Seq::empty(),
                packets: Seq::empty(),
                frames_since_last_sync: FIRST_SYNC_COUNT as nat,
                assigned_hero_id: id as nat,
                ping: 0,
                ping_status: PingStatus::Ready,
            }),
    {
        let nc = NetController {
            net_thread_outbox: inbox,
            output_stream: Vec::new(),
            packets: Vec::new(),
            frames_since_last_sync: FIRST_SYNC_COUNT,
            assigned_hero_id: id,
            ping: 0,
            ping_status: PingStatus::Ready,
        };
        assert(nc@.sent =~= Seq::empty());
        nc
    }

    /// Queues `packet` for the transport.
    fn send(&mut self, packet: Packet)
        ensures
            final(self)@ == old(self)@.sending(packet),
    {
        let datagram = packet.write_packet();
        self.output_stream.push(datagram);
        assert(self@.sent =~= old(self)@.sent.push(packet.encoding()));
    }

    /// Hands over what waits for the transport, oldest first, and leaves
    /// nothing waiting.
    pub fn take_output(&mut self) -> (datagrams: Vec<Vec<u8>>)
        ensures
            Seq::new(datagrams@.len(), |i: int| datagrams@[i]@) == old(self)@.sent,
            final(self)@ == (NetView { sent: Seq::empty(), ..old(self)@ }),
    {
        let mut datagrams: Vec<Vec<u8>> = Vec::new();
        std::mem::swap(&mut datagrams, &mut self.output_stream);
        assert(self@.sent =~= Seq::empty());
        datagrams
    }

    /// Takes in what one look into the channel found: a packet joins the
    /// pending ones as the newest. Says whether anything is pending, or that
    /// the pipeline has ended.
    pub fn accept(&mut self, delivery: Delivery) -> (r: Result<bool, ChannelDisconnected>)
        ensures
            final(self)@ == old(self)@.accepted(delivery),
            match r {
                Ok(pending) => delivery != Delivery::Disconnected && pending == (final(self)@.packets.len() > 0),
                Err(_) => delivery == Delivery::Disconnected,
            },
    {
        match delivery {
            Delivery::Message(packet) => {
                self.packets.push(packet);
                assert(self@.sent =~= old(self)@.sent);
            },
            Delivery::Empty => {},
            Delivery::Disconnected => {
                return Err(ChannelDisconnected);
            },
        }
        Ok(self.packets.len() > 0)
    }

    /// Looks into the channel once, without waiting, and takes in what is
    /// found.
    pub fn poke_packets(&mut self) -> (r: Result<bool, ChannelDisconnected>)
        ensures
            exists|delivery: Delivery|
                {
                    &&& final(self)@ == old(self)@.accepted(delivery)
                    &&& match r {
                        Ok(pending) => delivery != Delivery::Disconnected && pending == (final(self)@.packets.len() > 0),
                        Err(_) => delivery == Delivery::Disconnected,
                    }
                },
    {
        let delivery = poll(&self.net_thread_outbox);
        self.accept(delivery)
    }

    /// Counts one tick and says whether a heartbeat is due: whether 120
    /// ticks or more have been counted since the last one went out.
    pub fn poke_sync(&mut self) -> (due: bool)
        requires
            old(self).frames_since_last_sync < usize::MAX,
        ensures
            final(self)@ == old(self)@.counted(),
            due == final(self)@.sync_due(),
    {
        self.frames_since_last_sync += 1;
        assert(self@.sent =~= old(self)@.sent);
        self.frames_since_last_sync >= SYNC_PERIOD
    }

    /// Queues a heartbeat and starts counting ticks anew.
    pub fn send_sync_packet(&mut self, sp: SyncPacket)
        ensures
            final(self)@ == old(self)@.synced(sp),
    {
        self.frames_since_last_sync = 0;
        self.send(Packet::SyncPacket(sp));
    }

    /// Queues an instruction.
    pub fn send_instruction(&mut self, ip: InstructionPacket)
        ensures
            final(self)@ == old(self)@.sending(Packet::InstructionPacket(ip)),
    {
        self.send(Packet::InstructionPacket(ip));
    }

    /// Handles a probe at the moment `now`. With no probe under way one is
    /// sent, and awaited from `now` on. With one under way the time since it
    /// left is sent to the peer as the measured round trip, and the probe is
    /// over.
    pub fn handle_ping_at(&mut self, now: Timestamp)
        ensures
            final(self)@ == old(self)@.pinged(now),
    {
        match self.ping_status {
            PingStatus::Ready => {
                self.send(Packet::Ping);
                self.ping_status = PingStatus::Awaiting(now);
            },
            PingStatus::Awaiting(since) => {
                let ms = since.elapsed_ms(now);
                self.send(Packet::YourPing(ms));
                self.ping_status = PingStatus::Ready;
            },
        }
    }

    /// Handles a probe at the moment that the wall clock shows.
    pub fn handle_ping(&mut self)
        ensures
            exists|now: Timestamp| now.in_second() && final(self)@ == old(self)@.pinged(now),
    {
        let t = now();
        self.handle_ping_at(t);
    }

    /// Records the round trip that the peer measured, which ends the probe.
    pub fn update_ping(&mut self, p: u32)
        ensures
            final(self)@ == old(self)@.measured(p),
    {
        self.ping = p;
        self.ping_status = PingStatus::Ready;
        assert(self@.sent =~= old(self)@.sent);
    }

    /// Takes the newest pending packet, if any is pending.
    pub fn next(&mut self) -> (packet: Option<Packet>)
        ensures
            packet == old(self)@.newest(),
            final(self)@ == old(self)@.taken(),
    {
        let packet = self.packets.pop();
        assert(self@.sent =~= old(self)@.sent);
        packet
    }
}

/// Pending packets leave newest first: of two that were taken in, the second
/// is the first to be retrieved, and then the first.
pub proof fn lemma_newest_first(nc: NetView, first: Packet, second: Packet)
    ensures
        nc.accepted(Delivery::Message(first)).accepted(Delivery::Message(second)).newest() == Some(
            second,
        ),
        nc.accepted(Delivery::Message(first)).accepted(Delivery::Message(second)).taken()
            == nc.accepted(Delivery::Message(first)),
        nc.accepted(Delivery::Message(first)).newest() == Some(first),
        nc.accepted(Delivery::Message(first)).taken() == nc,
{
    let one = nc.packets.push(first);
    assert(one.push(second).drop_last() =~= one);
    assert(one.drop_last() =~= nc.packets);
}

/// After `n` more ticks have been counted.
pub open spec fn counted_times(nc: NetView, n: nat) -> NetView
    decreases n,
{
    if n == 0 {
        nc
    } else {
        counted_times(nc, (n - 1) as nat).counted()
    }
}

/// A heartbeat that goes out resets the count, and from there the `n`-th
/// tick finds a heartbeat due exactly when `n` has reached 120: not at any of
/// the ticks 1 to 119, and at tick 120.
pub proof fn lemma_heartbeat_cadence(nc: NetView, sp: SyncPacket, n: nat)
    ensures
        nc.synced(sp).frames_since_last_sync == 0,
        counted_times(nc.synced(sp), n).frames_since_last_sync == n,
        counted_times(nc.synced(sp), n).sync_due() <==> n >= 120,
    decreases n,
{
    if n > 0 {
        lemma_heartbeat_cadence(nc, sp, (n - 1) as nat);
    }
}

} // verus!
