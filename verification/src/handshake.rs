//! How two participants find each other. The host listens on its port; the
//! client sends `Connect` to it; the host fixes the sender of that as its
//! target, gives the client hero 1 in `InitialSync` and keeps hero 0.
//! Nothing is sent twice: a message that is lost is not repeated, and a
//! datagram that is not the expected message ends the handshake.
//!
//! The caller owns the socket. It binds the port of its role, sends what
//! `connect` and `receive` hand it, and passes each datagram that arrives to
//! `receive`, with the address it came from.

use crate::packet::{datagram_of, Packet};
use crate::udpstream::UdpStream;
use crate::wire::error::CodecError;
use crate::wire::schema::{connect_message, initial_sync_message};
use vstd::prelude::*;

verus! {

/// The port that the host listens on.
pub const HOST_PORT: u16 = 4114;

/// The port that the client binds.
pub const CLIENT_PORT: u16 = 4004;

/// The hero that the host controls.
pub const HOST_HERO: usize = 0;

/// The hero that the host gives the client.
pub const CLIENT_HERO: usize = 1;

/// Which side of the handshake a participant is on.
#[derive(Clone, Copy, Debug, PartialEq, Eq, Structural)]
pub enum Role {
    Host,
    Client,
}

/// How far a handshake has come.
#[derive(Clone, Copy, Debug, PartialEq, Eq, Structural)]
pub enum Phase {
    /// The host has not heard `Connect` yet.
    AwaitingConnect,
    /// The client has sent `Connect` and not heard `InitialSync` yet.
    AwaitingInitialSync,
    /// Both sides know their hero.
    Established,
    /// A datagram was not what the handshake expected.
    Failed,
}

/// Why a handshake has failed.
#[derive(Clone, Copy, Debug, PartialEq, Eq, Structural)]
pub enum HandshakeError {
    /// The datagram is no message at all.
    Codec(CodecError),
    /// The datagram is a message, but not the one that is due, or none is
    /// due any more.
    Protocol,
}

/// One side's handshake.
#[derive(Clone, Copy, Debug, PartialEq, Eq, Structural)]
pub struct Handshake {
    pub role: Role,
    pub phase: Phase,
    /// The hero of this side; settled once the phase is `Established`.
    pub hero_id: usize,
}

/// Whether a datagram carries a message of any kind.
pub open spec fn is_message(datagram: Seq<u8>) -> bool {
    ||| Packet::connect_decoding(datagram) is Ok
    ||| Packet::initial_sync_decoding(datagram) is Ok
    ||| Packet::decoding(datagram) is Ok
}

/// The error for a datagram that failed to decode with `e` as the message
/// that was due.
pub open spec fn refusal(datagram: Seq<u8>, e: CodecError) -> HandshakeError {
    if is_message(datagram) {
        HandshakeError::Protocol
    } else {
        HandshakeError::Codec(e)
    }
}

/// The error for a datagram that failed to decode with `e` as the message
/// that was due.
fn refuse(datagram: &[u8], e: CodecError) -> (error: HandshakeError)
    ensures
        error == refusal(datagram@, e),
{
    if Packet::read_connect(datagram).is_ok() || Packet::read_intial_sync(datagram).is_ok()
        || Packet::read_packet(datagram).is_ok() {
        HandshakeError::Protocol
    } else {
        HandshakeError::Codec(e)
    }
}

impl Role {
    /// The role of a participant that was started with or without the name
    /// of a host: with one it is the client.
    pub fn of(host: &Option<String>) -> (role: Role)
        ensures
            role == if host is Some {
                Role::Client
            } else {
                Role::Host
            },
    {
        if host.is_some() {
            Role::Client
        } else {
            Role::Host
        }
    }

    /// The port that a participant of this role binds.
    pub fn local_port(self) -> (port: u16)
        ensures
            port == match self {
                Role::Host => HOST_PORT,
                Role::Client => CLIENT_PORT,
            },
    {
        match self {
            Role::Host => HOST_PORT,
            Role::Client => CLIENT_PORT,
        }
    }
}

impl Handshake {
    /// The handshake after `datagram` has arrived.
    pub open spec fn received(self, datagram: Seq<u8>) -> (Handshake, Result<
        Option<Seq<u8>>,
        HandshakeError,
    >) {
        match self.phase {
            Phase::AwaitingConnect => match Packet::connect_decoding(datagram) {
                Ok(_) => (
                    Handshake { phase: Phase::Established, hero_id: HOST_HERO, ..self },
                    Ok(Some(datagram_of(initial_sync_message(CLIENT_HERO)))),
                ),
                Err(e) => (Handshake { phase: Phase::Failed, ..self }, Err(refusal(datagram, e))),
            },
            Phase::AwaitingInitialSync => match Packet::initial_sync_decoding(datagram) {
                Ok(id) => (
                    Handshake { phase: Phase::Established, hero_id: id, ..self },
                    Ok(None),
                ),
                Err(e) => (Handshake { phase: Phase::Failed, ..self }, Err(refusal(datagram, e))),
            },
            _ => (self, Err(HandshakeError::Protocol)),
        }
    }

    /// Starts the host's side, which waits to be greeted.
    pub fn listen() -> (handshake: Handshake)
        ensures
            handshake == (Handshake {
                role: Role::Host,
                phase: Phase::AwaitingConnect,
                hero_id: HOST_HERO,
            }),
    {
        Handshake { role: Role::Host, phase: Phase::AwaitingConnect, hero_id: HOST_HERO }
    }

    /// Starts the client's side: fixes the host's address as the target and
    /// hands back the greeting to send there.
    pub fn connect<A: Copy>(stream: &mut UdpStream<A>, host: A) -> (r: (Handshake, Vec<u8>))
        ensures
            r.0 == (Handshake {
                role: Role::Client,
                phase: Phase::AwaitingInitialSync,
                hero_id: HOST_HERO,
            }),
            r.1@ == datagram_of(connect_message()),
            final(stream).target == Some(host),
            final(stream).sender == old(stream).sender,
    {
        stream.set_target(host);
        (
            Handshake {
                role: Role::Client,
                phase: Phase::AwaitingInitialSync,
                hero_id: HOST_HERO,
            },
            Packet::write_connect(),
        )
    }

    /// Takes a datagram that arrived from `from`.
    ///
    /// The host takes `Connect`: it fixes `from` as its target, keeps hero 0
    /// and hands back the reply that gives the client hero 1. The client
    /// takes `InitialSync` and adopts the hero in it; it has nothing to
    /// reply. Either is then established. Any other datagram fails the
    /// handshake, and so does any datagram once it is over.
    pub fn receive<A: Copy>(&mut self, stream: &mut UdpStream<A>, datagram: &[u8], from: A) -> (r:
        Result<Option<Vec<u8>>, HandshakeError>)
        ensures
            *final(self) == old(self).received(datagram@).0,
            match r {
                Ok(Some(reply)) => old(self).received(datagram@).1 == Ok::<
                    Option<Seq<u8>>,
                    HandshakeError,
                >(Some(reply@)),
                Ok(None) => old(self).received(datagram@).1 == Ok::<
                    Option<Seq<u8>>,
                    HandshakeError,
                >(None),
                Err(e) => old(self).received(datagram@).1 == Err::<
                    Option<Seq<u8>>,
                    HandshakeError,
                >(e),
            },
            final(stream).sender == Some(from),
            final(stream).target == if old(self).phase == Phase::AwaitingConnect && r is Ok {
                Some(from)
            } else {
                old(stream).target
            },
    {
        stream.read(from);
        match self.phase {
            Phase::AwaitingConnect => match Packet::read_connect(datagram) {
                Ok(_) => {
                    stream.target_sender();
                    self.phase = Phase::Established;
                    self.hero_id = HOST_HERO;
                    Ok(Some(Packet::write_initial_sync(CLIENT_HERO)))
                },
                Err(e) => {
                    self.phase = Phase::Failed;
                    Err(refuse(datagram, e))
                },
            },
            Phase::AwaitingInitialSync => match Packet::read_intial_sync(datagram) {
                Ok(id) => {
                    self.phase = Phase::Established;
                    self.hero_id = id;
                    Ok(None)
                },
                Err(e) => {
                    self.phase = Phase::Failed;
                    Err(refuse(datagram, e))
                },
            },
            _ => Err(HandshakeError::Protocol),
        }
    }
}

/// A client that greets a listening host is given hero 1, the host keeps
/// hero 0, and both are established.
pub proof fn lemma_handshake_completes(host: Handshake, client: Handshake)
    requires
        host.phase == Phase::AwaitingConnect,
        client.phase == Phase::AwaitingInitialSync,
    ensures
        ({
            let (host_after, reply) = host.received(datagram_of(connect_message()));
            &&& host_after.phase == Phase::Established
            &&& host_after.hero_id == 0
            &&& reply matches Ok(Some(datagram))
            &&& client.received(datagram).0.phase == Phase::Established
            &&& client.received(datagram).0.hero_id == 1
            &&& client.received(datagram).1 == Ok::<Option<Seq<u8>>, HandshakeError>(None)
        }),
{
    crate::packet::lemma_connect_round_trip();
    crate::packet::lemma_initial_sync_round_trip(CLIENT_HERO);
}

} // verus!
