//! The addresses of a datagram transport: where every datagram goes, and
//! where the last one came from. The socket itself belongs to the caller,
//! who tells the stream what it received and asks it where to send.

use vstd::prelude::*;

verus! {

/// The addressing state of one endpoint. `A` is whatever names a peer.
#[derive(Debug, PartialEq, Eq)]
pub struct UdpStream<A> {
    /// Where every datagram is sent, once it is fixed.
    pub target: Option<A>,
    /// Where the datagram that was received last came from.
    pub sender: Option<A>,
}

impl<A: Copy> UdpStream<A> {
    /// An endpoint that has no target yet and has heard from nobody.
    pub fn new() -> (stream: Self)
        ensures
            stream.target is None,
            stream.sender is None,
    {
        UdpStream { target: None, sender: None }
    }

    /// Fixes where datagrams go from now on.
    pub fn set_target(&mut self, target: A)
        ensures
            final(self).target == Some(target),
            final(self).sender == old(self).sender,
    {
        self.target = Some(target);
    }

    /// Fixes the peer that was heard from last as the target. Where nobody
    /// has been heard from, the stream has no target afterwards.
    pub fn target_sender(&mut self)
        ensures
            final(self).target == old(self).sender,
            final(self).sender == old(self).sender,
    {
        self.target = self.sender;
    }

    /// The addressing state of a second handle on the same socket.
    pub fn try_clone(&self) -> (stream: Self)
        ensures
            stream == *self,
    {
        UdpStream { target: self.target, sender: self.sender }
    }

    /// Takes note that a datagram from `from` was received.
    pub fn read(&mut self, from: A)
        ensures
            final(self).sender == Some(from),
            final(self).target == old(self).target,
    {
        self.sender = Some(from);
    }

    /// Where the next datagram goes. A stream without a target cannot send.
    pub fn write(&self) -> (to: A)
        requires
            self.target is Some,
        ensures
            Some(to) == self.target,
    {
        self.target.unwrap()
    }
}

} // verus!
