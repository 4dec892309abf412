//! The shared per-session aggregate: role, turn counter, connected flag
//! and the two message queues.
//!
//! One value of [`ConnectionState`] exists per process and is shared —
//! under one lock, owned by the surrounding program — by connection
//! establishment (writer), the worker (reader and writer) and the game
//! layer (writer to the outgoing queue and the turn counter, reader of the
//! incoming queue).

use vstd::prelude::*;

use crate::codec;
use crate::gate::PeerRole;
use crate::queue::MessageQueue;

verus! {

/// Everything one side of the session keeps about its connection.
pub struct ConnectionState {
    /// Messages queued by the game layer, waiting for the worker to drain
    /// them to the wire; oldest first.
    pub outgoing: MessageQueue,
    /// Lines received from the wire, waiting for the game layer to poll
    /// them; oldest first.
    pub incoming: MessageQueue,
    /// Set once a socket has been stored; never reset by this core.
    pub connected: bool,
    /// Whether this side is the host (bound and accepted) or the client
    /// (dialed outward); fixed for the session.
    pub is_host: bool,
    /// The turn counter; its parity encodes which side is active. 0 before
    /// any connection; the host sets it to 1 on accepting (the host moves
    /// first); thereafter the game layer advances it after each move.
    pub turn: usize,
}

impl ConnectionState {
    /// The role this side plays, as the turn-gating rule reads it.
    pub open spec fn role_spec(&self) -> PeerRole {
        if self.is_host {
            PeerRole::Host
        } else {
            PeerRole::Client
        }
    }

    /// A fresh, not yet connected state: both queues empty, client role
    /// until establishment says otherwise, turn counter 0.
    pub fn new() -> (s: ConnectionState)
        ensures
            s.outgoing@ == Seq::<Seq<char>>::empty(),
            s.incoming@ == Seq::<Seq<char>>::empty(),
            !s.connected,
            !s.is_host,
            s.turn == 0,
    {
        ConnectionState {
            outgoing: MessageQueue::new(),
            incoming: MessageQueue::new(),
            connected: false,
            is_host: false,
            turn: 0,
        }
    }

    /// The role this side plays.
    pub fn role(&self) -> (r: PeerRole)
        ensures
            r == self.role_spec(),
    {
        if self.is_host {
            PeerRole::Host
        } else {
            PeerRole::Client
        }
    }

    /// Records that the server accepted its one inbound connection: the
    /// session is connected and the turn counter starts at 1, so the host
    /// owns the first move.
    pub fn on_server_accept(&mut self)
        ensures
            final(self).connected,
            final(self).turn == 1,
            final(self).outgoing == old(self).outgoing,
            final(self).incoming == old(self).incoming,
            final(self).is_host == old(self).is_host,
    {
        self.connected = true;
        self.turn = 1;
    }

    /// Records that the client's outbound connection succeeded: the
    /// session is connected; the turn counter keeps its prior value — the
    /// host's first message is what carries the game forward.
    pub fn on_client_connect(&mut self)
        ensures
            final(self).connected,
            final(self).turn == old(self).turn,
            final(self).outgoing == old(self).outgoing,
            final(self).incoming == old(self).incoming,
            final(self).is_host == old(self).is_host,
    {
        self.connected = true;
    }

    /// Queues a locally validated and applied move for transmission, in
    /// its serialized form.
    pub fn submit_local_move(&mut self, from: u8, to: u8)
        ensures
            final(self).outgoing@ == old(self).outgoing@.push(
                codec::encode_move_spec(from, to),
            ),
            final(self).incoming == old(self).incoming,
            final(self).connected == old(self).connected,
            final(self).is_host == old(self).is_host,
            final(self).turn == old(self).turn,
    {
        let msg = codec::encode_move(from, to);
        self.outgoing.push_back(msg);
    }

    /// Takes the oldest received line, if any, and reads it as a move.
    /// A malformed line is consumed and dropped: the result is `None`,
    /// exactly as when nothing is pending.
    pub fn poll_move(&mut self) -> (r: Option<(u8, u8)>)
        ensures
            old(self).incoming@.len() == 0 ==> r is None && *final(self) == *old(self),
            old(self).incoming@.len() > 0 ==> r == codec::parse_line_spec(old(self).incoming@[0])
                && final(self).incoming@ == old(self).incoming@.drop_first(),
            final(self).outgoing == old(self).outgoing,
            final(self).connected == old(self).connected,
            final(self).is_host == old(self).is_host,
            final(self).turn == old(self).turn,
    {
        match self.incoming.pop_front() {
            None => None,
            Some(line) => codec::parse_line(line.as_str()),
        }
    }

    /// Sets the turn counter; the game layer calls this immediately after
    /// any move — local or remote — has been applied, to keep the gating
    /// consistent.
    pub fn set_turn(&mut self, turn: usize)
        ensures
            final(self).turn == turn,
            final(self).outgoing == old(self).outgoing,
            final(self).incoming == old(self).incoming,
            final(self).connected == old(self).connected,
            final(self).is_host == old(self).is_host,
    {
        self.turn = turn;
    }
}

} // verus!
