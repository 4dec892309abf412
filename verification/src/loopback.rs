//! An in-memory model of one complete session: a host and a client whose
//! sockets are replaced by a pair of line queues.
//!
//! The model runs the same verified step functions a live worker runs
//! ([`crate::worker`]), so the transport's end-to-end guarantees can be
//! stated and proved over it: every message a side consumes was sent by
//! its peer (no self-echo), and messages arrive in exactly the order the
//! peer queued them (FIFO, end to end).
//!
//! The well-formedness predicate [`LoopbackPair::wf`] carries the whole
//! story as one conservation law per direction: the log of everything a
//! side ever sent is exactly what its peer has consumed, followed by what
//! waits in the peer's incoming queue, what is in flight on the wire, and
//! what still sits in the sender's outgoing queue — in that order.

use vstd::prelude::*;

use crate::codec;
use crate::connection_state::ConnectionState;
use crate::gate;
use crate::queue::MessageQueue;
use crate::worker;

verus! {

/// Every message in the sequence is in queued form (non-empty, trimmed).
pub open spec fn all_clean(ms: Seq<Seq<char>>) -> bool {
    forall|i: int| 0 <= i < ms.len() ==> codec::is_clean(ms[i])
}

/// Two connected peers and the wire between them, one line queue per
/// direction, plus the ghost history of the session.
pub struct LoopbackPair {
    pub host: ConnectionState,
    pub client: ConnectionState,
    /// Lines written by the host's worker, not yet read by the client's.
    pub wire_to_client: MessageQueue,
    /// Lines written by the client's worker, not yet read by the host's.
    pub wire_to_host: MessageQueue,
    /// Every message the host ever queued for sending, oldest first.
    pub sent_by_host: Ghost<Seq<Seq<char>>>,
    /// Every message the client ever queued for sending, oldest first.
    pub sent_by_client: Ghost<Seq<Seq<char>>>,
    /// The host messages the client has polled off its incoming queue.
    pub consumed_by_client: Ghost<Seq<Seq<char>>>,
    /// The client messages the host has polled off its incoming queue.
    pub consumed_by_host: Ghost<Seq<Seq<char>>>,
}

impl LoopbackPair {
    /// The conservation law of the session. Per direction, the send log
    /// splits, in order, into: consumed by the peer, waiting in the peer's
    /// incoming queue, in flight on the wire, still in the sender's
    /// outgoing queue. Everything sent is clean, and the roles are fixed.
    pub open spec fn wf(&self) -> bool {
        &&& self.host.is_host
        &&& !self.client.is_host
        &&& all_clean(self.sent_by_host@)
        &&& all_clean(self.sent_by_client@)
        &&& self.sent_by_host@ == self.consumed_by_client@ + self.client.incoming@
            + self.wire_to_client@ + self.host.outgoing@
        &&& self.sent_by_client@ == self.consumed_by_host@ + self.host.incoming@
            + self.wire_to_host@ + self.client.outgoing@
    }

    /// A fresh pair: nothing sent, nothing connected, both turn counters 0.
    pub fn new() -> (pair: LoopbackPair)
        ensures
            pair.wf(),
            !pair.host.connected,
            !pair.client.connected,
            pair.host.turn == 0,
            pair.client.turn == 0,
            pair.sent_by_host@ == Seq::<Seq<char>>::empty(),
            pair.sent_by_client@ == Seq::<Seq<char>>::empty(),
            pair.consumed_by_client@ == Seq::<Seq<char>>::empty(),
            pair.consumed_by_host@ == Seq::<Seq<char>>::empty(),
    {
        let mut host = ConnectionState::new();
        host.is_host = true;
        let client = ConnectionState::new();
        let pair = LoopbackPair {
            host,
            client,
            wire_to_client: MessageQueue::new(),
            wire_to_host: MessageQueue::new(),
            sent_by_host: Ghost(Seq::empty()),
            sent_by_client: Ghost(Seq::empty()),
            consumed_by_client: Ghost(Seq::empty()),
            consumed_by_host: Ghost(Seq::empty()),
        };
        proof {
            assert(pair.sent_by_host@ =~= pair.consumed_by_client@ + pair.client.incoming@
                + pair.wire_to_client@ + pair.host.outgoing@);
            assert(pair.sent_by_client@ =~= pair.consumed_by_host@ + pair.host.incoming@
                + pair.wire_to_host@ + pair.client.outgoing@);
        }
        pair
    }

    /// Establishment on both ends: the host accepts (its turn counter
    /// becomes 1 — the host moves first), the client's dial succeeds (its
    /// counter keeps its prior value).
    pub fn establish(&mut self)
        requires
            old(self).wf(),
        ensures
            final(self).wf(),
            final(self).host.connected,
            final(self).client.connected,
            final(self).host.turn == 1,
            final(self).client.turn == old(self).client.turn,
            final(self).sent_by_host == old(self).sent_by_host,
            final(self).sent_by_client == old(self).sent_by_client,
            final(self).consumed_by_client == old(self).consumed_by_client,
            final(self).consumed_by_host == old(self).consumed_by_host,
    {
        self.host.on_server_accept();
        self.client.on_client_connect();
    }

    /// The host's game layer validates, applies and queues a move.
    pub fn host_submit(&mut self, from: u8, to: u8)
        requires
            old(self).wf(),
        ensures
            final(self).wf(),
            final(self).sent_by_host@ == old(self).sent_by_host@.push(
                codec::encode_move_spec(from, to),
            ),
            final(self).sent_by_client == old(self).sent_by_client,
            final(self).consumed_by_client == old(self).consumed_by_client,
            final(self).consumed_by_host == old(self).consumed_by_host,
            final(self).client == old(self).client,
            final(self).host.turn == old(self).host.turn,
            final(self).host.connected == old(self).host.connected,
    {
        self.host.submit_local_move(from, to);
        proof {
            self.sent_by_host@ = self.sent_by_host@.push(codec::encode_move_spec(from, to));
            codec::lemma_encode_move_clean(from, to);
            assert(final(self).sent_by_host@ =~= final(self).consumed_by_client@
                + final(self).client.incoming@ + final(self).wire_to_client@
                + final(self).host.outgoing@);
        }
    }

    /// The client's game layer validates, applies and queues a move.
    pub fn client_submit(&mut self, from: u8, to: u8)
        requires
            old(self).wf(),
        ensures
            final(self).wf(),
            final(self).sent_by_client@ == old(self).sent_by_client@.push(
                codec::encode_move_spec(from, to),
            ),
            final(self).sent_by_host == old(self).sent_by_host,
            final(self).consumed_by_client == old(self).consumed_by_client,
            final(self).consumed_by_host == old(self).consumed_by_host,
            final(self).host == old(self).host,
            final(self).client.turn == old(self).client.turn,
            final(self).client.connected == old(self).client.connected,
    {
        self.client.submit_local_move(from, to);
        proof {
            self.sent_by_client@ = self.sent_by_client@.push(codec::encode_move_spec(from, to));
            codec::lemma_encode_move_clean(from, to);
            assert(final(self).sent_by_client@ =~= final(self).consumed_by_host@
                + final(self).host.incoming@ + final(self).wire_to_host@
                + final(self).client.outgoing@);
        }
    }

    /// The host worker's drain phase: every queued outgoing message is
    /// written to the wire, oldest first, in one burst of successful
    /// writes.
    pub fn drain_host(&mut self)
        requires
            old(self).wf(),
        ensures
            final(self).wf(),
            final(self).host.outgoing@.len() == 0,
            final(self).wire_to_client@ == old(self).wire_to_client@ + old(self).host.outgoing@,
            final(self).client == old(self).client,
            final(self).host.incoming == old(self).host.incoming,
            final(self).host.turn == old(self).host.turn,
            final(self).host.connected == old(self).host.connected,
            final(self).host.is_host == old(self).host.is_host,
            final(self).wire_to_host == old(self).wire_to_host,
            final(self).sent_by_host == old(self).sent_by_host,
            final(self).sent_by_client == old(self).sent_by_client,
            final(self).consumed_by_client == old(self).consumed_by_client,
            final(self).consumed_by_host == old(self).consumed_by_host,
    {
        while !self.host.outgoing.is_empty()
            invariant
                self.wire_to_client@ + self.host.outgoing@ == old(self).wire_to_client@ + old(
                    self,
                ).host.outgoing@,
                self.client == old(self).client,
                self.host.incoming == old(self).host.incoming,
                self.host.turn == old(self).host.turn,
                self.host.connected == old(self).host.connected,
                self.host.is_host == old(self).host.is_host,
                self.wire_to_host == old(self).wire_to_host,
                self.sent_by_host == old(self).sent_by_host,
                self.sent_by_client == old(self).sent_by_client,
                self.consumed_by_client == old(self).consumed_by_client,
                self.consumed_by_host == old(self).consumed_by_host,
            decreases self.host.outgoing@.len(),
        {
            let ghost before_wire = self.wire_to_client@;
            let ghost before_out = self.host.outgoing@;
            let a = worker::next_action(worker::WorkerStatus::Running, &mut self.host);
            match a {
                worker::WorkerAction::Write(m) => {
                    self.wire_to_client.push_back(m);
                    proof {
                        assert(self.wire_to_client@ + self.host.outgoing@ =~= before_wire
                            + before_out);
                    }
                },
                _ => {
                    proof {
                        assert(false);
                    }
                },
            }
        }
        proof {
            assert(final(self).wire_to_client@ =~= old(self).wire_to_client@ + old(
                self,
            ).host.outgoing@);
            assert(final(self).sent_by_host@ =~= final(self).consumed_by_client@
                + final(self).client.incoming@ + final(self).wire_to_client@
                + final(self).host.outgoing@);
        }
    }

    /// The client worker's drain phase, symmetric to `drain_host`.
    pub fn drain_client(&mut self)
        requires
            old(self).wf(),
        ensures
            final(self).wf(),
            final(self).client.outgoing@.len() == 0,
            final(self).wire_to_host@ == old(self).wire_to_host@ + old(self).client.outgoing@,
            final(self).host == old(self).host,
            final(self).client.incoming == old(self).client.incoming,
            final(self).client.turn == old(self).client.turn,
            final(self).client.connected == old(self).client.connected,
            final(self).client.is_host == old(self).client.is_host,
            final(self).wire_to_client == old(self).wire_to_client,
            final(self).sent_by_host == old(self).sent_by_host,
            final(self).sent_by_client == old(self).sent_by_client,
            final(self).consumed_by_client == old(self).consumed_by_client,
            final(self).consumed_by_host == old(self).consumed_by_host,
    {
        while !self.client.outgoing.is_empty()
            invariant
                self.wire_to_host@ + self.client.outgoing@ == old(self).wire_to_host@ + old(
                    self,
                ).client.outgoing@,
                self.host == old(self).host,
                self.client.incoming == old(self).client.incoming,
                self.client.turn == old(self).client.turn,
                self.client.connected == old(self).client.connected,
                self.client.is_host == old(self).client.is_host,
                self.wire_to_client == old(self).wire_to_client,
                self.sent_by_host == old(self).sent_by_host,
                self.sent_by_client == old(self).sent_by_client,
                self.consumed_by_client == old(self).consumed_by_client,
                self.consumed_by_host == old(self).consumed_by_host,
            decreases self.client.outgoing@.len(),
        {
            let ghost before_wire = self.wire_to_host@;
            let ghost before_out = self.client.outgoing@;
            let a = worker::next_action(worker::WorkerStatus::Running, &mut self.client);
            match a {
                worker::WorkerAction::Write(m) => {
                    self.wire_to_host.push_back(m);
                    proof {
                        assert(self.wire_to_host@ + self.client.outgoing@ =~= before_wire
                            + before_out);
                    }
                },
                _ => {
                    proof {
                        assert(false);
                    }
                },
            }
        }
        proof {
            assert(final(self).wire_to_host@ =~= old(self).wire_to_host@ + old(
                self,
            ).client.outgoing@);
            assert(final(self).sent_by_client@ =~= final(self).consumed_by_host@
                + final(self).host.incoming@ + final(self).wire_to_host@
                + final(self).client.outgoing@);
        }
    }

    /// The client worker's gated read phase: when and only when the turn
    /// gate lets the client listen, it reads every line in flight, oldest
    /// first, onto its incoming queue.
    pub fn deliver_to_client(&mut self)
        requires
            old(self).wf(),
        ensures
            final(self).wf(),
            gate::spec_should_listen(old(self).client.turn, old(self).client.role_spec())
                ==> final(self).client.incoming@ == old(self).client.incoming@ + old(
                self,
            ).wire_to_client@ && final(self).wire_to_client@.len() == 0,
            !gate::spec_should_listen(old(self).client.turn, old(self).client.role_spec())
                ==> *final(self) == *old(self),
            final(self).host == old(self).host,
            final(self).client.outgoing == old(self).client.outgoing,
            final(self).client.turn == old(self).client.turn,
            final(self).client.connected == old(self).client.connected,
            final(self).client.is_host == old(self).client.is_host,
            final(self).wire_to_host == old(self).wire_to_host,
            final(self).sent_by_host == old(self).sent_by_host,
            final(self).sent_by_client == old(self).sent_by_client,
            final(self).consumed_by_client == old(self).consumed_by_client,
            final(self).consumed_by_host == old(self).consumed_by_host,
    {
        if !gate::should_listen(self.client.turn, self.client.role()) {
            return;
        }
        proof {
            assert forall|i: int| 0 <= i < self.wire_to_client@.len() implies codec::is_clean(
                self.wire_to_client@[i],
            ) by {
                assert(self.sent_by_host@[self.consumed_by_client@.len()
                    + self.client.incoming@.len() + i] == self.wire_to_client@[i]);
            }
        }
        while !self.wire_to_client.is_empty()
            invariant
                old(self).wf(),
                self.client.incoming@ + self.wire_to_client@ == old(self).client.incoming@ + old(
                    self,
                ).wire_to_client@,
                all_clean(self.wire_to_client@),
                self.host == old(self).host,
                self.client.outgoing == old(self).client.outgoing,
                self.client.turn == old(self).client.turn,
                self.client.connected == old(self).client.connected,
                self.client.is_host == old(self).client.is_host,
                self.wire_to_host == old(self).wire_to_host,
                self.sent_by_host == old(self).sent_by_host,
                self.sent_by_client == old(self).sent_by_client,
                self.consumed_by_client == old(self).consumed_by_client,
                self.consumed_by_host == old(self).consumed_by_host,
            decreases self.wire_to_client@.len(),
        {
            let ghost before_in = self.client.incoming@;
            let ghost before_wire = self.wire_to_client@;
            match self.wire_to_client.pop_front() {
                Some(m) => {
                    proof {
                        assert(codec::is_clean(before_wire[0]));
                    }
                    worker::on_read_event(&mut self.client, worker::ReadEvent::Line(m));
                    proof {
                        assert(self.client.incoming@ + self.wire_to_client@ =~= before_in
                            + before_wire);
                    }
                },
                None => {
                    proof {
                        assert(false);
                    }
                },
            }
        }
        proof {
            assert(final(self).client.incoming@ =~= old(self).client.incoming@ + old(
                self,
            ).wire_to_client@);
            assert(final(self).sent_by_host@ =~= final(self).consumed_by_client@
                + final(self).client.incoming@ + final(self).wire_to_client@
                + final(self).host.outgoing@);
        }
    }

    /// The host worker's gated read phase, symmetric to
    /// `deliver_to_client`.
    pub fn deliver_to_host(&mut self)
        requires
            old(self).wf(),
        ensures
            final(self).wf(),
            gate::spec_should_listen(old(self).host.turn, old(self).host.role_spec())
                ==> final(self).host.incoming@ == old(self).host.incoming@ + old(
                self,
            ).wire_to_host@ && final(self).wire_to_host@.len() == 0,
            !gate::spec_should_listen(old(self).host.turn, old(self).host.role_spec())
                ==> *final(self) == *old(self),
            final(self).client == old(self).client,
            final(self).host.outgoing == old(self).host.outgoing,
            final(self).host.turn == old(self).host.turn,
            final(self).host.connected == old(self).host.connected,
            final(self).host.is_host == old(self).host.is_host,
            final(self).wire_to_client == old(self).wire_to_client,
            final(self).sent_by_host == old(self).sent_by_host,
            final(self).sent_by_client == old(self).sent_by_client,
            final(self).consumed_by_client == old(self).consumed_by_client,
            final(self).consumed_by_host == old(self).consumed_by_host,
    {
        if !gate::should_listen(self.host.turn, self.host.role()) {
            return;
        }
        proof {
            assert forall|i: int| 0 <= i < self.wire_to_host@.len() implies codec::is_clean(
                self.wire_to_host@[i],
            ) by {
                assert(self.sent_by_client@[self.consumed_by_host@.len()
                    + self.host.incoming@.len() + i] == self.wire_to_host@[i]);
            }
        }
        while !self.wire_to_host.is_empty()
            invariant
                old(self).wf(),
                self.host.incoming@ + self.wire_to_host@ == old(self).host.incoming@ + old(
                    self,
                ).wire_to_host@,
                all_clean(self.wire_to_host@),
                self.client == old(self).client,
                self.host.outgoing == old(self).host.outgoing,
                self.host.turn == old(self).host.turn,
                self.host.connected == old(self).host.connected,
                self.host.is_host == old(self).host.is_host,
                self.wire_to_client == old(self).wire_to_client,
                self.sent_by_host == old(self).sent_by_host,
                self.sent_by_client == old(self).sent_by_client,
                self.consumed_by_client == old(self).consumed_by_client,
                self.consumed_by_host == old(self).consumed_by_host,
            decreases self.wire_to_host@.len(),
        {
            let ghost before_in = self.host.incoming@;
            let ghost before_wire = self.wire_to_host@;
            match self.wire_to_host.pop_front() {
                Some(m) => {
                    proof {
                        assert(codec::is_clean(before_wire[0]));
                    }
                    worker::on_read_event(&mut self.host, worker::ReadEvent::Line(m));
                    proof {
                        assert(self.host.incoming@ + self.wire_to_host@ =~= before_in
                            + before_wire);
                    }
                },
                None => {
                    proof {
                        assert(false);
                    }
                },
            }
        }
        proof {
            assert(final(self).host.incoming@ =~= old(self).host.incoming@ + old(
                self,
            ).wire_to_host@);
            assert(final(self).sent_by_client@ =~= final(self).consumed_by_host@
                + final(self).host.incoming@ + final(self).wire_to_host@
                + final(self).client.outgoing@);
        }
    }

    /// The client's game layer polls one received line and reads it as a
    /// move; the line is recorded as consumed.
    pub fn client_poll(&mut self) -> (r: Option<(u8, u8)>)
        requires
            old(self).wf(),
        ensures
            final(self).wf(),
            old(self).client.incoming@.len() == 0 ==> r is None && *final(self) == *old(self),
            old(self).client.incoming@.len() > 0 ==> r == codec::parse_line_spec(
                old(self).client.incoming@[0],
            ) && final(self).client.incoming@ == old(self).client.incoming@.drop_first()
                && final(self).consumed_by_client@ == old(self).consumed_by_client@.push(
                old(self).client.incoming@[0],
            ),
            final(self).host == old(self).host,
            final(self).sent_by_host == old(self).sent_by_host,
            final(self).sent_by_client == old(self).sent_by_client,
            final(self).consumed_by_host == old(self).consumed_by_host,
            final(self).client.outgoing == old(self).client.outgoing,
            final(self).client.turn == old(self).client.turn,
            final(self).client.connected == old(self).client.connected,
            final(self).client.is_host == old(self).client.is_host,
    {
        let pending = self.client.incoming.len();
        let r = self.client.poll_move();
        proof {
            if pending > 0 {
                self.consumed_by_client@ = self.consumed_by_client@.push(
                    old(self).client.incoming@[0],
                );
                assert(final(self).sent_by_host@ =~= final(self).consumed_by_client@
                    + final(self).client.incoming@ + final(self).wire_to_client@
                    + final(self).host.outgoing@);
            }
        }
        r
    }

    /// The host's game layer polls one received line, symmetric to
    /// `client_poll`.
    pub fn host_poll(&mut self) -> (r: Option<(u8, u8)>)
        requires
            old(self).wf(),
        ensures
            final(self).wf(),
            old(self).host.incoming@.len() == 0 ==> r is None && *final(self) == *old(self),
            old(self).host.incoming@.len() > 0 ==> r == codec::parse_line_spec(
                old(self).host.incoming@[0],
            ) && final(self).host.incoming@ == old(self).host.incoming@.drop_first()
                && final(self).consumed_by_host@ == old(self).consumed_by_host@.push(
                old(self).host.incoming@[0],
            ),
            final(self).client == old(self).client,
            final(self).sent_by_host == old(self).sent_by_host,
            final(self).sent_by_client == old(self).sent_by_client,
            final(self).consumed_by_client == old(self).consumed_by_client,
            final(self).host.outgoing == old(self).host.outgoing,
            final(self).host.turn == old(self).host.turn,
            final(self).host.connected == old(self).host.connected,
            final(self).host.is_host == old(self).host.is_host,
    {
        let pending = self.host.incoming.len();
        let r = self.host.poll_move();
        proof {
            if pending > 0 {
                self.consumed_by_host@ = self.consumed_by_host@.push(old(self).host.incoming@[0]);
                assert(final(self).sent_by_client@ =~= final(self).consumed_by_host@
                    + final(self).host.incoming@ + final(self).wire_to_host@
                    + final(self).client.outgoing@);
            }
        }
        r
    }
}

/// No self-echo: a value that one side never queued for sending cannot
/// appear in the opposite incoming queue — in particular, nothing a side
/// wrote to its own outgoing queue can come back at it through its own
/// incoming queue unless the peer sent the same value itself.
pub proof fn lemma_no_self_echo(pair: LoopbackPair, v: Seq<char>)
    requires
        pair.wf(),
    ensures
        !pair.sent_by_host@.contains(v) ==> !pair.client.incoming@.contains(v),
        !pair.sent_by_client@.contains(v) ==> !pair.host.incoming@.contains(v),
{
    if pair.client.incoming@.contains(v) {
        let i = choose|i: int| 0 <= i < pair.client.incoming@.len() && pair.client.incoming@[i]
            == v;
        assert(pair.sent_by_host@[pair.consumed_by_client@.len() + i] == v);
    }
    if pair.host.incoming@.contains(v) {
        let i = choose|i: int| 0 <= i < pair.host.incoming@.len() && pair.host.incoming@[i] == v;
        assert(pair.sent_by_client@[pair.consumed_by_host@.len() + i] == v);
    }
}

/// FIFO order, end to end, at any instant: what the client has consumed so
/// far, followed by what still waits in its incoming queue, is a prefix of
/// the host's send log — the client never sees messages out of send order,
/// and symmetrically for the host.
pub proof fn lemma_delivery_in_send_order(pair: LoopbackPair)
    requires
        pair.wf(),
    ensures
        (pair.consumed_by_client@ + pair.client.incoming@).is_prefix_of(pair.sent_by_host@),
        (pair.consumed_by_host@ + pair.host.incoming@).is_prefix_of(pair.sent_by_client@),
{
    let got_by_client = pair.consumed_by_client@ + pair.client.incoming@;
    assert(got_by_client =~= pair.sent_by_host@.take(got_by_client.len() as int));
    let got_by_host = pair.consumed_by_host@ + pair.host.incoming@;
    assert(got_by_host =~= pair.sent_by_client@.take(got_by_host.len() as int));
}

/// FIFO order, end to end: once the sender's outgoing queue is drained and
/// the wire is empty, and before the receiver consumes anything, the
/// receiver's incoming queue holds exactly the sent messages, in the exact
/// order they were queued.
pub proof fn lemma_fifo_order(pair: LoopbackPair)
    requires
        pair.wf(),
        pair.consumed_by_client@.len() == 0,
        pair.wire_to_client@.len() == 0,
        pair.host.outgoing@.len() == 0,
    ensures
        pair.client.incoming@ == pair.sent_by_host@,
{
    assert(pair.client.incoming@ =~= pair.sent_by_host@);
}

} // verus!
