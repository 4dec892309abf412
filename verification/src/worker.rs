//! The connection worker's decisions: what the per-connection loop does
//! next, and how each wire event changes the session.
//!
//! The loop around these functions — the socket writes, the blocking line
//! read, the short sleep between iterations — lives outside this crate;
//! every decision it takes comes from here. Each iteration first drains
//! the outgoing queue (oldest message first), then, only when the turn
//! gate allows listening, performs one blocking line read and hands the
//! outcome back as a [`ReadEvent`].

use vstd::prelude::*;

use crate::codec;
use crate::connection_state::ConnectionState;
use crate::gate;

verus! {

use vstd::string::StrSliceExecFns;

/// The worker's two states; `Disconnected` is terminal — there is no
/// reconnection transition.
#[derive(Clone, Copy, PartialEq, Eq, Structural, Debug)]
pub enum WorkerStatus {
    Running,
    Disconnected,
}

/// What one blocking line read came back with.
pub enum ReadEvent {
    /// Zero bytes read: the peer closed its write side.
    Closed,
    /// A line arrived, terminator and surrounding whitespace still on it.
    Line(String),
    /// A transient would-block condition; only reachable when the read is
    /// configured with a timeout, kept as defensive handling.
    WouldBlock,
    /// Any other I/O error.
    Failed,
}

/// What the loop must do next.
pub enum WorkerAction {
    /// Write this message to the socket as one line, then report the
    /// outcome through `on_write_result`.
    Write(String),
    /// Perform one blocking line read, then report the outcome through
    /// `on_read_event`.
    Listen,
    /// Nothing to send and the turn parity forbids reading: sleep briefly, then
    /// ask again.
    Idle,
    /// The worker has terminated; attempt no further write or read.
    Stop,
}

/// Decides the next step of the worker loop: a terminated worker stops; a
/// running one drains the oldest outgoing message first, and only with an
/// empty outgoing queue listens — exactly when the turn gate says it is
/// the opponent's turn.
pub fn next_action(status: WorkerStatus, state: &mut ConnectionState) -> (a: WorkerAction)
    ensures
        status == WorkerStatus::Disconnected ==> a is Stop && *final(state) == *old(state),
        status == WorkerStatus::Running && old(state).outgoing@.len() > 0 ==> (a matches
            WorkerAction::Write(m) && m@ == old(state).outgoing@[0]) && final(state).outgoing@
            == old(state).outgoing@.drop_first(),
        status == WorkerStatus::Running && old(state).outgoing@.len() == 0 ==> *final(state)
            == *old(state) && (a is Listen <==> gate::spec_should_listen(old(state).turn, old(state).role_spec()))
            && (a is Idle <==> !gate::spec_should_listen(old(state).turn, old(state).role_spec())),
        final(state).incoming == old(state).incoming,
        final(state).connected == old(state).connected,
        final(state).is_host == old(state).is_host,
        final(state).turn == old(state).turn,
{
    match status {
        WorkerStatus::Disconnected => WorkerAction::Stop,
        WorkerStatus::Running => {
            match state.outgoing.pop_front() {
                Some(m) => WorkerAction::Write(m),
                None => {
                    if gate::should_listen(state.turn, state.role()) {
                        WorkerAction::Listen
                    } else {
                        WorkerAction::Idle
                    }
                },
            }
        },
    }
}

/// Records the outcome of writing one message: on success nothing changes;
/// on failure the undelivered message returns to the front of the outgoing
/// queue, so order is kept and the next iteration retries. A write failure
/// never terminates the worker.
pub fn on_write_result(state: &mut ConnectionState, msg: String, ok: bool)
    ensures
        ok ==> *final(state) == *old(state),
        !ok ==> final(state).outgoing@ == seq![msg@] + old(state).outgoing@,
        final(state).incoming == old(state).incoming,
        final(state).connected == old(state).connected,
        final(state).is_host == old(state).is_host,
        final(state).turn == old(state).turn,
{
    if !ok {
        state.outgoing.push_front(msg);
    }
}

/// Handles the outcome of one gated line read. A clean close by the peer
/// (zero bytes) or any unexpected I/O error terminates the worker; a
/// would-block condition is ignored; a received line is trimmed and, when
/// anything is left of it, enqueued onto the incoming queue — malformed
/// content is still enqueued and left to the consumer to drop, and never
/// terminates the worker.
pub fn on_read_event(state: &mut ConnectionState, ev: ReadEvent) -> (st: WorkerStatus)
    ensures
        ev is Closed ==> st == WorkerStatus::Disconnected && *final(state) == *old(state),
        ev is Failed ==> st == WorkerStatus::Disconnected && *final(state) == *old(state),
        ev is WouldBlock ==> st == WorkerStatus::Running && *final(state) == *old(state),
        ev matches ReadEvent::Line(line) ==> st == WorkerStatus::Running && (
        codec::trim_spec(line@).len() > 0 ==> final(state).incoming@ == old(
            state,
        ).incoming@.push(codec::trim_spec(line@)) && codec::is_clean(codec::trim_spec(line@)))
            && (codec::trim_spec(line@).len() == 0 ==> *final(state) == *old(state)),
        final(state).outgoing == old(state).outgoing,
        final(state).connected == old(state).connected,
        final(state).is_host == old(state).is_host,
        final(state).turn == old(state).turn,
{
    match ev {
        ReadEvent::Closed => WorkerStatus::Disconnected,
        ReadEvent::Failed => WorkerStatus::Disconnected,
        ReadEvent::WouldBlock => WorkerStatus::Running,
        ReadEvent::Line(line) => {
            let msg = codec::trim_line(line.as_str());
            if msg.as_str().unicode_len() > 0 {
                proof {
                    codec::lemma_trim_clean(line@);
                }
                state.incoming.push_back(msg);
            }
            WorkerStatus::Running
        },
    }
}

} // verus!
