//! The turn gate: which side of the connection may read from the wire.
//!
//! The turn counter's parity encodes which side is active. A worker must
//! only listen for inbound traffic while it is the *opponent's* turn; while
//! it is the local side's turn, only the local side produces messages.

use vstd::prelude::*;

verus! {

/// Which end of the connection this process is: the `Host` binds and waits
/// for the one inbound connection and owns the first move; the `Client`
/// dials outward.
#[derive(Clone, Copy, PartialEq, Eq, Structural, Debug)]
pub enum PeerRole {
    Host,
    Client,
}

/// Parity of the turn counter; an odd counter means the host is active.
pub open spec fn is_odd(turn: usize) -> bool {
    turn % 2 == 1
}

/// The gating rule: a side listens exactly when the turn parity and its
/// role disagree, i.e. when it is not this side's own turn.
pub open spec fn spec_should_listen(turn: usize, role: PeerRole) -> bool {
    is_odd(turn) != (role == PeerRole::Host)
}

/// The complement of the listening rule: true exactly when the local side may move.
pub open spec fn spec_is_local_turn(turn: usize, role: PeerRole) -> bool {
    is_odd(turn) == (role == PeerRole::Host)
}

/// At any instant exactly one side is active: whatever the turn counter
/// reads, one peer may move while the other — and only the other — may
/// listen.
pub proof fn lemma_one_side_active(turn: usize)
    ensures
        spec_should_listen(turn, PeerRole::Host) != spec_should_listen(turn, PeerRole::Client),
        spec_is_local_turn(turn, PeerRole::Host) != spec_is_local_turn(turn, PeerRole::Client),
{
}

/// Decides whether a worker with the given role may attempt a wire read at
/// the given turn count.
pub fn should_listen(turn: usize, role: PeerRole) -> (r: bool)
    ensures
        r == spec_should_listen(turn, role),
        r == (is_odd(turn) != (role == PeerRole::Host)),
{
    (turn % 2 == 1) != (role == PeerRole::Host)
}

/// Decides whether the local side may currently select and play a move.
pub fn is_local_turn(turn: usize, role: PeerRole) -> (r: bool)
    ensures
        r == spec_is_local_turn(turn, role),
        r == !spec_should_listen(turn, role),
{
    (turn % 2 == 1) == (role == PeerRole::Host)
}

} // verus!
