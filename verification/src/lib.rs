//! A two-peer, turn-synchronized transport core for a networked board game.
//!
//! One peer acts as `Host` (binds and waits, moves first), the other as
//! `Client` (dials the host). Each side keeps a [`ConnectionState`]
//! (`connection_state`): two FIFO message queues (outgoing and incoming), a
//! connected flag, the peer role and a turn counter. A background worker —
//! modeled here as the step functions of [`worker`] — drains the outgoing
//! queue to the wire and, when the turn parity says it is the opponent's
//! turn ([`gate`]), performs a gated line read that feeds the incoming
//! queue. Moves travel as text lines `"<from> <to>"` ([`codec`]).
//!
//! The actual socket and thread plumbing lives outside this crate; every
//! decision the transport makes (gating, draining, read-event handling,
//! framing) is verified here.
//!
//! [`ConnectionState`]: connection_state::ConnectionState

pub mod codec;
pub mod connection_state;
pub mod gate;
pub mod helper;
pub mod loopback;
pub mod move_piece;
pub mod queue;
pub mod worker;
