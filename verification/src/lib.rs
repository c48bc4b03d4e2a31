//! Protocol logic of small cluster nodes that talk in envelopes.
//!
//! Every node is a state machine: it takes one event, changes its own state
//! and hands back the envelopes to send, in the order in which they are to be
//! written. Reading and writing the streams, and the timers that make the
//! ticks, are left to the caller.
//!
//! - [`message`]: the envelope and the handshake.
//! - [`echo`], [`unique_id`]: two nodes that only answer.
//! - [`broadcast`]: the gossip broadcast node; [`delivery`] and [`cluster`]
//!   hold what is proved of one such node and of a cluster of them.
//! - [`grow_counter`]: the replicated counter node; [`conflict`] reads the
//!   store's report of a stale compare-and-swap.
//! - [`replies`]: how answers belong to requests.
//! - [`error`]: the ways in which a node refuses an event.

pub mod broadcast;
pub mod cluster;
pub mod conflict;
pub mod delivery;
pub mod echo;
pub mod error;
pub mod grow_counter;
pub mod message;
pub mod replies;
pub mod unique_id;
