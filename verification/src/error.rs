//! The ways in which a node refuses an event.

use vstd::prelude::*;

verus! {

/// Why a node did not handle an event. A node that refuses an event keeps the
/// state that it had before.
#[derive(Debug, Clone, Copy, PartialEq, Eq, Structural)]
pub enum NodeError {
    /// The first envelope of the handshake was not an `Init` request.
    ExpectedInit,
    /// An acknowledgement arrived at a node that only answers requests.
    UnexpectedReply,
    /// A `Topology` message had no entry for the node that received it.
    MissingTopology,
    /// The node has handed out every message identifier that it has.
    MessageIdExhausted,
    /// The counter, or a total proposed to the store, would leave the range of
    /// the machine's integers.
    CounterOverflow,
}

} // verus!
