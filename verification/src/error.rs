use vstd::prelude::*;

verus! {

/// Outcomes other than success that the socket layer reports to its caller.
#[derive(Clone, Copy, Debug, PartialEq, Eq, Structural)]
pub enum Error {
    /// The packet was too short to carry a complete TCP header.
    Truncated,
    /// The packet carried a header whose fields no valid segment can have.
    Malformed,
    /// The segment is not actionable by this socket: wrong protocol, wrong
    /// endpoint, or not the opening leg of a handshake.
    Rejected,
    /// The segment would have been accepted, but no backlog slot is free.
    Exhausted,
}

} // verus!
