//! Rules of the daemon's startup and the sizes of its queues.

use vstd::prelude::*;

verus! {

/// Number of commands that the command queue holds before a sender waits.
pub const COMMAND_QUEUE_CAPACITY: usize = 8;

/// Number of replies that the reply queue holds before the dispatch loop waits.
pub const REPLY_QUEUE_CAPACITY: usize = 8;

/// Number of accepted connections whose setup may be in flight at once.
pub const MAX_PENDING_CONNECTIONS: usize = 10;

/// What the daemon does about the path of its rendezvous socket before it
/// listens there.
#[derive(Clone, Copy, Debug, PartialEq, Eq, Structural)]
pub enum SocketAction {
    /// Nothing is at the path: listen.
    Listen,
    /// A socket of an earlier run is at the path: remove it, then listen.
    RemoveStale,
    /// Something else is at the path, or the path could not be looked at: do
    /// not start.
    Refuse,
}

/// The rule for the rendezvous socket path.
pub open spec fn spec_socket_action(exists: Option<bool>, is_socket: bool) -> SocketAction {
    match exists {
        None => SocketAction::Refuse,
        Some(false) => SocketAction::Listen,
        Some(true) => if is_socket {
            SocketAction::RemoveStale
        } else {
            SocketAction::Refuse
        },
    }
}

/// Decides what to do about the rendezvous socket path. `exists` says whether
/// something is at the path, `None` where that could not be found out;
/// `is_socket` says whether what is there is a socket, and is read only where
/// something is there.
pub fn socket_action(exists: Option<bool>, is_socket: bool) -> (action: SocketAction)
    ensures
        action == spec_socket_action(exists, is_socket),
{
    match exists {
        None => SocketAction::Refuse,
        Some(false) => SocketAction::Listen,
        Some(true) => if is_socket {
            SocketAction::RemoveStale
        } else {
            SocketAction::Refuse
        },
    }
}

} // verus!
