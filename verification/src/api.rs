//! Wire-contract types shared by the lifecycle service, its clients and the
//! command dispatch loop.

use vstd::prelude::*;

verus! {

/// Lifecycle status of a registered container.
#[derive(Clone, Copy, Debug, PartialEq, Eq, Structural)]
pub enum VmStatus {
    Creating,
    Created,
    Running,
    Stopped,
}

/// Failure reported to the caller of a lifecycle operation.
#[derive(Clone, Copy, Debug, PartialEq, Eq, Structural)]
pub enum Error {
    ContainerAlreadyExists,
    ContainerNotFound,
    UnexpectedContainerStatus(VmStatus),
    VmCommandFailed,
}

/// Kind of a lifecycle request.
#[derive(Clone, Copy, Debug, PartialEq, Eq, Structural)]
pub enum Operation {
    Create,
    Delete,
    Kill,
    Start,
    State,
    Connect,
}

/// Work handed to the command dispatch loop, which owns the guest backend.
#[derive(Clone, Debug, PartialEq, Eq)]
pub enum Command {
    Start,
    Kill,
    Connect(u32),
    Disconnect(u32),
    VsockSend(u32, Vec<u8>),
    VsockRecv(u32),
}

/// Mathematical value of a [`Command`]: the payload is a sequence of bytes.
pub ghost enum CommandView {
    Start,
    Kill,
    Connect(u32),
    Disconnect(u32),
    VsockSend(u32, Seq<u8>),
    VsockRecv(u32),
}

impl View for Command {
    type V = CommandView;

    open spec fn view(&self) -> CommandView {
        match self {
            Command::Start => CommandView::Start,
            Command::Kill => CommandView::Kill,
            Command::Connect(port) => CommandView::Connect(*port),
            Command::Disconnect(port) => CommandView::Disconnect(*port),
            Command::VsockSend(port, data) => CommandView::VsockSend(*port, data@),
            Command::VsockRecv(port) => CommandView::VsockRecv(*port),
        }
    }
}

/// The values of a list of commands, in order.
pub open spec fn command_views(commands: Seq<Command>) -> Seq<CommandView> {
    Seq::new(commands.len(), |i: int| commands[i]@)
}

/// A lifecycle request as a client states it.
#[derive(Clone, Debug, PartialEq, Eq)]
pub struct Request {
    pub container_id: String,
    pub operation: Operation,
    /// Path of the bundle; present on a create request.
    pub bundle: Option<String>,
}

/// Mathematical value of a [`Request`].
pub ghost struct RequestView {
    pub container_id: Seq<char>,
    pub operation: Operation,
    pub bundle: Option<Seq<char>>,
}

impl View for Request {
    type V = RequestView;

    open spec fn view(&self) -> RequestView {
        RequestView {
            container_id: self.container_id@,
            operation: self.operation,
            bundle: match self.bundle {
                Some(path) => Some(path@),
                None => None,
            },
        }
    }
}

/// Answer to a state query.
#[derive(Clone, Debug, PartialEq, Eq)]
pub struct Response {
    pub container_id: String,
    pub status: VmStatus,
    /// Process identifier of the container, where one is known.
    pub pid: Option<i32>,
    pub bundle: String,
}

/// Mathematical value of a [`Response`].
pub ghost struct ResponseView {
    pub container_id: Seq<char>,
    pub status: VmStatus,
    pub pid: Option<i32>,
    pub bundle: Seq<char>,
}

impl View for Response {
    type V = ResponseView;

    open spec fn view(&self) -> ResponseView {
        ResponseView {
            container_id: self.container_id@,
            status: self.status,
            pid: self.pid,
            bundle: self.bundle@,
        }
    }
}

} // verus!
