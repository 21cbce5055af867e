//! Decisions of the command dispatch loop, which owns the guest backend and
//! serves the command queue: one backend call for each command, in the order
//! of the queue.
//!
//! The loop begins with [`Step::Next`]. It does what the step says, tells
//! [`react`] how that went and gets the step that follows, until the step is
//! [`Step::Stop`].

use crate::api::{Command, CommandView};
use vstd::prelude::*;

verus! {

/// What the loop learns while it serves the command queue.
#[derive(Clone, Debug, PartialEq, Eq)]
pub enum Event {
    /// This command was taken from the command queue.
    Command(Command),
    /// The command queue is closed: no command will come.
    CommandQueueClosed,
    /// The backend call for the command that was taken from the queue failed.
    BackendFailed,
    /// The backend call for this command succeeded. The bytes are what the
    /// guest sent, for a `VsockRecv`; for any other command they are not read.
    BackendDone(Command, Vec<u8>),
    /// The reply was put on the reply queue.
    ReplySent,
    /// The reply queue is closed.
    ReplyQueueClosed,
}

/// Mathematical value of an [`Event`].
pub ghost enum EventView {
    Command(CommandView),
    CommandQueueClosed,
    BackendFailed,
    BackendDone(CommandView, Seq<u8>),
    ReplySent,
    ReplyQueueClosed,
}

impl View for Event {
    type V = EventView;

    open spec fn view(&self) -> EventView {
        match self {
            Event::Command(command) => EventView::Command(command@),
            Event::CommandQueueClosed => EventView::CommandQueueClosed,
            Event::BackendFailed => EventView::BackendFailed,
            Event::BackendDone(command, received) => EventView::BackendDone(command@, received@),
            Event::ReplySent => EventView::ReplySent,
            Event::ReplyQueueClosed => EventView::ReplyQueueClosed,
        }
    }
}

/// What the loop does next.
#[derive(Clone, Debug, PartialEq, Eq)]
pub enum Step {
    /// Take the next command from the queue.
    Next,
    /// Make the one backend call that this command stands for.
    Call(Command),
    /// Put this port and these bytes on the reply queue.
    Reply(u32, Vec<u8>),
    /// Leave the loop: the daemon cannot go on.
    Stop,
}

/// Mathematical value of a [`Step`].
pub ghost enum StepView {
    Next,
    Call(CommandView),
    Reply(u32, Seq<u8>),
    Stop,
}

impl View for Step {
    type V = StepView;

    open spec fn view(&self) -> StepView {
        match self {
            Step::Next => StepView::Next,
            Step::Call(command) => StepView::Call(command@),
            Step::Reply(port, data) => StepView::Reply(*port, data@),
            Step::Stop => StepView::Stop,
        }
    }
}

/// The step that follows an event. A command from the queue gets its backend
/// call. What a `VsockRecv` received goes to the reply queue under the port of
/// the command; after any other successful call, and after a reply was sent,
/// the next command is taken; a closed queue and a failed backend call end
/// the loop.
pub open spec fn reaction(event: EventView) -> StepView {
    match event {
        EventView::Command(command) => StepView::Call(command),
        EventView::BackendDone(CommandView::VsockRecv(port), received) => StepView::Reply(
            port,
            received,
        ),
        EventView::BackendDone(_, _) => StepView::Next,
        EventView::ReplySent => StepView::Next,
        EventView::CommandQueueClosed => StepView::Stop,
        EventView::BackendFailed => StepView::Stop,
        EventView::ReplyQueueClosed => StepView::Stop,
    }
}

/// Decides what the dispatch loop does after `event`.
pub fn react(event: Event) -> (step: Step)
    ensures
        step@ == reaction(event@),
{
    match event {
        Event::Command(command) => Step::Call(command),
        Event::BackendDone(Command::VsockRecv(port), received) => Step::Reply(port, received),
        Event::BackendDone(_, _) => Step::Next,
        Event::ReplySent => Step::Next,
        Event::CommandQueueClosed => Step::Stop,
        Event::BackendFailed => Step::Stop,
        Event::ReplyQueueClosed => Step::Stop,
    }
}

} // verus!
