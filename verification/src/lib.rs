//! Lifecycle coordination for a daemon that manages containers backed by one
//! virtual machine: the container registry with its port allocation, the
//! lifecycle state machine, the guest command protocol and the decisions of the
//! command dispatch loop.
//!
//! The library performs no I/O. A lifecycle operation is split in two calls: the
//! first validates the request against the registry and yields the guest
//! commands to deliver, the second records the outcome once the caller has
//! delivered them.

pub mod api;
pub mod commands;
pub mod daemon;
pub mod dispatch;
pub mod laws;
pub mod lifecycle;
pub mod registry;
