//! Requests as the command-line client builds them.

use crate::api::{Operation, Request, RequestView};
use vstd::prelude::*;

verus! {

/// The request that asks the daemon to start a container.
pub fn start(container_id: String) -> (request: Request)
    ensures
        request@ == (RequestView {
            container_id: container_id@,
            operation: Operation::Start,
            bundle: None,
        }),
{
    Request { container_id, operation: Operation::Start, bundle: None }
}

} // verus!
