//! The server's main loop as a decision: what to do next, given whether a
//! shutdown was asked for and what the ring's header shows.

use vstd::prelude::*;
use crate::ring::{next_index, Header, Ticket};

verus! {

/// How long the server sleeps when it finds the ring empty, in milliseconds.
pub const IDLE_MILLIS: u64 = 100;

/// The number of buckets of the server's table unless another is asked for.
pub const DEFAULT_BUCKETS: usize = 10;

/// The number of workers in the server's pool unless another is asked for.
pub const DEFAULT_WORKERS: usize = 4;

/// The next thing for the main loop to do.
#[derive(Debug, Copy, Clone, PartialEq, Eq, Structural)]
pub enum ServerStep {
    /// Take no more work, wait for the workers and clean up.
    Stop,
    /// Copy the record out of the ticket's slot, publish the ticket's index
    /// as the read index and hand the record to a worker.
    Take(Ticket),
    /// Sleep for that many milliseconds and look again.
    Sleep(u64),
}

/// The step that follows from a shutdown flag and a header.
pub open spec fn server_step_of(shutdown: bool, header: Header) -> ServerStep {
    if shutdown {
        ServerStep::Stop
    } else if header.spec_is_empty() {
        ServerStep::Sleep(IDLE_MILLIS)
    } else {
        ServerStep::Take(
            Ticket {
                slot: header.read_index,
                next: next_index(header.read_index as int) as usize,
            },
        )
    }
}

/// Decides the main loop's next step. A shutdown that was asked for comes
/// first; an empty ring means sleep; otherwise the oldest record is taken.
pub fn plan_server_step(shutdown: bool, header: Header) -> (step: ServerStep)
    requires
        header.wf(),
    ensures
        step == server_step_of(shutdown, header),
{
    if shutdown {
        return ServerStep::Stop;
    }
    match header.plan_dequeue() {
        Ok(ticket) => ServerStep::Take(ticket),
        Err(_) => ServerStep::Sleep(IDLE_MILLIS),
    }
}

} // verus!
