//! Checks shared by the server and its connections.

use super::event::{Event, Ready};
use vstd::prelude::*;

verus! {

/// States that `event` carries at least `expected_readiness`. A handler calls
/// this before it acts on an event; an event of another kind has no meaning
/// for it, so such an event is ruled out rather than handled.
pub fn assert_event_readiness(event: Event, expected_readiness: Ready)
    requires
        event.readiness.contains(expected_readiness),
{
    let readiness = event.readiness();
    assert(readiness.contains(expected_readiness));
}

} // verus!
