//! Waiting for streams to leave a state, as part of a shutdown.

use vstd::prelude::*;

use crate::control::state::{models, EntryModel, StreamState, StreamStateManager};

verus! {

/// Milliseconds between two looks.
pub const DRAIN_POLL_MS: u64 = 250;

/// What comes after a look.
#[derive(Debug, Clone, Copy, PartialEq, Eq, Structural)]
pub enum DrainStep {
    /// No stream is left.
    Complete,
    /// Time is up.
    TimedOut,
    /// Look again later.
    Wait { ms: u64 },
}

/// No stream is in the state.
pub open spec fn drained(table: Map<u128, EntryModel>, state: StreamState) -> bool {
    forall|k: u128| #[trigger] table.contains_key(k) ==> table[k].state != state
}

/// What a look leads to, after `elapsed_ms` of waiting for streams to leave `state`.
pub fn drain_step(
    manager: &StreamStateManager,
    state: StreamState,
    elapsed_ms: u64,
    timeout_secs: u64,
) -> (r: DrainStep)
    requires
        manager.wf(),
    ensures
        r == if drained(manager.table(), state) {
            DrainStep::Complete
        } else if elapsed_ms >= timeout_secs * 1000 {
            DrainStep::TimedOut
        } else {
            DrainStep::Wait { ms: DRAIN_POLL_MS }
        },
{
    let left = manager.list_streams(Some(state));
    proof {
        let m = models(left@);
        assert(m.len() == left@.len());
        if m.len() > 0 {
            let e = m[0];
            assert(manager.table().contains_key(e.metadata.stream_id.value));
        }
    }
    if left.len() == 0 {
        DrainStep::Complete
    } else if elapsed_ms as u128 >= timeout_secs as u128 * 1000 {
        DrainStep::TimedOut
    } else {
        DrainStep::Wait { ms: DRAIN_POLL_MS }
    }
}

} // verus!
