//! The cycle that drives the probe engine: hold on a bit, fetch the map,
//! probe every replica, hold until the next cycle, and so on forever.
use vstd::prelude::*;

verus! {

/// Seconds to hold before the first cycle of a fresh worker.
pub const PROBE_RUN_HOLD_SECONDS: u64 = 2;

/// Seconds between two cycles; also the interval that reports announce.
pub const PROBE_CHECK_INTERVAL_SECONDS: u64 = 120;

/// Seconds the supervisor waits before it starts a worker that ended abnormally.
pub const PROBE_RESTART_HOLD_SECONDS: u64 = 5;

#[derive(Debug, Clone, Copy, PartialEq, Eq, Structural)]
pub enum CyclePhase {
    Starting,
    Syncing,
    Dispatching,
    Holding,
}

/// What the worker does in a phase.
#[derive(Debug, Clone, Copy, PartialEq, Eq, Structural)]
pub enum CycleAction {
    Sleep(u64),
    Sync,
    Dispatch,
}

pub open spec fn cycle_next_spec(phase: CyclePhase) -> (CyclePhase, CycleAction) {
    match phase {
        CyclePhase::Starting => (CyclePhase::Syncing, CycleAction::Sleep(PROBE_RUN_HOLD_SECONDS)),
        CyclePhase::Syncing => (CyclePhase::Dispatching, CycleAction::Sync),
        CyclePhase::Dispatching => (CyclePhase::Holding, CycleAction::Dispatch),
        CyclePhase::Holding => (CyclePhase::Syncing, CycleAction::Sleep(PROBE_CHECK_INTERVAL_SECONDS)),
    }
}

/// The action of `phase` and the phase that follows it. Dispatch follows
/// every synchronization, whatever came of it: a failed one leaves the map
/// as it was, and the replicas are probed on that map.
pub fn cycle_next(phase: CyclePhase) -> (r: (CyclePhase, CycleAction))
    ensures
        r == cycle_next_spec(phase),
{
    match phase {
        CyclePhase::Starting => (CyclePhase::Syncing, CycleAction::Sleep(PROBE_RUN_HOLD_SECONDS)),
        CyclePhase::Syncing => (CyclePhase::Dispatching, CycleAction::Sync),
        CyclePhase::Dispatching => (CyclePhase::Holding, CycleAction::Dispatch),
        CyclePhase::Holding => (CyclePhase::Syncing, CycleAction::Sleep(PROBE_CHECK_INTERVAL_SECONDS)),
    }
}

/// The cycle never ends: every phase has a next one, and from any phase the
/// worker comes back to a synchronization within three steps.
pub proof fn lemma_cycle_returns_to_sync(phase: CyclePhase)
    ensures
        ({
            let p1 = cycle_next_spec(phase).0;
            let p2 = cycle_next_spec(p1).0;
            let p3 = cycle_next_spec(p2).0;
            phase == CyclePhase::Syncing || p1 == CyclePhase::Syncing || p2 == CyclePhase::Syncing
                || p3 == CyclePhase::Syncing
        }),
{
}

} // verus!
