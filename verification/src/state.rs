//! The phases of a round, seen from the monitor.
use vstd::prelude::*;

verus! {

/// Where the monitor is in its round.
#[derive(Clone, Copy, PartialEq, Eq, Debug, Structural)]
pub enum MonitorGameState {
    /// Idle, or a chart is being selected.
    Idle,
    /// Waiting for every player's first judge.
    WaitingReady,
    /// The game is running.
    Playing,
    /// The game has ended.
    Ended,
}

} // verus!
