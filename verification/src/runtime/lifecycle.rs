//! High-level lifecycle of the edge agent.

use vstd::prelude::*;

verus! {

/// High-level lifecycle states for the edge agent.
#[derive(Debug, Copy, Clone, PartialEq, Eq, Structural)]
pub enum LifecycleState {
    /// Initial startup state.
    Init,
    /// Agent is running and connected.
    Running,
    /// Agent is shutting down.
    Shutdown,
}

/// Tracks and manages lifecycle transitions.
pub struct Lifecycle {
    state: LifecycleState,
}

impl View for Lifecycle {
    type V = LifecycleState;

    /// The current lifecycle state.
    closed spec fn view(&self) -> LifecycleState {
        self.state
    }
}

impl Lifecycle {
    /// Create a new lifecycle starting in `Init`.
    pub fn new() -> (lifecycle: Self)
        ensures
            lifecycle@ == LifecycleState::Init,
    {
        Self { state: LifecycleState::Init }
    }

    /// Transition the lifecycle into the running state.
    pub fn transition_to_running(&mut self)
        ensures
            final(self)@ == LifecycleState::Running,
    {
        self.state = LifecycleState::Running;
    }

    /// Return the current lifecycle state.
    pub fn state(&self) -> (state: LifecycleState)
        ensures
            state == self@,
    {
        self.state
    }
}

} // verus!
