use vstd::prelude::*;

verus! {

/// Whether further targets may still be started.
#[derive(Clone, Copy, Debug, PartialEq, Eq, Structural)]
pub enum ControllerState {
    Running,
    /// A target failed under fail-fast: nothing more is started.
    Stopped,
}

impl ControllerState {
    /// The state after a target has ended. A failure stops the run where
    /// fail-fast is set; a stopped run stays stopped.
    pub open spec fn after(self, failed: bool, fail_fast: bool) -> ControllerState {
        if self == ControllerState::Stopped || (failed && fail_fast) {
            ControllerState::Stopped
        } else {
            ControllerState::Running
        }
    }

    /// See `after`.
    pub fn observe(self, failed: bool, fail_fast: bool) -> (next: ControllerState)
        ensures
            next == self.after(failed, fail_fast),
    {
        match self {
            ControllerState::Stopped => ControllerState::Stopped,
            ControllerState::Running => if failed && fail_fast {
                ControllerState::Stopped
            } else {
                ControllerState::Running
            },
        }
    }

    pub fn is_stopped(&self) -> (r: bool)
        ensures
            r == (*self == ControllerState::Stopped),
    {
        match self {
            ControllerState::Stopped => true,
            ControllerState::Running => false,
        }
    }
}

/// Nothing leads from `Stopped` back to `Running`, and without fail-fast
/// nothing leads to `Stopped`.
pub proof fn lemma_controller(state: ControllerState, failed: bool, fail_fast: bool)
    ensures
        ControllerState::Stopped.after(failed, fail_fast) == ControllerState::Stopped,
        !fail_fast ==> state.after(failed, false) == state,
        !failed ==> state.after(false, fail_fast) == state,
        failed && fail_fast ==> state.after(failed, fail_fast) == ControllerState::Stopped,
{
}

} // verus!
