//! The select/dispatch state machine.
//!
//! Executing an action moves the session from `Executing` to exactly one of
//! two states: `Terminal` (the process should exit) or `Reset` (clear the
//! query and results and stay interactive). Which one is entirely
//! determined by the kind of the action: only a provider-internal mutation
//! (`Refetch`) resets; every other kind is terminal.
use crate::model::SelectAction;
use vstd::prelude::*;

verus! {

/// The session states of the dispatcher.
#[derive(Debug, Clone, Copy, PartialEq, Eq, Structural)]
pub enum DispatchState {
    /// No action is pending.
    Idle,
    /// An action is being run.
    Executing,
    /// The session is complete; the process should exit.
    Terminal,
    /// Clear the query and results and stay interactive.
    Reset,
}

/// Whether executing the action ends the session.
pub open spec fn spec_terminates(a: SelectAction) -> bool {
    !(a is Refetch)
}

/// Whether executing the action ends the session: `true` for every effect
/// kind but the provider-internal mutation.
pub fn action_terminates(a: &SelectAction) -> (r: bool)
    ensures
        r == spec_terminates(*a),
{
    match a {
        SelectAction::Refetch { .. } => false,
        _ => true,
    }
}

/// Starting to run an action moves an idle session to `Executing`; no other
/// state starts one.
pub open spec fn spec_begin(s: DispatchState) -> DispatchState {
    match s {
        DispatchState::Idle => DispatchState::Executing,
        other => other,
    }
}

/// Hand an action over for execution.
pub fn begin(s: DispatchState) -> (next: DispatchState)
    ensures
        next == spec_begin(s),
{
    match s {
        DispatchState::Idle => DispatchState::Executing,
        other => other,
    }
}

/// The state an executing session moves to, given the signal the action
/// returned; no other transition leaves `Executing`.
pub open spec fn spec_step(s: DispatchState, terminated: bool) -> DispatchState {
    match s {
        DispatchState::Executing => if terminated {
            DispatchState::Terminal
        } else {
            DispatchState::Reset
        },
        other => other,
    }
}

/// Run one transition of the dispatcher.
pub fn step(s: DispatchState, terminated: bool) -> (next: DispatchState)
    ensures
        next == spec_step(s, terminated),
{
    match s {
        DispatchState::Executing => if terminated {
            DispatchState::Terminal
        } else {
            DispatchState::Reset
        },
        other => other,
    }
}

/// From `Executing`, an action leads to `Terminal` or to `Reset` and to
/// nothing else, and `Reset` is reached exactly by the provider-internal
/// mutation.
pub proof fn lemma_dispatch_two_outcomes(a: SelectAction)
    ensures
        spec_step(DispatchState::Executing, spec_terminates(a)) == DispatchState::Terminal
            || spec_step(DispatchState::Executing, spec_terminates(a)) == DispatchState::Reset,
        spec_step(DispatchState::Executing, spec_terminates(a)) == DispatchState::Reset <==> a
            is Refetch,
{
}

} // verus!
