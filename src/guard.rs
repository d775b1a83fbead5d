//! The run guard: at most one run at a time, its cancellation token, and the
//! result of the last run that completed.
use vstd::prelude::*;
use vstd::string::*;
use crate::types::{FinalResult, RunError};

verus! {

/// State shared by the control operations.
#[derive(Debug, Clone)]
pub struct AppState {
    pub is_processing: bool,
    pub should_cancel: bool,
    pub last_result: Option<FinalResult>,
}

impl AppState {
    /// Idle, with no cancellation requested and no result yet.
    pub fn new() -> (r: AppState)
        ensures
            !r.is_processing,
            !r.should_cancel,
            r.last_result.is_none(),
    {
        AppState { is_processing: false, should_cancel: false, last_result: None }
    }
}

/// The result of the last run, only while no run is active.
pub fn get_last_result(state: &AppState) -> (r: Option<FinalResult>)
    ensures
        r == if state.is_processing { None } else { state.last_result },
{
    if state.is_processing {
        None
    } else {
        state.last_result
    }
}

/// Whether a run is active.
pub fn get_processing_state(state: &AppState) -> (r: bool)
    ensures
        r == state.is_processing,
{
    state.is_processing
}

/// Asks the active run to stop; asking again changes nothing.
pub fn cancel_optimization(state: &mut AppState)
    ensures
        final(state).should_cancel,
        final(state).is_processing == old(state).is_processing,
        final(state).last_result == old(state).last_result,
{
    state.should_cancel = true;
}

/// Starts a run: refused while one is active, which is left as it was;
/// otherwise the token and the last result are cleared.
pub fn begin_run(state: &mut AppState) -> (r: Result<(), RunError>)
    ensures
        old(state).is_processing ==> r == Err::<(), RunError>(RunError::AlreadyRunning)
            && final(state).is_processing && final(state).should_cancel == old(state).should_cancel
            && final(state).last_result == old(state).last_result,
        !old(state).is_processing ==> r is Ok && final(state).is_processing && !final(state).should_cancel
            && final(state).last_result.is_none(),
{
    if state.is_processing {
        return Err(RunError::AlreadyRunning);
    }
    state.is_processing = true;
    state.should_cancel = false;
    state.last_result = None;
    Ok(())
}

/// Ends a run, whatever its outcome: the guard is idle again, and a result
/// becomes the last result. Hands the outcome back.
pub fn finish_run(state: &mut AppState, outcome: Result<FinalResult, RunError>) -> (r: Result<FinalResult, RunError>)
    ensures
        !final(state).is_processing,
        final(state).should_cancel == old(state).should_cancel,
        final(state).last_result == match outcome {
            Ok(res) => Some(res),
            Err(_) => old(state).last_result,
        },
        r == outcome,
{
    if let Ok(res) = &outcome {
        state.last_result = Some(*res);
    }
    state.is_processing = false;
    outcome
}

impl RunError {
    /// A sentence for the caller.
    pub fn message(&self) -> (r: String)
        ensures
            *self == RunError::EmptyInput ==> r@ == "No supported files found."@,
            *self == RunError::AlreadyRunning ==> r@ == "Optimization is already in progress."@,
            *self == RunError::Internal ==> r@ == "Task panicked or failed internally."@,
            forall|e: String| *self == RunError::Setup(e) ==> r@ == "Failed to setup tools: "@ + e@,
    {
        match self {
            RunError::Setup(e) => {
                let mut r = String::from_str("Failed to setup tools: ");
                r.append(e.as_str());
                r
            },
            RunError::EmptyInput => String::from_str("No supported files found."),
            RunError::AlreadyRunning => String::from_str("Optimization is already in progress."),
            RunError::Internal => String::from_str("Task panicked or failed internally."),
        }
    }
}

} // verus!
