//! From the end of a run to what the caller receives.

use crate::error::InvocationError;
use crate::output::{interpret_output, outcome_of, reported_stream, CsvToDbResult, ProcessOutput};
use vstd::prelude::*;
use vstd::utf8::{encode_utf8, valid_utf8};

verus! {

/// How the attempt to run the importer ended.
#[derive(Debug, PartialEq, Eq)]
pub enum RunOutcome {
    /// The importer was started and ran to its end, with whatever exit
    /// code.
    Completed(ProcessOutput),
    /// The importer could not be started. Holds the system's description.
    SpawnFailed(String),
    /// The background task that runs the importer did not complete. Holds
    /// the scheduler's description.
    SchedulingFailed(String),
}

/// Decides what the caller receives.
///
/// A run that completed always has an outcome, also where the importer
/// reported a failure. A run that could not be started, or whose background
/// task did not complete, has none: the caller receives the matching error
/// with the description unchanged, and the output is not interpreted.
pub fn conclude(outcome: RunOutcome) -> (result: Result<CsvToDbResult, InvocationError>)
    ensures
        match outcome {
            RunOutcome::Completed(output) => {
                &&& result matches Ok(report)
                &&& report@ == outcome_of(output)
                &&& report@.wf()
                &&& valid_utf8(reported_stream(output)) ==> encode_utf8(report@.message)
                    == reported_stream(output)
            },
            RunOutcome::SpawnFailed(description) => {
                &&& result matches Err(InvocationError::SpawnFailure(text))
                &&& text@ == description@
            },
            RunOutcome::SchedulingFailed(description) => {
                &&& result matches Err(InvocationError::SchedulingFailure(text))
                &&& text@ == description@
            },
        },
{
    match outcome {
        RunOutcome::Completed(output) => Ok(interpret_output(&output)),
        RunOutcome::SpawnFailed(description) => Err(InvocationError::SpawnFailure(description)),
        RunOutcome::SchedulingFailed(description) => Err(
            InvocationError::SchedulingFailure(description),
        ),
    }
}

} // verus!
