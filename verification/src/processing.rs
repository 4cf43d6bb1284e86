//! The decisions around running one document through the engine: admission to
//! a processing slot, and what the finished task comes to.
use vstd::prelude::*;
use crate::error::{converts_failure, join_message, ApiError, PdfFailure};

verus! {

/// How waiting for a processing slot ended.
#[derive(Debug, Clone, Copy, PartialEq, Eq, Structural)]
pub enum SlotWait {
    /// A slot was free within the queue timeout.
    Acquired,
    /// The slots were closed (the server is shutting down).
    Closed,
    /// No slot came free within the queue timeout.
    TimedOut,
}

/// How the engine task ended.
#[derive(Debug, Clone)]
pub enum TaskOutcome<T> {
    /// The engine produced a result.
    Finished(T),
    /// The engine refused the document.
    Failed(PdfFailure),
    /// The task panicked; the text is the join error's message.
    Panicked(String),
}

/// Whether a request may go on to processing: only with a slot; when the slots
/// are closed or the wait timed out the server is busy.
pub fn admit_request(wait: SlotWait) -> (r: Result<(), ApiError>)
    ensures
        r == (match wait {
            SlotWait::Acquired => Ok(()),
            _ => Err(ApiError::ServerBusy),
        }),
{
    match wait {
        SlotWait::Acquired => Ok(()),
        SlotWait::Closed => Err(ApiError::ServerBusy),
        SlotWait::TimedOut => Err(ApiError::ServerBusy),
    }
}

/// What the request answers once the engine task has ended.
pub fn finish_task<T>(outcome: TaskOutcome<T>) -> (r: Result<T, ApiError>)
    ensures
        match outcome {
            TaskOutcome::Finished(v) => r == Ok::<T, ApiError>(v),
            TaskOutcome::Failed(e) => r matches Err(a) && converts_failure(e, a),
            TaskOutcome::Panicked(detail) => r matches Err(ApiError::Internal(msg)) && msg@
                == "processing failed: "@ + detail@,
        },
{
    match outcome {
        TaskOutcome::Finished(v) => Ok(v),
        TaskOutcome::Failed(e) => Err(ApiError::from_pdf_error(e)),
        TaskOutcome::Panicked(detail) => Err(
            ApiError::Internal(join_message("processing failed: ", detail.as_str())),
        ),
    }
}

} // verus!
