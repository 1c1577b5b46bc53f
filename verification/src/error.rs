//! Errors of the task queue.
use vstd::prelude::*;

verus! {

#[verifier::external_type_specification]
#[verifier::external_body]
pub struct ExIoError(std::io::Error);

/// Why a task queue could not be built or could not schedule a task.
#[derive(Debug)]
pub enum TaskQueueError {
    /// The thread counts asked for at creation were refused.
    IllegalStartThreads { min: usize, max: usize },
    /// A worker thread could not be started.
    Io(std::io::Error),
    /// The spawn policy asked for a thread count outside the queue's bounds.
    IllegalPolicyThreads { min: usize, max: usize, count: usize },
}

impl TaskQueueError {
    /// The error for refused creation bounds `min` and `max`.
    pub fn illegal_start_threads(min: usize, max: usize) -> (e: TaskQueueError)
        ensures
            e == (TaskQueueError::IllegalStartThreads { min: min, max: max }),
    {
        TaskQueueError::IllegalStartThreads { min, max }
    }

    /// The error for a policy count `count` outside `min..=max`.
    pub fn illegal_policy_threads(min: usize, max: usize, count: usize) -> (e: TaskQueueError)
        ensures
            e == (TaskQueueError::IllegalPolicyThreads { min: min, max: max, count: count }),
    {
        TaskQueueError::IllegalPolicyThreads { min, max, count }
    }
}

impl From<std::io::Error> for TaskQueueError {
    fn from(err: std::io::Error) -> (e: TaskQueueError)
        ensures
            e == TaskQueueError::Io(err),
    {
        TaskQueueError::Io(err)
    }
}

impl vstd::std_specs::convert::FromSpecImpl<std::io::Error> for TaskQueueError {
    open spec fn obeys_from_spec() -> bool {
        true
    }

    open spec fn from_spec(err: std::io::Error) -> TaskQueueError {
        TaskQueueError::Io(err)
    }
}

} // verus!
