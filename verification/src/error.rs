//! The errors of the queue.

use vstd::prelude::*;

verus! {

/// A failure of the durable store that backs the queue.
#[derive(Debug, Clone, Copy, PartialEq, Eq, Structural)]
pub enum StorageError {
    /// The stored records could not be read.
    Load,
    /// A record could not be written or deleted.
    Write,
}

/// What a call on the queue can fail with.
#[derive(Debug, Clone, Copy, PartialEq, Eq, Structural)]
pub enum CmdqError {
    /// The task could not be persisted, so it was not queued.
    Submission(StorageError),
    /// The id of a submission is already held by a queued or running task.
    DuplicateId,
    /// No running task has the id.
    TaskNotFound,
}

impl CmdqError {
    /// The message of this error.
    pub fn message(&self) -> (r: &'static str)
        ensures
            r@ == (match *self {
                CmdqError::Submission(StorageError::Load) => "Error reading the task store"@,
                CmdqError::Submission(StorageError::Write) => "Error writing to the task store"@,
                CmdqError::DuplicateId => "A task with this id exists already"@,
                CmdqError::TaskNotFound => "No running task has this id"@,
            }),
    {
        match self {
            CmdqError::Submission(StorageError::Load) => "Error reading the task store",
            CmdqError::Submission(StorageError::Write) => "Error writing to the task store",
            CmdqError::DuplicateId => "A task with this id exists already",
            CmdqError::TaskNotFound => "No running task has this id",
        }
    }
}

} // verus!
