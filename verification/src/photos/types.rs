//! The counts that the operations report.

use vstd::prelude::*;
use crate::Timestamp;

verus! {

/// What an operation can fail with.
#[derive(Debug, Clone, Copy, PartialEq, Eq, Structural)]
pub enum AppError {
    DB,
    IO,
    FileProcessing,
    DirectoryTraversal,
    Validation,
    Copy,
    Cleanup,
}

impl AppError {
    /// The message of the error.
    pub fn message(self) -> (r: &'static str)
        ensures
            r@ == (match self {
                AppError::DB => "Database error"@,
                AppError::IO => "IO error"@,
                AppError::FileProcessing => "File processing error"@,
                AppError::DirectoryTraversal => "Directory traversal error"@,
                AppError::Validation => "Validation error"@,
                AppError::Copy => "Copy operation error"@,
                AppError::Cleanup => "Cleanup operation error"@,
            }),
    {
        match self {
            AppError::DB => "Database error",
            AppError::IO => "IO error",
            AppError::FileProcessing => "File processing error",
            AppError::DirectoryTraversal => "Directory traversal error",
            AppError::Validation => "Validation error",
            AppError::Copy => "Copy operation error",
            AppError::Cleanup => "Cleanup operation error",
        }
    }
}

/// A file as the scanner found it: where it is, the hash of what it holds,
/// its size in bytes and when it was last changed.
#[derive(Debug, Clone, PartialEq, Eq)]
pub struct FileInfo {
    pub path: String,
    pub hash: String,
    pub size: u64,
    pub last_modified: Timestamp,
}

/// What became of one file in a copy.
#[derive(Debug, Clone, PartialEq, Eq)]
pub enum SingleCopyResult {
    Copied,
    Skipped(String),
}

/// What became of one file in a cleanup.
#[derive(Debug, Clone, PartialEq, Eq)]
pub enum SingleCleanupResult {
    Deleted,
    Skipped(String),
}

/// The counts of a scan.
#[derive(Debug, Clone, Copy, PartialEq, Eq, Structural)]
pub struct ScanResult {
    pub files_processed: usize,
    pub traversal_errors: usize,
    pub processing_errors: usize,
    pub db_errors: usize,
}

impl ScanResult {
    pub fn new() -> (r: ScanResult)
        ensures
            r == (ScanResult {
                files_processed: 0,
                traversal_errors: 0,
                processing_errors: 0,
                db_errors: 0,
            }),
    {
        ScanResult { files_processed: 0, traversal_errors: 0, processing_errors: 0, db_errors: 0 }
    }

    /// Books one batch: `stored` tells whether the files that were read could
    /// be stored. Those that could not be read count as processing errors,
    /// those that could not be stored as database errors too.
    pub fn record_batch(&mut self, read: usize, failed: usize, stored: bool)
        requires
            old(self).files_processed + read <= usize::MAX,
            old(self).processing_errors + failed <= usize::MAX,
            old(self).db_errors + read <= usize::MAX,
        ensures
            *final(self) == (ScanResult {
                files_processed: (old(self).files_processed + read) as usize,
                processing_errors: (old(self).processing_errors + failed) as usize,
                db_errors: if stored || read == 0 {
                    old(self).db_errors
                } else {
                    (old(self).db_errors + read) as usize
                },
                ..*old(self)
            }),
    {
        self.files_processed = self.files_processed + read;
        self.processing_errors = self.processing_errors + failed;
        if !stored && read > 0 {
            self.db_errors = self.db_errors + read;
        }
    }

    /// The errors of every kind together.
    pub open spec fn total_errors_spec(&self) -> int {
        self.traversal_errors + self.processing_errors + self.db_errors
    }

    /// The errors of every kind together.
    pub fn total_errors(&self) -> (total: usize)
        requires
            self.total_errors_spec() <= usize::MAX,
        ensures
            total == self.total_errors_spec(),
    {
        self.traversal_errors + self.processing_errors + self.db_errors
    }
}

/// The counts of a copy.
#[derive(Debug, Clone, Copy, PartialEq, Eq, Structural)]
pub struct CopyOperationResult {
    pub copied: usize,
    pub skipped: usize,
    pub errors: usize,
}

impl CopyOperationResult {
    pub fn new() -> (r: CopyOperationResult)
        ensures
            r == (CopyOperationResult { copied: 0, skipped: 0, errors: 0 }),
    {
        CopyOperationResult { copied: 0, skipped: 0, errors: 0 }
    }

    /// Books what became of one file.
    pub fn record(&mut self, outcome: &Result<SingleCopyResult, AppError>)
        requires
            old(self).copied < usize::MAX,
            old(self).skipped < usize::MAX,
            old(self).errors < usize::MAX,
        ensures
            *final(self) == (match *outcome {
                Ok(SingleCopyResult::Copied) => CopyOperationResult {
                    copied: (old(self).copied + 1) as usize,
                    ..*old(self)
                },
                Ok(SingleCopyResult::Skipped(_)) => CopyOperationResult {
                    skipped: (old(self).skipped + 1) as usize,
                    ..*old(self)
                },
                Err(_) => CopyOperationResult {
                    errors: (old(self).errors + 1) as usize,
                    ..*old(self)
                },
            }),
    {
        match outcome {
            Ok(SingleCopyResult::Copied) => {
                self.copied = self.copied + 1;
            },
            Ok(SingleCopyResult::Skipped(_)) => {
                self.skipped = self.skipped + 1;
            },
            Err(_) => {
                self.errors = self.errors + 1;
            },
        }
    }
}

/// The counts of a cleanup.
#[derive(Debug, Clone, Copy, PartialEq, Eq, Structural)]
pub struct CleanupOperationResult {
    pub deleted: usize,
    pub skipped: usize,
    pub errors: usize,
}

impl CleanupOperationResult {
    pub fn new() -> (r: CleanupOperationResult)
        ensures
            r == (CleanupOperationResult { deleted: 0, skipped: 0, errors: 0 }),
    {
        CleanupOperationResult { deleted: 0, skipped: 0, errors: 0 }
    }

    /// Books what became of one file.
    pub fn record(&mut self, outcome: &Result<SingleCleanupResult, AppError>)
        requires
            old(self).deleted < usize::MAX,
            old(self).skipped < usize::MAX,
            old(self).errors < usize::MAX,
        ensures
            *final(self) == (match *outcome {
                Ok(SingleCleanupResult::Deleted) => CleanupOperationResult {
                    deleted: (old(self).deleted + 1) as usize,
                    ..*old(self)
                },
                Ok(SingleCleanupResult::Skipped(_)) => CleanupOperationResult {
                    skipped: (old(self).skipped + 1) as usize,
                    ..*old(self)
                },
                Err(_) => CleanupOperationResult {
                    errors: (old(self).errors + 1) as usize,
                    ..*old(self)
                },
            }),
    {
        match outcome {
            Ok(SingleCleanupResult::Deleted) => {
                self.deleted = self.deleted + 1;
            },
            Ok(SingleCleanupResult::Skipped(_)) => {
                self.skipped = self.skipped + 1;
            },
            Err(_) => {
                self.errors = self.errors + 1;
            },
        }
    }
}

} // verus!
