//! The records of the hash database.

use vstd::prelude::*;

verus! {

/// What a call on the database can fail with.
#[derive(Debug, Clone, Copy, PartialEq, Eq, Structural)]
pub enum DatabaseError {
    Connection,
    Migration,
    Insert,
    QueryHashExists,
    QueryGetFileHash,
    Delete,
    QueryGetFilesByFilename,
    QueryGetFilesByHash,
    TrackCopiedFile,
    TrackDuplicateFile,
    QueryCopiedFiles,
    QueryDuplicateFiles,
    RemoveTrackedFile,
}

impl DatabaseError {
    /// The message of the error.
    pub fn message(self) -> (r: &'static str)
        ensures
            r@ == (match self {
                DatabaseError::Connection => "Failed to connect to database"@,
                DatabaseError::Migration => "Failed to run migration"@,
                DatabaseError::Insert => "Failed to insert file hash"@,
                DatabaseError::QueryHashExists => "Failed to query hash"@,
                DatabaseError::QueryGetFileHash => "Failed to query file hash"@,
                DatabaseError::Delete => "Failed to delete file hash"@,
                DatabaseError::QueryGetFilesByFilename => "Failed to query files by filename"@,
                DatabaseError::QueryGetFilesByHash => "Failed to query files by hash"@,
                DatabaseError::TrackCopiedFile => "Failed to track copied file"@,
                DatabaseError::TrackDuplicateFile => "Failed to track duplicate file"@,
                DatabaseError::QueryCopiedFiles => "Failed to query copied files"@,
                DatabaseError::QueryDuplicateFiles => "Failed to query duplicate files"@,
                DatabaseError::RemoveTrackedFile => "Failed to remove tracked file"@,
            }),
    {
        match self {
            DatabaseError::Connection => "Failed to connect to database",
            DatabaseError::Migration => "Failed to run migration",
            DatabaseError::Insert => "Failed to insert file hash",
            DatabaseError::QueryHashExists => "Failed to query hash",
            DatabaseError::QueryGetFileHash => "Failed to query file hash",
            DatabaseError::Delete => "Failed to delete file hash",
            DatabaseError::QueryGetFilesByFilename => "Failed to query files by filename",
            DatabaseError::QueryGetFilesByHash => "Failed to query files by hash",
            DatabaseError::TrackCopiedFile => "Failed to track copied file",
            DatabaseError::TrackDuplicateFile => "Failed to track duplicate file",
            DatabaseError::QueryCopiedFiles => "Failed to query copied files",
            DatabaseError::QueryDuplicateFiles => "Failed to query duplicate files",
            DatabaseError::RemoveTrackedFile => "Failed to remove tracked file",
        }
    }
}

/// A file that was copied: where it came from, where it went, the hash of what
/// it holds, its size in bytes and when the copy was recorded.
#[derive(Debug, Clone, PartialEq, Eq)]
pub struct CopiedFileRecord {
    pub source_path: String,
    pub target_path: String,
    pub hash: String,
    pub file_size: u64,
    pub created_at: i64,
}

/// A file that was left out of a copy because the library holds the same
/// content: where it is, where the original is, the hash of what both hold,
/// its size in bytes and when it was recorded.
#[derive(Debug, Clone, PartialEq, Eq)]
pub struct DuplicateFileRecord {
    pub duplicate_path: String,
    pub original_path: String,
    pub hash: String,
    pub file_size: u64,
    pub created_at: i64,
}

} // verus!
