//! Deleting the source files of what was copied, and the duplicates: what is
//! done with each tracked file, given what was found on disk.

use vstd::prelude::*;

verus! {

/// The cleanup of tracked files.
#[derive(Debug, Clone, Copy, PartialEq, Eq, Structural)]
pub struct FileCleaner {}

/// Why a tracked file is left alone.
#[derive(Debug, Clone, Copy, PartialEq, Eq, Structural)]
pub enum SkipReason {
    TargetMissing,
    TargetHashMismatch,
    SourceGone,
    DuplicateGone,
    OriginalMissing,
    OriginalHashMismatch,
}

impl SkipReason {
    /// The reason in words.
    pub fn message(self) -> (r: &'static str)
        ensures
            r@ == (match self {
                SkipReason::TargetMissing => "target file no longer exists - copy may have failed"@,
                SkipReason::TargetHashMismatch => "target hash mismatch; refusing to delete source"@,
                SkipReason::SourceGone => "source file already deleted"@,
                SkipReason::DuplicateGone => "duplicate file already deleted"@,
                SkipReason::OriginalMissing => "original file no longer exists; refusing to delete duplicate"@,
                SkipReason::OriginalHashMismatch => "original hash mismatch; refusing to delete duplicate"@,
            }),
    {
        match self {
            SkipReason::TargetMissing => "target file no longer exists - copy may have failed",
            SkipReason::TargetHashMismatch => "target hash mismatch; refusing to delete source",
            SkipReason::SourceGone => "source file already deleted",
            SkipReason::DuplicateGone => "duplicate file already deleted",
            SkipReason::OriginalMissing => "original file no longer exists; refusing to delete duplicate",
            SkipReason::OriginalHashMismatch => "original hash mismatch; refusing to delete duplicate",
        }
    }
}

/// What is done with one tracked file.
#[derive(Debug, Clone, Copy, PartialEq, Eq, Structural)]
pub enum CleanupStep {
    /// Leave the file and keep its record.
    Skip(SkipReason),
    /// Leave the file, which is gone already, and drop its record.
    SkipAndForget(SkipReason),
    /// Report the file as deleted without touching it.
    Pretend,
    /// Delete the file and drop its record.
    Delete,
}

/// What is done with the source of a copied file. On a dry run nothing is
/// hashed, deleted or dropped.
pub open spec fn copied_file_step_spec(
    target_exists: bool,
    target_hash_matches: bool,
    source_exists: bool,
    dry_run: bool,
) -> CleanupStep {
    if !target_exists {
        CleanupStep::Skip(SkipReason::TargetMissing)
    } else if !dry_run && !target_hash_matches {
        CleanupStep::Skip(SkipReason::TargetHashMismatch)
    } else if !source_exists {
        if dry_run {
            CleanupStep::Skip(SkipReason::SourceGone)
        } else {
            CleanupStep::SkipAndForget(SkipReason::SourceGone)
        }
    } else if dry_run {
        CleanupStep::Pretend
    } else {
        CleanupStep::Delete
    }
}

/// What is done with a duplicate file. On a dry run the original is not
/// looked at, and nothing is deleted or dropped.
pub open spec fn duplicate_file_step_spec(
    duplicate_exists: bool,
    original_exists: bool,
    original_hash_matches: bool,
    dry_run: bool,
) -> CleanupStep {
    if !duplicate_exists {
        if dry_run {
            CleanupStep::Skip(SkipReason::DuplicateGone)
        } else {
            CleanupStep::SkipAndForget(SkipReason::DuplicateGone)
        }
    } else if dry_run {
        CleanupStep::Pretend
    } else if !original_exists {
        CleanupStep::Skip(SkipReason::OriginalMissing)
    } else if !original_hash_matches {
        CleanupStep::Skip(SkipReason::OriginalHashMismatch)
    } else {
        CleanupStep::Delete
    }
}

impl FileCleaner {
    pub fn new() -> (r: FileCleaner)
        ensures
            r == (FileCleaner {  }),
    {
        FileCleaner {  }
    }

    /// What is done with the source of a copied file.
    pub fn copied_file_step(
        &self,
        target_exists: bool,
        target_hash_matches: bool,
        source_exists: bool,
        dry_run: bool,
    ) -> (step: CleanupStep)
        ensures
            step == copied_file_step_spec(
                target_exists,
                target_hash_matches,
                source_exists,
                dry_run,
            ),
    {
        if !target_exists {
            CleanupStep::Skip(SkipReason::TargetMissing)
        } else if !dry_run && !target_hash_matches {
            CleanupStep::Skip(SkipReason::TargetHashMismatch)
        } else if !source_exists {
            if dry_run {
                CleanupStep::Skip(SkipReason::SourceGone)
            } else {
                CleanupStep::SkipAndForget(SkipReason::SourceGone)
            }
        } else if dry_run {
            CleanupStep::Pretend
        } else {
            CleanupStep::Delete
        }
    }

    /// What is done with a duplicate file.
    pub fn duplicate_file_step(
        &self,
        duplicate_exists: bool,
        original_exists: bool,
        original_hash_matches: bool,
        dry_run: bool,
    ) -> (step: CleanupStep)
        ensures
            step == duplicate_file_step_spec(
                duplicate_exists,
                original_exists,
                original_hash_matches,
                dry_run,
            ),
    {
        if !duplicate_exists {
            if dry_run {
                CleanupStep::Skip(SkipReason::DuplicateGone)
            } else {
                CleanupStep::SkipAndForget(SkipReason::DuplicateGone)
            }
        } else if dry_run {
            CleanupStep::Pretend
        } else if !original_exists {
            CleanupStep::Skip(SkipReason::OriginalMissing)
        } else if !original_hash_matches {
            CleanupStep::Skip(SkipReason::OriginalHashMismatch)
        } else {
            CleanupStep::Delete
        }
    }
}

/// The sum of the sizes.
pub open spec fn total_size_spec(sizes: Seq<u64>) -> nat
    decreases sizes.len(),
{
    if sizes.len() == 0 {
        0
    } else {
        total_size_spec(sizes.drop_last()) + sizes.last() as nat
    }
}

/// The sum of the sizes, or nothing where it is more than the machine holds.
pub fn total_size(sizes: &Vec<u64>) -> (total: Option<u64>)
    ensures
        total is Some <==> total_size_spec(sizes@) <= u64::MAX,
        total matches Some(t) ==> t == total_size_spec(sizes@),
{
    let mut sum: u64 = 0;
    let mut i: usize = 0;
    assert(sizes@.take(0) =~= Seq::<u64>::empty());
    while i < sizes.len()
        invariant
            i <= sizes.len(),
            sum == total_size_spec(sizes@.take(i as int)),
        decreases sizes.len() - i,
    {
        proof {
            assert(sizes@.take(i + 1).drop_last() =~= sizes@.take(i as int));
            lemma_total_size_grows(sizes@, i + 1);
        }
        match sum.checked_add(sizes[i]) {
            Some(more) => {
                sum = more;
            },
            None => {
                return None;
            },
        }
        i = i + 1;
    }
    assert(sizes@.take(sizes.len() as int) =~= sizes@);
    Some(sum)
}

/// The sum of the first sizes is at most the sum of all.
pub proof fn lemma_total_size_grows(sizes: Seq<u64>, n: int)
    requires
        0 <= n <= sizes.len(),
    ensures
        total_size_spec(sizes.take(n)) <= total_size_spec(sizes),
    decreases sizes.len() - n,
{
    if n < sizes.len() {
        assert(sizes.take(n + 1).drop_last() =~= sizes.take(n));
        lemma_total_size_grows(sizes, n + 1);
    } else {
        assert(sizes.take(n) =~= sizes);
    }
}

} // verus!
