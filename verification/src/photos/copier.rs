//! Copying the files of one directory into another, but for those whose
//! content the target has already: where a file goes, and what is done with
//! it.

use crate::photos::scanner::FileScanner;
use crate::photos::types::SingleCopyResult;
use vstd::prelude::*;

verus! {

/// What `Utf8Path::strip_prefix` leaves of a path below a base, or nothing
/// where the path is not below it.
pub uninterp spec fn camino_stripped(path: Seq<char>, base: Seq<char>) -> Option<Seq<char>>;

/// `Utf8Path::strip_prefix` of a path and a base given as text.
#[verifier::external_body]
pub(crate) fn strip_prefix(path: &str, base: &str) -> (rest: Option<String>)
    ensures
        crate::paths::text_of(rest) == camino_stripped(path@, base@),
{
    camino::Utf8Path::new(path).strip_prefix(base).ok().map(|p| p.to_string())
}

/// What `Utf8Path::join` makes of a path and a second one pushed onto it.
pub uninterp spec fn camino_joined(base: Seq<char>, more: Seq<char>) -> Seq<char>;

/// `Utf8Path::join` of two paths given as text.
#[verifier::external_body]
pub(crate) fn join(base: &str, more: &str) -> (r: String)
    ensures
        r@ == camino_joined(base@, more@),
{
    camino::Utf8Path::new(base).join(more).into_string()
}

/// What begins the reason for leaving a duplicate.
pub const DUPLICATE_REASON_START: &'static str = "duplicate content (matches ";

/// The reason for leaving a file whose target is there already.
pub const TARGET_EXISTS_REASON: &'static str = "target file already exists";

/// The copier of files, which hashes one file at a time.
#[derive(Debug, Clone, Copy, PartialEq, Eq, Structural)]
pub struct FileCopier {
    scanner: FileScanner,
}

/// What is done with one file of the source.
#[derive(Debug, Clone, PartialEq, Eq)]
pub enum CopyStep {
    /// Leave it: the target is there already.
    SkipExisting,
    /// Leave it and track it as a duplicate of the file named.
    SkipDuplicate { original: String },
    /// Report it as copied without touching it.
    Pretend,
    /// Copy it and record the copy.
    Copy,
}

/// What a [`CopyStep`] is in contracts.
pub ghost enum CopyStepView {
    SkipExisting,
    SkipDuplicate { original: Seq<char> },
    Pretend,
    Copy,
}

impl View for CopyStep {
    type V = CopyStepView;

    open spec fn view(&self) -> CopyStepView {
        match self {
            CopyStep::SkipExisting => CopyStepView::SkipExisting,
            CopyStep::SkipDuplicate { original } => CopyStepView::SkipDuplicate {
                original: original@,
            },
            CopyStep::Pretend => CopyStepView::Pretend,
            CopyStep::Copy => CopyStepView::Copy,
        }
    }
}

/// What is done with a file, given whether its target exists and which
/// files the database holds with its hash: the first of them counts as the
/// original. On a dry run nothing is copied.
pub open spec fn copy_step_spec(target_exists: bool, known: Seq<Seq<char>>, dry_run: bool) -> CopyStepView {
    if target_exists {
        CopyStepView::SkipExisting
    } else if known.len() > 0 {
        CopyStepView::SkipDuplicate { original: known[0] }
    } else if dry_run {
        CopyStepView::Pretend
    } else {
        CopyStepView::Copy
    }
}

/// The result that a step leaves for the file, once it is done.
pub open spec fn step_result_spec(step: CopyStepView) -> (bool, Seq<char>) {
    match step {
        CopyStepView::SkipExisting => (false, TARGET_EXISTS_REASON@),
        CopyStepView::SkipDuplicate { original } => (
            false,
            DUPLICATE_REASON_START@ + original + ")"@,
        ),
        CopyStepView::Pretend => (true, Seq::empty()),
        CopyStepView::Copy => (true, Seq::empty()),
    }
}

impl FileCopier {
    pub fn new() -> (r: FileCopier)
        ensures
            r.scanner().size() == 1,
    {
        FileCopier { scanner: FileScanner::new(1) }
    }

    /// The copier's scanner.
    pub closed spec fn scanner(&self) -> FileScanner {
        self.scanner
    }

    /// Where a file of the source goes in the target: under the target's
    /// base, at the path that the file has below the source's base. Nothing
    /// where the file is not below the source's base.
    pub fn target_path(&self, file_path: &str, source_base: &str, target_base: &str) -> (r: Option<
        String,
    >)
        ensures
            r is Some <==> camino_stripped(file_path@, source_base@) is Some,
            r matches Some(target) ==> target@ == camino_joined(
                target_base@,
                camino_stripped(file_path@, source_base@)->0,
            ),
    {
        match strip_prefix(file_path, source_base) {
            Some(relative) => Some(join(target_base, relative.as_str())),
            None => None,
        }
    }

    /// What is done with a file.
    pub fn copy_step(&self, target_exists: bool, known: &Vec<String>, dry_run: bool) -> (step:
        CopyStep)
        ensures
            step@ == copy_step_spec(target_exists, known.deep_view(), dry_run),
    {
        proof {
            assert(known.deep_view().len() == known.len());
        }
        if target_exists {
            CopyStep::SkipExisting
        } else if known.len() > 0 {
            assert(known.deep_view()[0] == known[0]@);
            CopyStep::SkipDuplicate { original: known[0].clone() }
        } else if dry_run {
            CopyStep::Pretend
        } else {
            CopyStep::Copy
        }
    }
}

impl CopyStep {
    /// The result that the step leaves for the file, once it is done.
    pub fn result(&self) -> (r: SingleCopyResult)
        ensures
            step_result_spec(self@).0 ==> r == SingleCopyResult::Copied,
            !step_result_spec(self@).0 ==> (r matches SingleCopyResult::Skipped(reason) && reason@
                == step_result_spec(self@).1),
    {
        match self {
            CopyStep::SkipExisting => SingleCopyResult::Skipped(TARGET_EXISTS_REASON.to_string()),
            CopyStep::SkipDuplicate { original } => {
                let mut reason = DUPLICATE_REASON_START.to_string();
                reason.append(original.as_str());
                reason.append(")");
                SingleCopyResult::Skipped(reason)
            },
            CopyStep::Pretend => SingleCopyResult::Copied,
            CopyStep::Copy => SingleCopyResult::Copied,
        }
    }
}

} // verus!
