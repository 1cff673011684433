//! Checking whether files are in the hash database already.

use crate::photos::scanner::FileScanner;
use crate::text::clone_strings;
use vstd::prelude::*;

verus! {

/// The counts of a check.
#[derive(Debug, Clone, Copy, PartialEq, Eq, Structural)]
pub struct CheckExistResult {
    pub files_checked: usize,
    pub matches_found: usize,
    pub errors: usize,
}

/// What the check of one file found.
#[derive(Debug, Clone, Copy, PartialEq, Eq, Structural)]
pub enum CheckOutcome {
    /// The database holds the file's hash, for a file that is still there.
    Match,
    /// It does not.
    Miss,
    /// The file could not be checked.
    Error,
}

impl CheckExistResult {
    pub fn new() -> (r: CheckExistResult)
        ensures
            r == (CheckExistResult { files_checked: 0, matches_found: 0, errors: 0 }),
    {
        CheckExistResult { files_checked: 0, matches_found: 0, errors: 0 }
    }

    /// Books the check of one file.
    pub fn record(&mut self, outcome: CheckOutcome)
        requires
            old(self).files_checked < usize::MAX,
            old(self).matches_found < usize::MAX,
            old(self).errors < usize::MAX,
        ensures
            final(self).files_checked == old(self).files_checked + 1,
            final(self).matches_found == old(self).matches_found + (if outcome
                == CheckOutcome::Match {
                1int
            } else {
                0int
            }),
            final(self).errors == old(self).errors + (if outcome == CheckOutcome::Error {
                1int
            } else {
                0int
            }),
    {
        self.files_checked = self.files_checked + 1;
        match outcome {
            CheckOutcome::Match => {
                self.matches_found = self.matches_found + 1;
            },
            CheckOutcome::Miss => {},
            CheckOutcome::Error => {
                self.errors = self.errors + 1;
            },
        }
    }

    /// Whether every file that was checked is in the database: at least one
    /// was checked, none failed, and each one matched.
    pub fn all_present(&self) -> (r: bool)
        ensures
            r == (self.files_checked > 0 && self.errors == 0 && self.matches_found
                == self.files_checked),
    {
        self.files_checked > 0 && self.errors == 0 && self.matches_found == self.files_checked
    }
}

/// The check for existence: a scanner that takes at least one file at a time.
#[derive(Debug, Clone, Copy, PartialEq, Eq, Structural)]
pub struct ExistenceChecker {
    scanner: FileScanner,
}

impl ExistenceChecker {
    pub fn new(batch_size: usize) -> (r: ExistenceChecker)
        ensures
            r.batch_size() == if batch_size >= 1 {
                batch_size
            } else {
                1
            },
    {
        ExistenceChecker {
            scanner: FileScanner::new(
                if batch_size >= 1 {
                    batch_size
                } else {
                    1
                },
            ),
        }
    }

    /// The number of files that the scanner takes at a time.
    pub closed spec fn batch_size(&self) -> usize {
        self.scanner.size()
    }

    pub fn scanner(&self) -> (r: FileScanner)
        ensures
            r.size() == self.batch_size(),
    {
        self.scanner
    }
}

/// The paths among `stored`, in their order, whose file is there: `there`
/// tells it of each.
pub open spec fn existing_spec(stored: Seq<Seq<char>>, there: Seq<bool>) -> Seq<Seq<char>>
    decreases stored.len(),
{
    if stored.len() == 0 || there.len() != stored.len() {
        Seq::empty()
    } else if there.last() {
        existing_spec(stored.drop_last(), there.drop_last()).push(stored.last())
    } else {
        existing_spec(stored.drop_last(), there.drop_last())
    }
}

/// The stored paths whose file is still there, or nothing where none is.
pub fn existing_matches(stored: &Vec<String>, there: &Vec<bool>) -> (r: Option<Vec<String>>)
    requires
        stored.len() == there.len(),
    ensures
        r is Some <==> existing_spec(stored.deep_view(), there@).len() > 0,
        r matches Some(found) ==> found.deep_view() == existing_spec(stored.deep_view(), there@),
{
    let all = clone_strings(stored);
    let mut found: Vec<String> = Vec::new();
    let mut i: usize = 0;
    proof {
        assert(stored.deep_view().len() == stored.len());
        assert(all.deep_view().len() == all.len());
        assert(found.deep_view() =~= Seq::<Seq<char>>::empty());
    }
    while i < all.len()
        invariant
            i <= all.len(),
            all.len() == there.len(),
            all.deep_view() == stored.deep_view(),
            found.deep_view() == existing_spec(all.deep_view().take(i as int), there@.take(i as int)),
        decreases all.len() - i,
    {
        let ghost before = found.deep_view();
        proof {
            let paths = all.deep_view().take(i + 1);
            let flags = there@.take(i + 1);
            assert(paths.drop_last() =~= all.deep_view().take(i as int));
            assert(flags.drop_last() =~= there@.take(i as int));
            assert(paths.last() == all[i as int]@);
            assert(flags.last() == there[i as int]);
        }
        if there[i] {
            found.push(all[i].clone());
            assert(found.deep_view() =~= before.push(all[i as int]@));
        }
        i = i + 1;
    }
    proof {
        assert(all.deep_view().take(all.len() as int) =~= all.deep_view());
        assert(there@.take(all.len() as int) =~= there@);
        assert(found.deep_view().len() == found.len());
    }
    if found.len() == 0 {
        None
    } else {
        Some(found)
    }
}

} // verus!
