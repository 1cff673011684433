//! Reading a directory's files in batches and hashing what they hold.

use vstd::prelude::*;

verus! {

/// What `Sha256::digest` gives for the bytes, written as `{:x}` writes it.
pub uninterp spec fn sha256_hex(bytes: Seq<u8>) -> Seq<char>;

/// `Sha256::digest` of the bytes, written in hexadecimal as `{:x}` writes it.
#[verifier::external_body]
pub(crate) fn digest_hex(bytes: &Vec<u8>) -> (hex: String)
    ensures
        hex@ == sha256_hex(bytes@),
{
    format!("{:x}", <sha2::Sha256 as sha2::Digest>::digest(bytes.as_slice()))
}

/// The scanner of files, which works on `batch_size` files at a time.
#[derive(Debug, Clone, Copy, PartialEq, Eq, Structural)]
pub struct FileScanner {
    batch_size: usize,
}

/// The number of batches that `total` files make at `batch_size` files each.
pub open spec fn num_batches_spec(total: nat, batch_size: nat) -> nat
    recommends
        batch_size > 0,
{
    (total + batch_size - 1) as nat / batch_size
}

/// The files of one batch: from the place `start` up to, not including, the
/// place `end`.
#[derive(Debug, Clone, Copy, PartialEq, Eq, Structural)]
pub struct Batch {
    pub start: usize,
    pub end: usize,
}

impl FileScanner {
    pub fn new(batch_size: usize) -> (r: FileScanner)
        ensures
            r.size() == batch_size,
    {
        FileScanner { batch_size }
    }

    /// The number of files in one batch.
    pub closed spec fn size(&self) -> usize {
        self.batch_size
    }

    pub fn batch_size(&self) -> (r: usize)
        ensures
            r == self.size(),
    {
        self.batch_size
    }

    /// The number of batches that `total` files make.
    pub fn num_batches(&self, total: usize) -> (r: usize)
        requires
            self.size() > 0,
            total + self.size() <= usize::MAX,
        ensures
            r == num_batches_spec(total as nat, self.size() as nat),
    {
        (total + self.batch_size - 1) / self.batch_size
    }

    /// The files of the batch of the number `batch_num`, counted from zero,
    /// among `total` files.
    pub fn batch(&self, batch_num: usize, total: usize) -> (r: Batch)
        requires
            self.size() > 0,
            batch_num * self.size() < total,
        ensures
            r.start == batch_num * self.size(),
            r.end == if r.start + self.size() <= total {
                r.start + self.size()
            } else {
                total as int
            },
            r.start < r.end <= total,
    {
        assert(batch_num * self.batch_size <= usize::MAX);
        let start: usize = batch_num * self.batch_size;
        let end: usize = if self.batch_size <= total - start {
            start + self.batch_size
        } else {
            total
        };
        Batch { start, end }
    }

    /// The hash of what a file holds: its SHA-256 digest in hexadecimal.
    pub fn calculate_file_hash(&self, contents: &Vec<u8>) -> (hash: String)
        ensures
            hash@ == sha256_hex(contents@),
    {
        digest_hex(contents)
    }
}

} // verus!
