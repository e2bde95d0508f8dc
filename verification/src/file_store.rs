//! An in-memory file store keyed by absolute path.
//!
//! The real filesystem collaborator lives outside the library; this store
//! carries the same contract over plain values and counts every load, so a
//! caller can observe that a failed invocation did no filesystem access.

use crate::error::{InsertionError, IoErrorKind};
use vstd::prelude::*;

verus! {

/// One stored file: its absolute path and its full content.
pub struct StoredFile {
    pub path: String,
    pub content: String,
}

/// The mathematical value of a `StoredFile`.
pub struct StoredFileV {
    pub path: Seq<char>,
    pub content: Seq<char>,
}

impl View for StoredFile {
    type V = StoredFileV;

    open spec fn view(&self) -> StoredFileV {
        StoredFileV { path: self.path@, content: self.content@ }
    }
}

/// The content of the first stored file under `path`, if any.
pub open spec fn lookup(files: Seq<StoredFileV>, path: Seq<char>) -> Option<Seq<char>>
    decreases files.len(),
{
    if files.len() == 0 {
        None
    } else if files[0].path == path {
        Some(files[0].content)
    } else {
        lookup(files.drop_first(), path)
    }
}

/// An in-memory filesystem with a load counter.
pub struct FileStore {
    pub files: Vec<StoredFile>,
    pub load_count: u64,
}

impl FileStore {
    /// An empty store that has never been asked for a file.
    pub fn new() -> (r: FileStore)
        ensures
            r.files@.len() == 0,
            r.load_count == 0,
    {
        FileStore { files: Vec::new(), load_count: 0 }
    }

    /// Add a file to the store.
    pub fn add_file(&mut self, path: String, content: String)
        ensures
            final(self).files@ == old(self).files@.push(StoredFile { path, content }),
            final(self).load_count == old(self).load_count,
    {
        self.files.push(StoredFile { path, content });
    }

    /// Load the full content stored under an absolute path, counting the
    /// access; the first file under the path wins.
    pub fn load(&mut self, path: &str) -> (r: Result<String, InsertionError>)
        requires
            old(self).load_count < u64::MAX,
        ensures
            final(self).files == old(self).files,
            final(self).load_count == old(self).load_count + 1,
            (r is Ok) == (lookup(old(self).files@.map_values(|f: StoredFile| f@), path@)
                is Some),
            r is Ok ==> r.unwrap()@ == lookup(
                old(self).files@.map_values(|f: StoredFile| f@),
                path@,
            ).unwrap(),
            r is Err ==> r.unwrap_err() == InsertionError::IoFailure(IoErrorKind::NotFound),
    {
        self.load_count = self.load_count + 1;
        let ghost fv = self.files@.map_values(|f: StoredFile| f@);
        let n: usize = self.files.len();
        let mut i: usize = 0;
        proof {
            assert(fv.skip(0) =~= fv);
        }
        while i < n
            invariant
                n == self.files@.len(),
                self.files == old(self).files,
                self.load_count == old(self).load_count + 1,
                fv == self.files@.map_values(|f: StoredFile| f@),
                0 <= i <= n,
                lookup(fv, path@) == lookup(fv.skip(i as int), path@),
            decreases n - i,
        {
            proof {
                assert(fv.skip(i as int)[0] == fv[i as int]);
                assert(fv.skip(i as int).drop_first() =~= fv.skip(i as int + 1));
            }
            if crate::text::str_eq(self.files[i].path.as_str(), path) {
                return Ok(self.files[i].content.clone());
            }
            i += 1;
        }
        Err(InsertionError::IoFailure(IoErrorKind::NotFound))
    }
}

} // verus!
