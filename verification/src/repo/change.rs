//! Change tracking types for repository modifications.

use crate::repo::FileType;
use vstd::prelude::*;
use vstd::string::StringExecFns;

verus! {

/// Type of change made to a file.
#[derive(Debug, Clone, Copy, PartialEq, Eq, Structural)]
pub enum ChangeKind {
    /// File was added.
    Added,
    /// File was modified.
    Modified,
    /// File was deleted.
    Deleted,
    /// File was renamed.
    Renamed,
}

/// The written name of a change kind.
pub open spec fn change_kind_label(k: ChangeKind) -> Seq<char> {
    match k {
        ChangeKind::Added => "added"@,
        ChangeKind::Modified => "modified"@,
        ChangeKind::Deleted => "deleted"@,
        ChangeKind::Renamed => "renamed"@,
    }
}

impl ChangeKind {
    /// The written name of this change kind.
    pub fn label(&self) -> (r: String)
        ensures
            r@ == change_kind_label(*self),
    {
        match self {
            ChangeKind::Added => String::from_str("added"),
            ChangeKind::Modified => String::from_str("modified"),
            ChangeKind::Deleted => String::from_str("deleted"),
            ChangeKind::Renamed => String::from_str("renamed"),
        }
    }
}

/// A changed file in the repository.
#[derive(Debug)]
pub struct ChangedFile {
    /// Path to the file relative to the repository root.
    pub path: String,
    /// Type of change.
    pub kind: ChangeKind,
    /// Category of the file.
    pub file_type: FileType,
}

impl Clone for ChangedFile {
    /// A copy that carries the same values in every field.
    fn clone(&self) -> (r: ChangedFile)
        ensures
            r == *self,
    {
        ChangedFile { path: self.path.clone(), kind: self.kind, file_type: self.file_type }
    }
}

impl ChangedFile {
    /// Whether this is a code file.
    pub fn is_code(&self) -> (r: bool)
        ensures
            r == (self.file_type is Code),
    {
        matches!(self.file_type, FileType::Code)
    }

    /// Whether this is a documentation file.
    pub fn is_documentation(&self) -> (r: bool)
        ensures
            r == (self.file_type is Documentation),
    {
        matches!(self.file_type, FileType::Documentation)
    }
}

/// Relies on uuid::Uuid::new_v4 and its hyphenated rendering: a fresh
/// random identifier of 36 characters.
#[verifier::external_body]
fn fresh_change_id() -> (r: String)
    ensures
        r@.len() == 36,
{
    uuid::Uuid::new_v4().to_string()
}

/// Relies on chrono::Utc::now and its timestamp: the milliseconds since the
/// epoch at the call. Nothing can be promised of the clock.
#[verifier::external_body]
fn now_epoch_millis() -> i64 {
    chrono::Utc::now().timestamp_millis()
}

/// A collection of changes representing one logical unit of work.
#[derive(Debug, Clone)]
pub struct Change {
    /// Unique identifier for this change set.
    pub id: String,
    /// Commit hash, if committed.
    pub commit: Option<String>,
    /// The changed files.
    pub files: Vec<ChangedFile>,
    /// When the change set was recorded, in milliseconds since the epoch.
    pub timestamp: i64,
}

impl Change {
    /// Create a new change set, stamped with the current time and a fresh
    /// identifier.
    pub fn new(commit: Option<String>, files: Vec<ChangedFile>) -> (r: Change)
        ensures
            r.id@.len() == 36,
            r.commit == commit,
            r.files == files,
    {
        Change { id: fresh_change_id(), commit, files, timestamp: now_epoch_millis() }
    }

    /// The code files in this change.
    pub fn code_files(&self) -> (r: Vec<ChangedFile>)
        ensures
            r@ == self.files@.filter(|f: ChangedFile| f.file_type is Code),
    {
        let mut out: Vec<ChangedFile> = Vec::new();
        let mut i: usize = 0;
        proof {
            reveal(Seq::filter);
            assert(self.files@.subrange(0, 0) =~= Seq::<ChangedFile>::empty());
            assert(out@ =~= self.files@.subrange(0, 0).filter(
                |f: ChangedFile| f.file_type is Code,
            ));
        }
        while i < self.files.len()
            invariant
                0 <= i <= self.files@.len(),
                out@ == self.files@.subrange(0, i as int).filter(
                    |f: ChangedFile| f.file_type is Code,
                ),
            decreases self.files@.len() - i,
        {
            proof {
                reveal(Seq::filter);
                assert(self.files@.subrange(0, i as int + 1).drop_last() =~= self.files@.subrange(
                    0,
                    i as int,
                ));
                assert(self.files@.subrange(0, i as int + 1).last() == self.files@[i as int]);
            }
            if self.files[i].is_code() {
                out.push(self.files[i].clone());
                proof {
                    assert(self.files@[i as int].file_type is Code);
                    assert(out@.last() == self.files@[i as int]);
                }
            }
            i = i + 1;
        }
        proof {
            assert(self.files@.subrange(0, self.files@.len() as int) =~= self.files@);
        }
        out
    }

    /// The documentation files in this change.
    pub fn doc_files(&self) -> (r: Vec<ChangedFile>)
        ensures
            r@ == self.files@.filter(|f: ChangedFile| f.file_type is Documentation),
    {
        let mut out: Vec<ChangedFile> = Vec::new();
        let mut i: usize = 0;
        proof {
            reveal(Seq::filter);
            assert(self.files@.subrange(0, 0) =~= Seq::<ChangedFile>::empty());
            assert(out@ =~= self.files@.subrange(0, 0).filter(
                |f: ChangedFile| f.file_type is Documentation,
            ));
        }
        while i < self.files.len()
            invariant
                0 <= i <= self.files@.len(),
                out@ == self.files@.subrange(0, i as int).filter(
                    |f: ChangedFile| f.file_type is Documentation,
                ),
            decreases self.files@.len() - i,
        {
            proof {
                reveal(Seq::filter);
                assert(self.files@.subrange(0, i as int + 1).drop_last() =~= self.files@.subrange(
                    0,
                    i as int,
                ));
                assert(self.files@.subrange(0, i as int + 1).last() == self.files@[i as int]);
            }
            if self.files[i].is_documentation() {
                out.push(self.files[i].clone());
                proof {
                    assert(self.files@[i as int].file_type is Documentation);
                    assert(out@.last() == self.files@[i as int]);
                }
            }
            i = i + 1;
        }
        proof {
            assert(self.files@.subrange(0, self.files@.len() as int) =~= self.files@);
        }
        out
    }

    /// Whether this change touches both code and documentation.
    pub fn has_mixed_changes(&self) -> (r: bool)
        ensures
            r == ((exists|i: int|
                0 <= i < self.files@.len() && (#[trigger] self.files@[i]).file_type is Code)
                && (exists|i: int|
                0 <= i < self.files@.len() && (#[trigger] self.files@[i]).file_type
                    is Documentation)),
    {
        let mut has_code = false;
        let mut has_docs = false;
        let mut i: usize = 0;
        while i < self.files.len()
            invariant
                0 <= i <= self.files@.len(),
                has_code == (exists|t: int|
                    0 <= t < i && (#[trigger] self.files@[t]).file_type is Code),
                has_docs == (exists|t: int|
                    0 <= t < i && (#[trigger] self.files@[t]).file_type is Documentation),
            decreases self.files@.len() - i,
        {
            if self.files[i].is_code() {
                has_code = true;
            }
            if self.files[i].is_documentation() {
                has_docs = true;
            }
            i = i + 1;
        }
        has_code && has_docs
    }
}

} // verus!
