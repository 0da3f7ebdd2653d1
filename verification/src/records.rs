//! Record types held by a mount's metadata store.

use vstd::prelude::*;

verus! {

/// Mathematical model of one file record: every field as a plain value,
/// with the path and the digest as character sequences.
pub ghost struct FileRec {
    pub path: Seq<char>,
    pub filename: Seq<char>,
    pub discovered_at: i64,
    pub synced_at: Option<i64>,
    pub directory: bool,
    pub md5sum: Option<Seq<char>>,
}

/// Synchronization checkpoints of one mount; both revisions stay absent
/// until a synchronization has occurred (none is performed by this crate).
pub struct MountMeta {
    pub local_revision: Option<u128>,
    pub remote_revision: Option<u128>,
}

/// One row of the file table: a filesystem entry keyed by its absolute path.
/// An absent `md5sum` marks the record as waiting for the hash processor.
pub struct FileMeta {
    pub path: String,
    pub filename: String,
    pub discovered_at: i64,
    pub synced_at: Option<i64>,
    pub directory: bool,
    pub md5sum: Option<String>,
}

impl View for FileMeta {
    type V = FileRec;

    open spec fn view(&self) -> FileRec {
        FileRec {
            path: self.path@,
            filename: self.filename@,
            discovered_at: self.discovered_at,
            synced_at: self.synced_at,
            directory: self.directory,
            md5sum: match self.md5sum {
                Option::Some(s) => Option::Some(s@),
                Option::None => Option::None,
            },
        }
    }
}

impl Clone for FileMeta {
    /// A clone carries exactly the same record.
    fn clone(&self) -> (r: Self)
        ensures
            r@ == self@,
    {
        FileMeta {
            path: self.path.clone(),
            filename: self.filename.clone(),
            discovered_at: self.discovered_at,
            synced_at: self.synced_at,
            directory: self.directory,
            md5sum: match &self.md5sum {
                Option::Some(s) => Option::Some(s.clone()),
                Option::None => Option::None,
            },
        }
    }
}

/// Aggregate counts over one mount's store.
pub struct MountStatus {
    pub total_entries: i64,
    pub directories: i64,
    pub files: i64,
    pub files_wo_md5: i64,
}

} // verus!
