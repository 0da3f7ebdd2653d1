//! The per-mount metadata store: a table of file records keyed by absolute
//! path, together with the mount's synchronization checkpoints.
//!
//! Re-discovery of a path replaces its record in place (upsert), never
//! duplicates it, and always clears the content digest, which marks the
//! record as waiting for the hash processor.

use vstd::prelude::*;
use crate::records::{FileMeta, FileRec, MountMeta, MountStatus};

verus! {

/// Placeholder stored in `filename` by every upsert; the base name is not
/// derived from the path yet.
pub open spec fn placeholder_filename() -> Seq<char> {
    "some-filename"@
}

/// The record written for a discovery of `path` at time `now`: digest and
/// sync time absent, so the hash processor will pick the entry up.
pub open spec fn discovered_rec(path: Seq<char>, directory: bool, now: i64) -> FileRec {
    FileRec {
        path: path,
        filename: placeholder_filename(),
        discovered_at: now,
        synced_at: Option::None,
        directory: directory,
        md5sum: Option::None,
    }
}

/// Whether some record in `s` carries the path `p`.
pub open spec fn contains_path(s: Seq<FileRec>, p: Seq<char>) -> bool {
    exists|i: int| 0 <= i < s.len() && s[i].path == p
}

/// The index of the record carrying `p`; meaningful only under
/// `unique_paths`, which makes the witness unique.
pub open spec fn index_of_path(s: Seq<FileRec>, p: Seq<char>) -> int {
    choose|i: int| 0 <= i < s.len() && s[i].path == p
}

/// No two records carry the same path.
pub open spec fn unique_paths(s: Seq<FileRec>) -> bool {
    forall|i: int, j: int| 0 <= i < j < s.len() ==> s[i].path != s[j].path
}

/// The table after a discovery of `path`: the record for `path` is replaced
/// in place if present, appended otherwise.
pub open spec fn upserted(s: Seq<FileRec>, path: Seq<char>, directory: bool, now: i64) -> Seq<
    FileRec,
> {
    if contains_path(s, path) {
        s.update(index_of_path(s, path), discovered_rec(path, directory, now))
    } else {
        s.push(discovered_rec(path, directory, now))
    }
}

/// The record `r` with its digest set to `d`, all other fields kept.
pub open spec fn with_digest(r: FileRec, d: Seq<char>) -> FileRec {
    FileRec {
        path: r.path,
        filename: r.filename,
        discovered_at: r.discovered_at,
        synced_at: r.synced_at,
        directory: r.directory,
        md5sum: Option::Some(d),
    }
}

/// The table after recording digest `d` for `path`: unchanged if the path
/// is absent (a vanished file is not an error).
pub open spec fn digest_recorded(s: Seq<FileRec>, path: Seq<char>, d: Seq<char>) -> Seq<FileRec> {
    if contains_path(s, path) {
        s.update(index_of_path(s, path), with_digest(s[index_of_path(s, path)], d))
    } else {
        s
    }
}

/// The record of `s` carrying path `p`; meaningful under `unique_paths`
/// when `contains_path(s, p)`.
pub open spec fn record_of(s: Seq<FileRec>, p: Seq<char>) -> FileRec {
    s[index_of_path(s, p)]
}

/// How many records of `s` carry path `p`.
pub open spec fn path_count(s: Seq<FileRec>, p: Seq<char>) -> int {
    s.filter(|r: FileRec| r.path == p).len() as int
}

/// Under `unique_paths`, the witness of `contains_path` is unique, and
/// `index_of_path` names it.
pub proof fn lemma_index_of_path(s: Seq<FileRec>, p: Seq<char>)
    requires
        unique_paths(s),
        contains_path(s, p),
    ensures
        0 <= index_of_path(s, p) < s.len(),
        s[index_of_path(s, p)].path == p,
        forall|j: int| 0 <= j < s.len() && s[j].path == p ==> j == index_of_path(s, p),
{
    let i = index_of_path(s, p);
    assert(0 <= i < s.len() && s[i].path == p);
    assert forall|j: int| 0 <= j < s.len() && s[j].path == p implies j == i by {
        if j != i {
            if j < i {
                assert(s[j].path != s[i].path);
            } else {
                assert(s[i].path != s[j].path);
            }
        }
    }
}

/// A record still waiting for its content digest; directories never wait.
pub open spec fn pending(r: FileRec) -> bool {
    !r.directory && r.md5sum is None
}

/// The records of `s` that the hash processor must still handle, in table
/// order.
pub open spec fn unhashed_records(s: Seq<FileRec>) -> Seq<FileRec> {
    s.filter(|r: FileRec| pending(r))
}

/// The directory records of `s`, in table order.
pub open spec fn dir_records(s: Seq<FileRec>) -> Seq<FileRec> {
    s.filter(|r: FileRec| r.directory)
}

/// The non-directory records of `s`, in table order.
pub open spec fn file_records(s: Seq<FileRec>) -> Seq<FileRec> {
    s.filter(|r: FileRec| !r.directory)
}

/// One step of the three filters above along a prefix of `s`.
pub proof fn lemma_filters_take_step(s: Seq<FileRec>, i: int)
    requires
        0 <= i < s.len(),
    ensures
        unhashed_records(s.take(i + 1)) == (if pending(s[i]) {
            unhashed_records(s.take(i)).push(s[i])
        } else {
            unhashed_records(s.take(i))
        }),
        dir_records(s.take(i + 1)) == (if s[i].directory {
            dir_records(s.take(i)).push(s[i])
        } else {
            dir_records(s.take(i))
        }),
        file_records(s.take(i + 1)) == (if !s[i].directory {
            file_records(s.take(i)).push(s[i])
        } else {
            file_records(s.take(i))
        }),
{
    reveal(Seq::filter);
    assert(s.take(i + 1).drop_last() =~= s.take(i));
    assert(s.take(i + 1).last() == s[i]);
}

/// The metadata store of one mount. The backing database file mirrors this
/// table; all record logic lives here.
pub struct MountStore {
    /// Synchronization checkpoints; untouched by this crate after creation.
    pub meta: MountMeta,
    /// The record table; hold it well-formed (`wf`) through the methods.
    pub files: Vec<FileMeta>,
}

impl View for MountStore {
    type V = Seq<FileRec>;

    open spec fn view(&self) -> Seq<FileRec> {
        self.files@.map_values(|m: FileMeta| m@)
    }
}

impl MountStore {
    /// Well-formed: the path is a key, every record carries a distinct one.
    pub open spec fn wf(self) -> bool {
        unique_paths(self@)
    }

    /// A fresh store: no records, both revisions absent, as first mount
    /// initialization leaves the backing database.
    pub fn initialize() -> (store: MountStore)
        ensures
            store.wf(),
            store@ == Seq::<FileRec>::empty(),
            store.meta.local_revision is None,
            store.meta.remote_revision is None,
    {
        let store = MountStore {
            meta: MountMeta { local_revision: Option::None, remote_revision: Option::None },
            files: Vec::new(),
        };
        proof {
            assert(store@ =~= Seq::<FileRec>::empty());
        }
        store
    }

    /// Number of records in the table.
    pub fn len(&self) -> (n: usize)
        ensures
            n == self@.len(),
    {
        self.files.len()
    }

    /// Record a discovery of `path` (by scan or watch event) at time `now`:
    /// insert or fully replace the record, clearing any digest it had.
    #[verifier::loop_isolation(false)]
    pub fn upsert_file(&mut self, path: &str, is_directory: bool, now: i64)
        requires
            old(self).wf(),
        ensures
            final(self).wf(),
            final(self)@ == upserted(old(self)@, path@, is_directory, now),
            final(self).meta == old(self).meta,
    {
        let key: String = path.to_owned();
        let rec = FileMeta {
            path: path.to_owned(),
            filename: "some-filename".to_owned(),
            discovered_at: now,
            synced_at: Option::None,
            directory: is_directory,
            md5sum: Option::None,
        };
        let ghost pre: Seq<FileRec> = self@;
        let ghost meta0: MountMeta = self.meta;
        let n: usize = self.files.len();
        let mut i: usize = 0;
        while i < n
            invariant
                0 <= i <= n,
                n == self.files.len(),
                self@ == pre,
                self.meta == meta0,
                unique_paths(pre),
                key@ == path@,
                rec@ == discovered_rec(path@, is_directory, now),
                forall|j: int| 0 <= j < i ==> pre[j].path != path@,
            decreases n - i,
        {
            if self.files[i].path == key {
                proof {
                    assert(pre[i as int].path == path@);
                    assert(contains_path(pre, path@));
                    let k = index_of_path(pre, path@);
                    assert(0 <= k < pre.len() && pre[k].path == path@);
                    assert(k == i as int);
                }
                self.files[i] = rec;
                proof {
                    assert(self@ =~= pre.update(i as int, discovered_rec(path@, is_directory, now)));
                    assert(self@ == upserted(pre, path@, is_directory, now));
                    assert forall|a: int, b: int| 0 <= a < b < self@.len() implies self@[a].path
                        != self@[b].path by {
                        assert(pre[a].path == self@[a].path || a == i as int);
                        assert(pre[b].path == self@[b].path || b == i as int);
                    }
                }
                return ;
            }
            i += 1;
        }
        proof {
            assert(!contains_path(pre, path@));
        }
        self.files.push(rec);
        proof {
            assert(self@ =~= pre.push(discovered_rec(path@, is_directory, now)));
            assert forall|a: int, b: int| 0 <= a < b < self@.len() implies self@[a].path
                != self@[b].path by {
                if b < pre.len() {
                    assert(pre[a].path != pre[b].path);
                } else {
                    assert(self@[b].path == path@);
                    assert(pre[a].path != path@);
                }
            }
        }
    }

    /// Record the content digest of `path`; leaves the table unchanged if
    /// the path is no longer recorded.
    #[verifier::loop_isolation(false)]
    pub fn set_digest(&mut self, path: &str, digest: String)
        requires
            old(self).wf(),
        ensures
            final(self).wf(),
            final(self)@ == digest_recorded(old(self)@, path@, digest@),
            final(self).meta == old(self).meta,
    {
        let key: String = path.to_owned();
        let ghost pre: Seq<FileRec> = self@;
        let ghost meta0: MountMeta = self.meta;
        let n: usize = self.files.len();
        let mut i: usize = 0;
        while i < n
            invariant
                0 <= i <= n,
                n == self.files.len(),
                self@ == pre,
                self.meta == meta0,
                unique_paths(pre),
                key@ == path@,
                forall|j: int| 0 <= j < i ==> pre[j].path != path@,
            decreases n - i,
        {
            if self.files[i].path == key {
                proof {
                    assert(pre[i as int].path == path@);
                    assert(contains_path(pre, path@));
                    let k = index_of_path(pre, path@);
                    assert(0 <= k < pre.len() && pre[k].path == path@);
                    assert(k == i as int);
                }
                let mut updated = self.files[i].clone();
                updated.md5sum = Option::Some(digest);
                proof {
                    assert(updated@ == with_digest(pre[i as int], digest@));
                }
                self.files[i] = updated;
                proof {
                    assert(self@ =~= pre.update(i as int, with_digest(pre[i as int], digest@)));
                    assert(self@ == digest_recorded(pre, path@, digest@));
                    assert forall|a: int, b: int| 0 <= a < b < self@.len() implies self@[a].path
                        != self@[b].path by {
                        assert(pre[a].path == self@[a].path || a == i as int);
                        assert(pre[b].path == self@[b].path || b == i as int);
                    }
                }
                return ;
            }
            i += 1;
        }
        proof {
            assert(!contains_path(pre, path@));
            assert(self@ == digest_recorded(pre, path@, digest@));
        }
    }

    /// All records still waiting for a digest, in table order: exactly the
    /// non-directory records whose digest is absent.
    #[verifier::loop_isolation(false)]
    pub fn find_unhashed_files(&self) -> (r: Vec<FileMeta>)
        ensures
            r@.map_values(|m: FileMeta| m@) == unhashed_records(self@),
    {
        let mut out: Vec<FileMeta> = Vec::new();
        let n: usize = self.files.len();
        let mut i: usize = 0;
        while i < n
            invariant
                0 <= i <= n,
                n == self.files.len(),
                out@.map_values(|m: FileMeta| m@) == unhashed_records(self@.take(i as int)),
            decreases n - i,
        {
            let m = &self.files[i];
            let is_pending: bool = !m.directory && m.md5sum.is_none();
            proof {
                lemma_filters_take_step(self@, i as int);
                assert(is_pending == pending(self@[i as int]));
            }
            if is_pending {
                let copied = m.clone();
                let ghost before: Seq<FileRec> = out@.map_values(|mm: FileMeta| mm@);
                out.push(copied);
                proof {
                    assert(out@.map_values(|mm: FileMeta| mm@) =~= before.push(self@[i as int]));
                }
            }
            i += 1;
        }
        proof {
            assert(self@.take(n as int) =~= self@);
        }
        out
    }

    /// Aggregate counts over a single consistent snapshot of the table.
    /// Total always splits into directories plus files, and only files can
    /// wait for a digest.
    #[verifier::loop_isolation(false)]
    pub fn status(&self) -> (st: MountStatus)
        requires
            self@.len() <= i64::MAX,
        ensures
            st.total_entries == self@.len(),
            st.directories == dir_records(self@).len(),
            st.files == file_records(self@).len(),
            st.files_wo_md5 == unhashed_records(self@).len(),
            st.total_entries == st.directories + st.files,
            st.files_wo_md5 <= st.files,
    {
        let n: usize = self.files.len();
        let mut dirs: i64 = 0;
        let mut files: i64 = 0;
        let mut wo: i64 = 0;
        let mut i: usize = 0;
        while i < n
            invariant
                0 <= i <= n,
                n == self.files.len(),
                self@.len() <= i64::MAX,
                dirs == dir_records(self@.take(i as int)).len(),
                files == file_records(self@.take(i as int)).len(),
                wo == unhashed_records(self@.take(i as int)).len(),
                dirs + files == i,
                0 <= wo <= files,
            decreases n - i,
        {
            let m = &self.files[i];
            proof {
                lemma_filters_take_step(self@, i as int);
            }
            if m.directory {
                dirs += 1;
            } else {
                files += 1;
                if m.md5sum.is_none() {
                    wo += 1;
                }
            }
            proof {
                assert(pending(self@[i as int]) ==> !self@[i as int].directory);
            }
            i += 1;
        }
        proof {
            assert(self@.take(n as int) =~= self@);
        }
        MountStatus { total_entries: dirs + files, directories: dirs, files: files, files_wo_md5: wo }
    }
}

/// Name of the database file that backs the store for one mount.
pub fn mount_db_file_name(mount_name: &str) -> (r: String)
    ensures
        r@ == "mount_"@ + mount_name@ + ".sqlite3"@,
{
    let mut name = "mount_".to_owned();
    name.append(mount_name);
    name.append(".sqlite3");
    name
}

} // verus!
