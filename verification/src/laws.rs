//! Laws of the store: properties that hold of every table the operations
//! can produce, stated over the same spec functions the operations' own
//! contracts use.

use vstd::prelude::*;
use crate::digest::md5_hex_of;
use crate::processor::{cycle_spec, ReadRec};
use crate::records::FileRec;
use crate::store::{
    contains_path, digest_recorded, dir_records, discovered_rec, file_records, index_of_path,
    lemma_index_of_path, path_count, pending, record_of, unhashed_records, unique_paths, upserted,
    with_digest,
};

verus! {

/// Counting one path along a well-formed table: one record when the path
/// is present, none otherwise.
pub proof fn lemma_path_count(s: Seq<FileRec>, p: Seq<char>)
    requires
        unique_paths(s),
    ensures
        path_count(s, p) == if contains_path(s, p) {
            1int
        } else {
            0int
        },
    decreases s.len(),
{
    reveal(Seq::filter);
    if s.len() > 0 {
        let dl = s.drop_last();
        assert(unique_paths(dl)) by {
            assert(forall|i: int, j: int|
                0 <= i < j < dl.len() ==> dl[i] == s[i] && dl[j] == s[j]);
        }
        lemma_path_count(dl, p);
        if s.last().path == p {
            assert(!contains_path(dl, p)) by {
                if contains_path(dl, p) {
                    let k = index_of_path(dl, p);
                    assert(s[k].path == s[s.len() - 1].path);
                }
            }
            assert(contains_path(s, p));
        } else {
            assert(contains_path(s, p) == contains_path(dl, p)) by {
                if contains_path(s, p) {
                    let k = index_of_path(s, p);
                    assert(0 <= k < s.len() && s[k].path == p);
                    assert(k < s.len() - 1);
                    assert(dl[k].path == p);
                }
            }
        }
    }
}

/// Upsert idempotence: a second discovery of the same path with the same
/// directory flag collapses to the later one alone — one record for the
/// path, stamped with the second time, its digest absent.
pub proof fn lemma_upsert_idempotent(
    s: Seq<FileRec>,
    path: Seq<char>,
    directory: bool,
    t1: i64,
    t2: i64,
)
    requires
        unique_paths(s),
    ensures
        upserted(upserted(s, path, directory, t1), path, directory, t2) == upserted(
            s,
            path,
            directory,
            t2,
        ),
        path_count(upserted(upserted(s, path, directory, t1), path, directory, t2), path) == 1,
        record_of(upserted(upserted(s, path, directory, t1), path, directory, t2), path)
            == discovered_rec(path, directory, t2),
{
    let s1 = upserted(s, path, directory, t1);
    let rec1 = discovered_rec(path, directory, t1);
    let rec2 = discovered_rec(path, directory, t2);
    lemma_upsert_wf(s, path, directory, t1);
    if contains_path(s, path) {
        let i = index_of_path(s, path);
        lemma_index_of_path(s, path);
        assert(s1 == s.update(i, rec1));
        assert(s1[i].path == path);
        assert(contains_path(s1, path));
        lemma_index_of_path(s1, path);
        assert(index_of_path(s1, path) == i);
        assert(upserted(s1, path, directory, t2) =~= s.update(i, rec2));
        lemma_upsert_wf(s, path, directory, t2);
        lemma_index_of_path(upserted(s, path, directory, t2), path);
    } else {
        assert(s1 == s.push(rec1));
        assert(s1[s.len() as int].path == path);
        assert(contains_path(s1, path));
        lemma_index_of_path(s1, path);
        assert(index_of_path(s1, path) == s.len());
        assert(upserted(s1, path, directory, t2) =~= s.push(rec2));
        lemma_upsert_wf(s, path, directory, t2);
        lemma_index_of_path(upserted(s, path, directory, t2), path);
    }
    lemma_upsert_wf(s, path, directory, t2);
    lemma_path_count(upserted(s, path, directory, t2), path);
}

/// Upsert keeps the table well-formed and leaves the record for the path
/// freshly discovered: time advanced to this discovery, digest absent.
pub proof fn lemma_upsert_wf(s: Seq<FileRec>, path: Seq<char>, directory: bool, now: i64)
    requires
        unique_paths(s),
    ensures
        unique_paths(upserted(s, path, directory, now)),
        contains_path(upserted(s, path, directory, now), path),
        record_of(upserted(s, path, directory, now), path) == discovered_rec(path, directory, now),
        record_of(upserted(s, path, directory, now), path).md5sum is None,
        record_of(upserted(s, path, directory, now), path).discovered_at == now,
        forall|q: Seq<char>|
            q != path ==> (#[trigger] contains_path(upserted(s, path, directory, now), q))
                == contains_path(s, q),
        forall|q: Seq<char>|
            q != path && contains_path(s, q) ==> #[trigger] record_of(
                upserted(s, path, directory, now),
                q,
            ) == record_of(s, q),
{
    let t = upserted(s, path, directory, now);
    let rec = discovered_rec(path, directory, now);
    if contains_path(s, path) {
        let i = index_of_path(s, path);
        lemma_index_of_path(s, path);
        assert(t == s.update(i, rec));
        assert(forall|k: int| 0 <= k < t.len() ==> t[k].path == s[k].path);
        assert(unique_paths(t));
        assert(t[i].path == path);
        assert(contains_path(t, path));
        lemma_index_of_path(t, path);
        assert forall|q: Seq<char>|
            q != path implies (#[trigger] contains_path(t, q)) == contains_path(s, q) by {
            if contains_path(s, q) {
                let k = index_of_path(s, q);
                assert(t[k].path == q);
            }
            if contains_path(t, q) {
                let k = index_of_path(t, q);
                assert(s[k].path == q);
            }
        }
        assert forall|q: Seq<char>| q != path && contains_path(s, q) implies #[trigger] record_of(
            t,
            q,
        ) == record_of(s, q) by {
            let k = index_of_path(s, q);
            lemma_index_of_path(s, q);
            assert(t[k].path == q);
            assert(contains_path(t, q));
            lemma_index_of_path(t, q);
            assert(index_of_path(t, q) == k);
            assert(k != i);
        }
    } else {
        assert(t == s.push(rec));
        assert(t[s.len() as int].path == path);
        assert(contains_path(t, path));
        assert forall|a: int, b: int| 0 <= a < b < t.len() implies t[a].path != t[b].path by {
            if b < s.len() {
                assert(s[a].path != s[b].path);
            } else {
                assert(t[b].path == path);
                assert(!contains_path(s, path));
                assert(s[a].path == t[a].path);
            }
        }
        lemma_index_of_path(t, path);
        assert(index_of_path(t, path) == s.len());
        assert forall|q: Seq<char>|
            q != path implies (#[trigger] contains_path(t, q)) == contains_path(s, q) by {
            if contains_path(s, q) {
                let k = index_of_path(s, q);
                assert(t[k].path == q);
            }
            if contains_path(t, q) {
                let k = index_of_path(t, q);
                assert(k < s.len());
                assert(s[k].path == q);
            }
        }
        assert forall|q: Seq<char>| q != path && contains_path(s, q) implies #[trigger] record_of(
            t,
            q,
        ) == record_of(s, q) by {
            let k = index_of_path(s, q);
            lemma_index_of_path(s, q);
            assert(t[k].path == q);
            assert(contains_path(t, q));
            lemma_index_of_path(t, q);
            assert(index_of_path(t, q) == k);
        }
    }
}

/// Digest invalidation: a new discovery for a path resets its digest to
/// absent, whatever digest the record carried before.
pub proof fn lemma_discovery_resets_digest(
    s: Seq<FileRec>,
    path: Seq<char>,
    directory: bool,
    now: i64,
)
    requires
        unique_paths(s),
        contains_path(s, path),
        record_of(s, path).md5sum is Some,
    ensures
        record_of(upserted(s, path, directory, now), path).md5sum is None,
        record_of(upserted(s, path, directory, now), path).discovered_at == now,
{
    lemma_upsert_wf(s, path, directory, now);
}

/// Recording a digest never touches a path's identity: the table keeps its
/// length, every record its path and directory flag; the named record gets
/// the digest, every other record is untouched.
pub proof fn lemma_digest_recorded_effects(s: Seq<FileRec>, p: Seq<char>, d: Seq<char>)
    requires
        unique_paths(s),
    ensures
        unique_paths(digest_recorded(s, p, d)),
        digest_recorded(s, p, d).len() == s.len(),
        forall|k: int|
            0 <= k < s.len() ==> (#[trigger] digest_recorded(s, p, d)[k]).path == s[k].path
                && digest_recorded(s, p, d)[k].directory == s[k].directory,
        contains_path(s, p) ==> record_of(digest_recorded(s, p, d), p) == with_digest(
            record_of(s, p),
            d,
        ),
        forall|q: Seq<char>|
            (#[trigger] contains_path(digest_recorded(s, p, d), q)) == contains_path(s, q),
        forall|q: Seq<char>|
            q != p && contains_path(s, q) ==> #[trigger] record_of(digest_recorded(s, p, d), q)
                == record_of(s, q),
{
    let t = digest_recorded(s, p, d);
    if contains_path(s, p) {
        let i = index_of_path(s, p);
        lemma_index_of_path(s, p);
        assert(t == s.update(i, with_digest(s[i], d)));
        assert(forall|k: int| 0 <= k < t.len() ==> t[k].path == s[k].path);
        assert(unique_paths(t));
        assert(t[i].path == p);
        assert(contains_path(t, p));
        lemma_index_of_path(t, p);
        assert(index_of_path(t, p) == i);
        assert forall|q: Seq<char>|
            (#[trigger] contains_path(t, q)) == contains_path(s, q) by {
            if contains_path(s, q) {
                let k = index_of_path(s, q);
                assert(t[k].path == q);
            }
            if contains_path(t, q) {
                let k = index_of_path(t, q);
                assert(s[k].path == q);
            }
        }
        assert forall|q: Seq<char>| q != p && contains_path(s, q) implies #[trigger] record_of(
            t,
            q,
        ) == record_of(s, q) by {
            let k = index_of_path(s, q);
            lemma_index_of_path(s, q);
            assert(t[k].path == q);
            assert(contains_path(t, q));
            lemma_index_of_path(t, q);
            assert(index_of_path(t, q) == k);
            assert(k != i);
        }
    }
}

/// A whole processor cycle keeps the table's structure: length, paths and
/// directory flags are those of the table it started from.
pub proof fn lemma_cycle_preserves_structure(s: Seq<FileRec>, reads: Seq<ReadRec>)
    requires
        unique_paths(s),
    ensures
        unique_paths(cycle_spec(s, reads)),
        cycle_spec(s, reads).len() == s.len(),
        forall|k: int|
            0 <= k < s.len() ==> (#[trigger] cycle_spec(s, reads)[k]).path == s[k].path
                && cycle_spec(s, reads)[k].directory == s[k].directory,
        forall|q: Seq<char>|
            (#[trigger] contains_path(cycle_spec(s, reads), q)) == contains_path(s, q),
    decreases reads.len(),
{
    if reads.len() > 0 {
        let m = cycle_spec(s, reads.drop_last());
        lemma_cycle_preserves_structure(s, reads.drop_last());
        match reads.last().bytes {
            Option::Some(b) => {
                lemma_digest_recorded_effects(m, reads.last().path, md5_hex_of(b));
            },
            Option::None => {},
        }
    }
    let t = cycle_spec(s, reads);
    assert forall|q: Seq<char>|
        (#[trigger] contains_path(t, q)) == contains_path(s, q) by {
        if contains_path(s, q) {
            let k = index_of_path(s, q);
            assert(t[k].path == q);
        }
        if contains_path(t, q) {
            let k = index_of_path(t, q);
            assert(s[k].path == q);
        }
    }
}

/// The queue query is sound and complete: every entry it returns is a real
/// record of the table, still waiting for its digest — so never a
/// directory — and every record still waiting is returned.
pub proof fn lemma_unhashed_elements(s: Seq<FileRec>)
    ensures
        forall|k: int|
            0 <= k < unhashed_records(s).len() ==> pending(#[trigger] unhashed_records(s)[k])
                && s.contains(unhashed_records(s)[k]),
        forall|k: int|
            0 <= k < unhashed_records(s).len() ==> !(#[trigger] unhashed_records(s)[k]).directory,
        forall|i: int|
            0 <= i < s.len() && pending(#[trigger] s[i]) ==> unhashed_records(s).contains(s[i]),
    decreases s.len(),
{
    reveal(Seq::filter);
    if s.len() > 0 {
        let dl = s.drop_last();
        lemma_unhashed_elements(dl);
        assert forall|k: int|
            0 <= k < unhashed_records(s).len() implies pending(#[trigger] unhashed_records(s)[k])
            && s.contains(unhashed_records(s)[k]) by {
            if k < unhashed_records(dl).len() {
                assert(unhashed_records(s)[k] == unhashed_records(dl)[k]);
                assert(dl.contains(unhashed_records(dl)[k]));
                let j = choose|j: int| 0 <= j < dl.len() && dl[j] == unhashed_records(dl)[k];
                assert(s[j] == unhashed_records(s)[k]);
            } else {
                assert(unhashed_records(s)[k] == s.last());
                assert(s[s.len() - 1] == s.last());
            }
        }
        assert forall|i: int|
            0 <= i < s.len() && pending(#[trigger] s[i]) implies unhashed_records(s).contains(
            s[i],
        ) by {
            if i < s.len() - 1 {
                assert(dl[i] == s[i]);
                assert(unhashed_records(dl).contains(dl[i]));
                let k = choose|k: int|
                    0 <= k < unhashed_records(dl).len() && unhashed_records(dl)[k] == dl[i];
                assert(unhashed_records(s)[k] == dl[i]);
            } else {
                assert(s.last() == s[i]);
                assert(unhashed_records(s).last() == s[i]);
            }
        }
    }
}

/// Processor convergence: a queued record whose backing file was read, and
/// which no later read of the cycle touches again, ends the cycle with its
/// digest present — the digest of exactly the bytes that were read.
pub proof fn lemma_processor_convergence(
    s: Seq<FileRec>,
    reads: Seq<ReadRec>,
    i: int,
    b: Seq<u8>,
)
    requires
        unique_paths(s),
        0 <= i < reads.len(),
        reads[i].bytes == Option::Some(b),
        contains_path(s, reads[i].path),
        forall|j: int| i < j < reads.len() ==> (#[trigger] reads[j]).path != reads[i].path,
    ensures
        contains_path(cycle_spec(s, reads), reads[i].path),
        record_of(cycle_spec(s, reads), reads[i].path).md5sum == Option::Some(md5_hex_of(b)),
    decreases reads.len(),
{
    let p = reads[i].path;
    let m = cycle_spec(s, reads.drop_last());
    lemma_cycle_preserves_structure(s, reads.drop_last());
    lemma_cycle_preserves_structure(s, reads);
    if i == reads.len() - 1 {
        assert(reads.last() == reads[i]);
        assert(contains_path(m, p));
        lemma_digest_recorded_effects(m, p, md5_hex_of(b));
        assert(cycle_spec(s, reads) == digest_recorded(m, p, md5_hex_of(b)));
        assert(record_of(cycle_spec(s, reads), p) == with_digest(record_of(m, p), md5_hex_of(b)));
    } else {
        assert(forall|j: int|
            i < j < reads.drop_last().len() ==> (#[trigger] reads.drop_last()[j]).path
                != reads.drop_last()[i].path);
        lemma_processor_convergence(s, reads.drop_last(), i, b);
        assert(reads.last() == reads[reads.len() - 1]);
        assert(reads.last().path != p);
        match reads.last().bytes {
            Option::Some(c) => {
                lemma_digest_recorded_effects(m, reads.last().path, md5_hex_of(c));
                assert(record_of(cycle_spec(s, reads), p) == record_of(m, p));
            },
            Option::None => {},
        }
    }
}

/// No digest stands on any directory record.
pub open spec fn dirs_have_no_digest(s: Seq<FileRec>) -> bool {
    forall|i: int| 0 <= i < s.len() && (#[trigger] s[i]).directory ==> s[i].md5sum is None
}

/// A discovery keeps directories digest-free: the record it writes carries
/// no digest, and no other record changes.
pub proof fn lemma_upsert_keeps_dirs_unhashed(
    s: Seq<FileRec>,
    path: Seq<char>,
    directory: bool,
    now: i64,
)
    requires
        dirs_have_no_digest(s),
    ensures
        dirs_have_no_digest(upserted(s, path, directory, now)),
{
    let t = upserted(s, path, directory, now);
    assert forall|i: int| 0 <= i < t.len() && (#[trigger] t[i]).directory implies t[i].md5sum
        is None by {
        if t[i] != discovered_rec(path, directory, now) {
            assert(t[i] == s[i]);
        }
    }
}

/// Directory exclusion across a whole cycle: when every read of the cycle
/// names a path the queue query returned, directories end the cycle as they
/// began it — without a digest.
pub proof fn lemma_directories_never_acquire_digest(s: Seq<FileRec>, reads: Seq<ReadRec>)
    requires
        unique_paths(s),
        dirs_have_no_digest(s),
        forall|j: int|
            0 <= j < reads.len() ==> exists|k: int|
                0 <= k < unhashed_records(s).len() && (#[trigger] reads[j]).path
                    == (#[trigger] unhashed_records(s)[k]).path,
    ensures
        dirs_have_no_digest(cycle_spec(s, reads)),
    decreases reads.len(),
{
    lemma_unhashed_elements(s);
    if reads.len() > 0 {
        let dl = reads.drop_last();
        assert(forall|j: int| 0 <= j < dl.len() ==> dl[j] == reads[j]);
        lemma_directories_never_acquire_digest(s, dl);
        let m = cycle_spec(s, dl);
        let t = cycle_spec(s, reads);
        lemma_cycle_preserves_structure(s, dl);
        match reads.last().bytes {
            Option::Some(b) => {
                let p = reads.last().path;
                lemma_digest_recorded_effects(m, p, md5_hex_of(b));
                assert(t == digest_recorded(m, p, md5_hex_of(b)));
                assert forall|i: int| 0 <= i < t.len() && (#[trigger] t[i]).directory
                    implies t[i].md5sum is None by {
                    if t[i] != m[i] {
                        // only the record for `p` changed, so `m[i]` carries `p`
                        assert(contains_path(m, p));
                        let ip = index_of_path(m, p);
                        lemma_index_of_path(m, p);
                        assert(i == ip);
                        // `p` was returned by the queue query, so its record
                        // in `s` is a pending non-directory
                        assert(reads[reads.len() - 1] == reads.last());
                        let k = choose|k: int|
                            0 <= k < unhashed_records(s).len() && reads[reads.len() - 1].path
                                == unhashed_records(s)[k].path;
                        let u = unhashed_records(s)[k];
                        assert(pending(u) && s.contains(u));
                        let j = choose|j: int| 0 <= j < s.len() && s[j] == u;
                        assert(m[j].path == p);
                        assert(i == j);
                        assert(m[i].directory == s[j].directory);
                        assert(!t[i].directory);
                    }
                }
            },
            Option::None => {},
        }
    }
}

/// Status consistency: every record is a directory or a file, so the total
/// splits exactly, and only files can wait for a digest.
pub proof fn lemma_status_consistency(s: Seq<FileRec>)
    ensures
        s.len() == dir_records(s).len() + file_records(s).len(),
        unhashed_records(s).len() <= file_records(s).len(),
    decreases s.len(),
{
    reveal(Seq::filter);
    if s.len() > 0 {
        lemma_status_consistency(s.drop_last());
    }
}

} // verus!
