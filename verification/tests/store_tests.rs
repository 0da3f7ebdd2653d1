use ydclient::records::FileMeta;
use ydclient::store::{mount_db_file_name, MountStore};

fn paths(store: &MountStore) -> Vec<String> {
    store.files.iter().map(|m| m.path.clone()).collect()
}

#[test]
fn initialize_is_empty() {
    let store = MountStore::initialize();
    assert_eq!(store.len(), 0);
    assert!(store.meta.local_revision.is_none());
    assert!(store.meta.remote_revision.is_none());
}

#[test]
fn upsert_creates_one_record() {
    let mut store = MountStore::initialize();
    store.upsert_file("/tmp/docs/a.txt", false, 100);
    assert_eq!(store.len(), 1);
    let rec: &FileMeta = &store.files[0];
    assert_eq!(rec.path, "/tmp/docs/a.txt");
    assert_eq!(rec.filename, "some-filename");
    assert_eq!(rec.discovered_at, 100);
    assert_eq!(rec.synced_at, None);
    assert!(!rec.directory);
    assert_eq!(rec.md5sum, None);
}

#[test]
fn upsert_twice_is_one_record_with_second_time() {
    // Upsert idempotence: the same path twice leaves exactly one record,
    // stamped with the second call's time, digest absent.
    let mut store = MountStore::initialize();
    store.upsert_file("/m/x", false, 1);
    store.upsert_file("/m/x", false, 2);
    assert_eq!(store.len(), 1);
    assert_eq!(store.files[0].discovered_at, 2);
    assert_eq!(store.files[0].md5sum, None);
}

#[test]
fn upsert_resets_digest() {
    // Digest invalidation: a fresh discovery clears a present digest.
    let mut store = MountStore::initialize();
    store.upsert_file("/m/x", false, 1);
    store.set_digest("/m/x", String::from("49f68a5c8493ec2c0bf489821c21fc3b"));
    assert!(store.files[0].md5sum.is_some());
    store.upsert_file("/m/x", false, 5);
    assert_eq!(store.len(), 1);
    assert_eq!(store.files[0].md5sum, None);
    assert_eq!(store.files[0].discovered_at, 5);
}

#[test]
fn upsert_keeps_other_records() {
    let mut store = MountStore::initialize();
    store.upsert_file("/m/a", false, 1);
    store.upsert_file("/m/b", true, 2);
    store.upsert_file("/m/a", false, 3);
    assert_eq!(store.len(), 2);
    assert_eq!(paths(&store), vec!["/m/a".to_string(), "/m/b".to_string()]);
    assert_eq!(store.files[0].discovered_at, 3);
    assert_eq!(store.files[1].discovered_at, 2);
}

#[test]
fn set_digest_missing_path_is_no_op() {
    let mut store = MountStore::initialize();
    store.upsert_file("/m/a", false, 1);
    store.set_digest("/m/gone", String::from("d41d8cd98f00b204e9800998ecf8427e"));
    assert_eq!(store.len(), 1);
    assert_eq!(store.files[0].md5sum, None);
}

#[test]
fn find_unhashed_excludes_directories_and_hashed() {
    // Directory exclusion: directories are never queued for hashing.
    let mut store = MountStore::initialize();
    store.upsert_file("/m/dir", true, 1);
    store.upsert_file("/m/a", false, 2);
    store.upsert_file("/m/b", false, 3);
    store.set_digest("/m/b", String::from("d41d8cd98f00b204e9800998ecf8427e"));
    let pending = store.find_unhashed_files();
    assert_eq!(pending.len(), 1);
    assert_eq!(pending[0].path, "/m/a");
    assert!(!pending[0].directory);
}

#[test]
fn status_counts_are_consistent() {
    // Status consistency: total splits into directories and files, and
    // only files can wait for a digest.
    let mut store = MountStore::initialize();
    store.upsert_file("/m", true, 1);
    store.upsert_file("/m/sub", true, 1);
    store.upsert_file("/m/a", false, 2);
    store.upsert_file("/m/b", false, 2);
    store.upsert_file("/m/c", false, 2);
    store.set_digest("/m/a", String::from("d41d8cd98f00b204e9800998ecf8427e"));
    let status = store.status();
    assert_eq!(status.total_entries, 5);
    assert_eq!(status.directories, 2);
    assert_eq!(status.files, 3);
    assert_eq!(status.files_wo_md5, 2);
    assert_eq!(status.total_entries, status.directories + status.files);
    assert!(status.files_wo_md5 <= status.files);
}

#[test]
fn status_of_empty_store() {
    let store = MountStore::initialize();
    let status = store.status();
    assert_eq!(status.total_entries, 0);
    assert_eq!(status.directories, 0);
    assert_eq!(status.files, 0);
    assert_eq!(status.files_wo_md5, 0);
}

#[test]
fn db_file_name_is_derived_from_mount_name() {
    assert_eq!(mount_db_file_name("docs"), "mount_docs.sqlite3");
    assert_eq!(mount_db_file_name(""), "mount_.sqlite3");
}
