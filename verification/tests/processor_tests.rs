use ydclient::digest::{bytes_to_hex, md5_hex};
use ydclient::processor::ReadOutcome;
use ydclient::store::MountStore;

#[test]
fn md5_of_known_strings() {
    assert_eq!(md5_hex(&b"hi".to_vec()), "49f68a5c8493ec2c0bf489821c21fc3b");
    assert_eq!(md5_hex(&b"".to_vec()), "d41d8cd98f00b204e9800998ecf8427e");
    assert_eq!(md5_hex(&b"hello world".to_vec()), "5eb63bbbe01eeed093cb22bb8f5acdc3");
}

#[test]
fn hex_rendering_is_two_lowercase_digits_per_byte() {
    assert_eq!(bytes_to_hex(&vec![]), "");
    assert_eq!(bytes_to_hex(&vec![0x00, 0x0f, 0xa5, 0xff]), "000fa5ff");
}

#[test]
fn record_file_digest_fills_the_record() {
    // Processor convergence: a queued record with readable bytes holds the
    // digest of those bytes after one cycle.
    let mut store = MountStore::initialize();
    store.upsert_file("/m/a", false, 1);
    store.record_file_digest("/m/a", &b"hi".to_vec());
    assert_eq!(
        store.files[0].md5sum.as_deref(),
        Some("49f68a5c8493ec2c0bf489821c21fc3b")
    );
}

#[test]
fn cycle_processes_reads_and_counts_successes() {
    let mut store = MountStore::initialize();
    store.upsert_file("/m/a", false, 1);
    store.upsert_file("/m/b", false, 1);
    store.upsert_file("/m/vanished", false, 1);
    let reads = vec![
        ReadOutcome { path: String::from("/m/a"), bytes: Some(b"hi".to_vec()) },
        ReadOutcome { path: String::from("/m/vanished"), bytes: None },
        ReadOutcome { path: String::from("/m/b"), bytes: Some(b"hi!".to_vec()) },
    ];
    let processed = store.run_processor_cycle(&reads);
    assert_eq!(processed, 2);
    assert_eq!(
        store.files[0].md5sum.as_deref(),
        Some("49f68a5c8493ec2c0bf489821c21fc3b")
    );
    assert_eq!(
        store.files[1].md5sum.as_deref(),
        Some("aff97160474a056e838c1f721af01edf")
    );
    // the failed read leaves the entry queued
    assert_eq!(store.files[2].md5sum, None);
    assert_eq!(store.find_unhashed_files().len(), 1);
}

#[test]
fn cycle_for_vanished_path_changes_nothing() {
    let mut store = MountStore::initialize();
    let reads = vec![ReadOutcome { path: String::from("/m/gone"), bytes: Some(b"hi".to_vec()) }];
    let processed = store.run_processor_cycle(&reads);
    assert_eq!(processed, 1);
    assert_eq!(store.len(), 0);
}

#[test]
fn docs_mount_scenario() {
    // The full life of one file in mount "docs": scan, hash, watch event
    // after a change, hash again.
    let mut store = MountStore::initialize();

    // scanner visits /tmp/docs/a.txt holding "hi"
    store.upsert_file("/tmp/docs/a.txt", false, 10);
    assert_eq!(store.len(), 1);
    assert_eq!(store.files[0].md5sum, None);

    // one processor cycle reads the file
    let pending = store.find_unhashed_files();
    assert_eq!(pending.len(), 1);
    let reads = vec![ReadOutcome { path: pending[0].path.clone(), bytes: Some(b"hi".to_vec()) }];
    store.run_processor_cycle(&reads);
    assert_eq!(
        store.files[0].md5sum.as_deref(),
        Some("49f68a5c8493ec2c0bf489821c21fc3b")
    );

    // the file changes to "hi!" and a watch event arrives
    let label = store.apply_watch_event("/tmp/docs/a.txt", false, 20);
    assert_eq!(label, "File");
    assert_eq!(store.files[0].md5sum, None);

    // the next cycle recomputes the digest
    let pending = store.find_unhashed_files();
    assert_eq!(pending.len(), 1);
    let reads = vec![ReadOutcome { path: pending[0].path.clone(), bytes: Some(b"hi!".to_vec()) }];
    store.run_processor_cycle(&reads);
    assert_eq!(
        store.files[0].md5sum.as_deref(),
        Some("aff97160474a056e838c1f721af01edf")
    );
}
