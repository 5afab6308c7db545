use rta::fingerprint::layout_fingerprint;
use rta::{Rta, RtaError};
use std::path::PathBuf;

fn path_in(dir: &tempfile::TempDir, name: &str) -> PathBuf {
    dir.path().join(name)
}

#[test]
fn two_field_record_lifecycle() {
    let dir = tempfile::tempdir().unwrap();
    let path = path_in(&dir, "f");
    let store = Rta::<[u64; 2]>::new(path.clone()).unwrap();
    assert_eq!(store.read().unwrap(), [0, 0]);
    store.write(&[1, 100]).unwrap();
    assert_eq!(store.read().unwrap(), [1, 100]);
    for i in 0..5u64 {
        let m = [i, i * 100];
        store.write(&m).unwrap();
        assert_eq!(store.read().unwrap(), m);
    }
    drop(store);
    let store = Rta::<[u64; 2]>::open(path.clone()).unwrap();
    assert_eq!(store.read().unwrap(), [4, 400]);
}

#[test]
fn second_new_on_same_path_conflicts() {
    let dir = tempfile::tempdir().unwrap();
    let path = path_in(&dir, "f");
    let first = Rta::<[u64; 2]>::new(path.clone()).unwrap();
    first.write(&[3, 7]).unwrap();
    assert!(matches!(Rta::<[u64; 2]>::new(path.clone()), Err(RtaError::PathConflict)));
    assert_eq!(first.read().unwrap(), [3, 7]);
}

#[test]
fn value_persists_across_reopen() {
    let dir = tempfile::tempdir().unwrap();
    let path = path_in(&dir, "persist.bin");
    {
        let store = Rta::<[u64; 3]>::new(path.clone()).unwrap();
        store.write(&[9, 99, 999]).unwrap();
        store.write(&[10, 100, 1000]).unwrap();
    }
    let store = Rta::<[u64; 3]>::open(path.clone()).unwrap();
    assert_eq!(store.read().unwrap(), [10, 100, 1000]);
    store.write(&[11, 110, 1100]).unwrap();
    assert_eq!(store.read().unwrap(), [11, 110, 1100]);
}

#[test]
fn single_word_record_round_trip() {
    let dir = tempfile::tempdir().unwrap();
    let path = path_in(&dir, "one");
    let store = Rta::<u64>::new(path.clone()).unwrap();
    assert_eq!(store.read().unwrap(), 0);
    store.write(&u64::MAX).unwrap();
    assert_eq!(store.read().unwrap(), u64::MAX);
}

#[test]
fn open_under_other_type_is_schema_mismatch() {
    let dir = tempfile::tempdir().unwrap();
    let path = path_in(&dir, "f");
    {
        let store = Rta::<[u64; 2]>::new(path.clone()).unwrap();
        store.write(&[1, 2]).unwrap();
    }
    assert!(matches!(Rta::<u64>::open(path.clone()), Err(RtaError::SchemaMismatch)));
    assert!(matches!(Rta::<[u64; 3]>::open(path.clone()), Err(RtaError::SchemaMismatch)));
    let store = Rta::<[u64; 2]>::open(path.clone()).unwrap();
    assert_eq!(store.read().unwrap(), [1, 2]);
}

#[test]
fn new_on_existing_plain_file_conflicts() {
    let dir = tempfile::tempdir().unwrap();
    let file = tempfile::NamedTempFile::new_in(dir.path()).unwrap();
    let path = file.path().to_path_buf();
    assert!(matches!(Rta::<[u64; 2]>::new(path.clone()), Err(RtaError::PathConflict)));
}

#[test]
fn initial_image_holds_empty_record_twice() {
    assert_eq!(
        Rta::<[u64; 2]>::initial_image_of(),
        vec![0x830f_7e15_0a05_9ab4, 0, 0, 1, 0, 0, 0, 1, 0]
    );
    assert_eq!(Rta::<u64>::initial_image_of(), vec![0x4d35_d319_3e8d_66f2, 0, 1, 0, 0, 1, 0]);
    assert_eq!(Rta::<[u64; 2]>::decode(&Rta::<[u64; 2]>::initial_image_of()), Ok([0, 0]));
}

#[test]
fn new_on_directory_is_invalid_kind() {
    let dir = tempfile::tempdir().unwrap();
    let path = dir.path().to_path_buf();
    assert!(matches!(Rta::<[u64; 2]>::new(path.clone()), Err(RtaError::PathInvalidKind)));
}

#[test]
fn open_missing_file_is_invalid_kind() {
    let dir = tempfile::tempdir().unwrap();
    let path = path_in(&dir, "missing");
    assert!(matches!(Rta::<[u64; 2]>::open(path.clone()), Err(RtaError::PathInvalidKind)));
}

#[test]
fn size_and_hash_come_from_the_record_type() {
    assert_eq!(Rta::<[u64; 2]>::size(), 16);
    assert_eq!(Rta::<u64>::size(), 8);
    assert_eq!(Rta::<[u64; 2]>::hash(), 0x830f_7e15_0a05_9ab4);
    let fields = vec!["u64".to_string(), "u64".to_string()];
    assert_eq!(Rta::<[u64; 2]>::hash(), layout_fingerprint("Words", &fields));
    assert_eq!(Rta::<u64>::hash(), 0x4d35_d319_3e8d_66f2);
    assert_eq!(Rta::<u64>::hash(), layout_fingerprint("u64", &vec![]));
    assert_ne!(Rta::<[u64; 3]>::hash(), Rta::<[u64; 2]>::hash());
}
