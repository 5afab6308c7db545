use rta::checksum::{crc32c, digest_range};
use rta::fingerprint::{hasher, layout_fingerprint, FNV_OFFSET};
use rta::layout::{
    apply_plan, check_image, copy_words, initial_image, is_copy_valid, read_image, write_image,
    write_plan,
};
use rta::store::error_kind;
use rta::RtaError;

const FP: u64 = 0xaa15_3427_b4ce_b332;

fn fresh() -> Vec<u64> {
    initial_image(FP, &[0, 0])
}

#[test]
fn crc32c_known_values() {
    assert_eq!(crc32c(b""), 0);
    assert_eq!(crc32c(&[1u8]), 0xf26b_8303);
    assert_eq!(crc32c(b"123456789"), 0x58e3_fa20);
}

#[test]
fn digest_covers_little_endian_words() {
    assert_eq!(digest_range(&[1, 100], 0, 2), 0xc411_2138);
    assert_eq!(digest_range(&[7, 1, 100, 9], 1, 3), 0xc411_2138);
    let mut bytes = Vec::new();
    for w in [1u64, 100] {
        bytes.extend_from_slice(&w.to_le_bytes());
    }
    assert_eq!(digest_range(&[1, 100], 0, 2), crc32c(&bytes));
}

#[test]
fn fnv_hasher_values() {
    assert_eq!(hasher(0, b""), FNV_OFFSET);
    assert_eq!(hasher(0, b"a"), 0xaf63_dc4c_8601_ec8c);
    assert_eq!(hasher(hasher(0, b"ab"), b"c"), hasher(0, b"abc"));
}

#[test]
fn fingerprint_of_two_field_record() {
    let fields = vec!["u64".to_string(), "u64".to_string()];
    assert_eq!(layout_fingerprint("Meta", &fields), FP);
    let other = vec!["u64".to_string(), "u32".to_string()];
    assert_ne!(layout_fingerprint("Meta", &other), FP);
    assert_ne!(layout_fingerprint("Other", &fields), FP);
}

#[test]
fn initial_image_layout() {
    let img = fresh();
    assert_eq!(img, vec![FP, 0, 0, 1, 0, 0, 0, 1, 0]);
    let d = initial_image(FP, &[1, 100]);
    assert_eq!(d, vec![FP, 1, 100, 1, 0xc411_2138, 1, 100, 1, 0xc411_2138]);
    assert_eq!(check_image(&d, 2, FP), Ok(()));
    assert_eq!(read_image(&d, 2), Ok(vec![1, 100]));
}

#[test]
fn read_after_write_returns_value() {
    let mut img = fresh();
    assert_eq!(read_image(&img, 2), Ok(vec![0, 0]));
    write_image(&mut img, 2, &[1, 100]);
    assert_eq!(read_image(&img, 2), Ok(vec![1, 100]));
    for i in 0..5u64 {
        write_image(&mut img, 2, &[i, i * 100]);
        assert_eq!(read_image(&img, 2), Ok(vec![i, i * 100]));
    }
    assert_eq!(check_image(&img, 2, FP), Ok(()));
    assert_eq!(read_image(&img, 2), Ok(vec![4, 400]));
}

#[test]
fn writes_alternate_copies() {
    let mut img = fresh();
    write_image(&mut img, 2, &[5, 6]);
    // a tie goes to copy A, so the first write goes to copy B
    assert_eq!(&img[0..5], &[FP, 0, 0, 1, 0]);
    assert_eq!(copy_words(&img, 2, true), vec![5, 6]);
    assert_eq!(img[7], 2);
    let before_b = img[5..9].to_vec();
    write_image(&mut img, 2, &[7, 8]);
    assert_eq!(&img[5..9], &before_b[..]);
    assert_eq!(copy_words(&img, 2, false), vec![7, 8]);
    // copy A's own version is incremented; the tie now reads copy A
    assert_eq!(img[3], 2);
    assert_eq!(read_image(&img, 2), Ok(vec![7, 8]));
    write_image(&mut img, 2, &[9, 10]);
    assert_eq!(copy_words(&img, 2, true), vec![9, 10]);
    assert_eq!(copy_words(&img, 2, false), vec![7, 8]);
    assert_eq!(img[7], 3);
    assert_eq!(read_image(&img, 2), Ok(vec![9, 10]));
}

#[test]
fn plan_orders_checksum_last() {
    let img = fresh();
    let plan = write_plan(&img, 2, &[1, 100]);
    assert_eq!(plan, vec![(5, 1), (6, 100), (7, 2), (8, 0xc411_2138)]);
}

#[test]
fn torn_write_reads_previous_value() {
    let mut img = fresh();
    write_image(&mut img, 2, &[1, 100]);
    let plan = write_plan(&img, 2, &[2, 200]);
    // record words and version stored, checksum not yet
    let mut torn = img.clone();
    apply_plan(&mut torn, &plan[..3]);
    assert_eq!(read_image(&torn, 2), Ok(vec![1, 100]));
    // only part of the record stored
    let mut part = img.clone();
    apply_plan(&mut part, &plan[..1]);
    assert_eq!(read_image(&part, 2), Ok(vec![1, 100]));
    let mut whole = img.clone();
    apply_plan(&mut whole, &plan);
    assert_eq!(read_image(&whole, 2), Ok(vec![2, 200]));
}

#[test]
fn single_corrupt_copy_is_skipped() {
    let mut img = fresh();
    write_image(&mut img, 2, &[1, 100]);
    write_image(&mut img, 2, &[2, 200]);
    // copy A holds the newest value; spoil one of its bytes
    assert_eq!(copy_words(&img, 2, false), vec![2, 200]);
    img[1] ^= 0x10;
    assert!(!is_copy_valid(&img, 2, false));
    assert!(is_copy_valid(&img, 2, true));
    assert_eq!(read_image(&img, 2), Ok(vec![1, 100]));
    assert_eq!(check_image(&img, 2, FP), Ok(()));
}

#[test]
fn older_copy_valid_wins_over_corrupt_newer() {
    let mut img = fresh();
    write_image(&mut img, 2, &[1, 100]);
    img[8] ^= 1;
    assert_eq!(read_image(&img, 2), Ok(vec![0, 0]));
}

#[test]
fn both_copies_corrupt_is_fatal() {
    let mut img = fresh();
    write_image(&mut img, 2, &[1, 100]);
    img[2] ^= 1;
    img[6] ^= 1;
    assert_eq!(read_image(&img, 2), Err(RtaError::CorruptionFatal));
    assert_eq!(check_image(&img, 2, FP), Err(RtaError::CorruptionFatal));
}

#[test]
fn fingerprint_mismatch_is_refused() {
    let img = fresh();
    assert_eq!(check_image(&img, 2, FP ^ 1), Err(RtaError::SchemaMismatch));
    let mut bad = fresh();
    bad[2] ^= 1;
    bad[6] ^= 1;
    assert_eq!(check_image(&bad, 2, 0), Err(RtaError::SchemaMismatch));
}

#[test]
fn versions_compare_across_wrap() {
    let mut img = fresh();
    img[3] = u64::MAX;
    img[7] = u64::MAX;
    write_image(&mut img, 2, &[3, 4]);
    // the tie sends the write to B, whose version wraps to zero and is newer
    assert_eq!(img[7], 0);
    assert_eq!(read_image(&img, 2), Ok(vec![3, 4]));
    write_image(&mut img, 2, &[5, 6]);
    assert_eq!(img[3], 0);
    assert_eq!(read_image(&img, 2), Ok(vec![5, 6]));
    write_image(&mut img, 2, &[7, 8]);
    assert_eq!(img[7], 1);
    assert_eq!(read_image(&img, 2), Ok(vec![7, 8]));
}

#[test]
fn mapping_errors_are_classified() {
    assert_eq!(error_kind(0x10, 0x1E), RtaError::PathConflict);
    assert_eq!(error_kind(0x10, 0x20), RtaError::PathInvalidKind);
    assert_eq!(error_kind(0x10, 0x1C), RtaError::PathInvalidKind);
    assert_eq!(error_kind(0x10, 0x08), RtaError::StoreIo);
    // the file layer's "exclusive lock held" shares a reason code with a bad path
    assert_eq!(error_kind(0x08, 0x1C), RtaError::StoreIo);
    assert_eq!(error_kind(0x08, 0x1E), RtaError::StoreIo);
}

#[test]
fn zero_word_record() {
    let mut img = initial_image(FP, &[]);
    assert_eq!(img.len(), 5);
    assert_eq!(read_image(&img, 0), Ok(vec![]));
    write_image(&mut img, 0, &[]);
    assert_eq!(read_image(&img, 0), Ok(vec![]));
}
