use voicepipe::pipeline::{Pipeline, Status};
use voicepipe::segmenter::{segment_file_name, u64_to_decimal, Segmenter};

#[test]
fn twelve_seconds_at_five_second_threshold() {
    // 12 seconds of constant-amplitude samples in 100 ms batches at a
    // 5-second threshold: two finalized segments and one still-open partial.
    let mut p = Pipeline::new(5000);
    let mut finalized: Vec<u64> = Vec::new();
    for _ in 0..120 {
        if let Some(id) = p.on_batch(4800, 100) {
            finalized.push(id);
        }
    }
    assert_eq!(finalized, vec![0, 1]);
    assert_eq!(p.seg.open_id, 2);
    assert_eq!(p.seg.open_elapsed_ms, 2000);
    assert_eq!(p.seg.open_samples, 4800 * 20);
    assert_eq!(p.status, Status::Running);
}

#[test]
fn identifiers_strictly_increasing_no_gaps() {
    let mut s = Segmenter::new(10);
    let mut finalized: Vec<u64> = Vec::new();
    for _ in 0..35 {
        if let Some(id) = s.on_batch(1, 3) {
            finalized.push(id);
        }
    }
    // 35 batches of 3 ms at a 10 ms threshold: finalize every 4th batch.
    assert_eq!(finalized, vec![0, 1, 2, 3, 4, 5, 6, 7]);
    assert_eq!(s.open_id, 8);
}

#[test]
fn batch_exactly_at_threshold_finalizes() {
    let mut s = Segmenter::new(5000);
    assert_eq!(s.on_batch(100, 5000), Some(0));
    assert_eq!(s.open_id, 1);
    assert_eq!(s.open_elapsed_ms, 0);
    assert_eq!(s.open_samples, 0);
}

#[test]
fn batch_below_threshold_keeps_segment_open() {
    let mut s = Segmenter::new(5000);
    assert_eq!(s.on_batch(100, 4999), None);
    assert_eq!(s.open_id, 0);
    assert_eq!(s.open_elapsed_ms, 4999);
    assert_eq!(s.open_samples, 100);
}

#[test]
fn one_segment_open_at_any_instant() {
    // The open segment is always the one after the finalized ones, and its
    // storage exists while the pipeline runs.
    let mut p = Pipeline::new(50);
    for _ in 0..10 {
        p.on_batch(10, 20);
        assert!(p.storage.contains(&p.seg.open_id));
        assert!(!p.storage.is_empty());
    }
    assert_eq!(p.seg.open_id, 3);
}

#[test]
fn storage_names_carry_the_identifier_in_decimal() {
    assert_eq!(segment_file_name(0), b"output0.wav".to_vec());
    assert_eq!(segment_file_name(12), b"output12.wav".to_vec());
    assert_eq!(segment_file_name(u64::MAX), b"output18446744073709551615.wav".to_vec());
    assert_eq!(u64_to_decimal(0), b"0".to_vec());
    assert_eq!(u64_to_decimal(90210), b"90210".to_vec());
}

#[test]
fn empty_batches_still_accumulate_time() {
    let mut s = Segmenter::new(100);
    assert_eq!(s.on_batch(0, 60), None);
    assert_eq!(s.on_batch(0, 60), Some(0));
    assert_eq!(s.open_samples, 0);
}
