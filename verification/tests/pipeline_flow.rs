use voicepipe::pipeline::{DriverAction, Pipeline, Status};

fn feed_one_segment(p: &mut Pipeline) -> u64 {
    // Five one-second batches reach a 5000 ms threshold.
    for _ in 0..4 {
        assert_eq!(p.on_batch(48000, 1000), None);
    }
    p.on_batch(48000, 1000).expect("segment must finalize at the threshold")
}

#[test]
fn full_run_then_graceful_termination() {
    let mut p = Pipeline::new(5000);
    assert_eq!(p.storage, vec![0]);

    // First segment: finalized, dispatched, translated, spoken, deleted.
    let id0 = feed_one_segment(&mut p);
    assert_eq!(id0, 0);
    assert_eq!(p.storage, vec![0, 1]);
    assert_eq!(p.next_segment(), Some(0));
    // In flight: its storage still exists until translation returns.
    assert!(p.storage.contains(&0));
    match p.on_translate_response("{\"text\": \"hola\"}") {
        DriverAction::Speak { text, delete } => {
            assert_eq!(text, b"hola".to_vec());
            assert_eq!(delete, 0);
        }
        _ => panic!("expected a speak action"),
    }
    // Deleted only now, after its translate call returned successfully.
    assert!(!p.storage.contains(&0));
    assert_eq!(p.status, Status::Running);
    assert_eq!(p.exit_code(), None);

    // Second segment terminates the run.
    let id1 = feed_one_segment(&mut p);
    assert_eq!(id1, 1);
    assert_eq!(p.next_segment(), Some(1));
    match p.on_translate_response("{\"text\": \"please finish now\"}") {
        DriverAction::Purge => {}
        _ => panic!("expected a purge action"),
    }
    assert_eq!(p.status, Status::Terminated);
    // All segment storage removed, nothing further dispatched, exit zero.
    assert!(p.storage.is_empty());
    assert_eq!(p.next_segment(), None);
    assert_eq!(p.on_batch(48000, 1000), None);
    assert_eq!(p.exit_code(), Some(0));
}

#[test]
fn records_arrive_in_finalization_order() {
    let mut p = Pipeline::new(10);
    let mut finalized: Vec<u64> = Vec::new();
    for _ in 0..30 {
        if let Some(id) = p.on_batch(100, 5) {
            finalized.push(id);
        }
    }
    let mut received: Vec<u64> = Vec::new();
    loop {
        match p.next_segment() {
            Some(id) => {
                received.push(id);
                match p.on_translate_response("{\"text\": \"hola\"}") {
                    DriverAction::Speak { .. } => {}
                    _ => panic!("expected a speak action"),
                }
            }
            None => break,
        }
    }
    assert_eq!(received, finalized);
    assert_eq!(received, vec![0, 1, 2, 3, 4, 5, 6, 7, 8, 9, 10, 11, 12, 13, 14]);
}

#[test]
fn speaking_does_not_block_the_next_record() {
    // The speak action is detached: right after it the driver can dequeue
    // the next handoff record.
    let mut p = Pipeline::new(10);
    assert_eq!(p.on_batch(1, 10), Some(0));
    assert_eq!(p.on_batch(1, 10), Some(1));
    assert_eq!(p.next_segment(), Some(0));
    match p.on_translate_response("{\"text\": \"hola\"}") {
        DriverAction::Speak { text, delete } => {
            assert_eq!(text, b"hola".to_vec());
            assert_eq!(delete, 0);
        }
        _ => panic!("expected a speak action"),
    }
    assert_eq!(p.next_segment(), Some(1));
}

#[test]
fn malformed_response_halts_with_nonzero_exit() {
    let mut p = Pipeline::new(10);
    assert_eq!(p.on_batch(1, 10), Some(0));
    assert_eq!(p.next_segment(), Some(0));
    let storage_before = p.storage.clone();
    match p.on_translate_response("no json here") {
        DriverAction::Halt => {}
        _ => panic!("expected a halt action"),
    }
    assert_eq!(p.status, Status::Failed);
    // The halt is not a purge: storage is left as it was.
    assert_eq!(p.storage, storage_before);
    assert_eq!(p.next_segment(), None);
    assert_ne!(p.exit_code(), Some(0));
    assert_ne!(p.exit_code(), None);
}

#[test]
fn no_dispatch_while_nothing_is_finalized() {
    let mut p = Pipeline::new(5000);
    assert_eq!(p.next_segment(), None);
    p.on_batch(100, 100);
    assert_eq!(p.next_segment(), None);
}
