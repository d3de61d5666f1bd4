use dna_ingestion::cursor::Cursor;
use dna_ingestion::downloader::ChainChange;
use dna_ingestion::tracker::{backoff_delay, ChainTracker, Observation, TrackerError};

fn c(n: u64, h: u8) -> Cursor {
    Cursor::new(n, vec![h])
}

fn obs(head: Cursor, finalized: Cursor, previous_head_now: Option<Cursor>) -> Observation {
    Observation { head, finalized, previous_head_now }
}

#[test]
fn first_observation_initializes() {
    let mut t = ChainTracker::new();
    let changes = t.observe(obs(c(10, 1), c(8, 1), None)).unwrap();
    assert_eq!(changes.len(), 1);
    assert!(matches!(&changes[0], ChainChange::Initialize { head, finalized }
        if head.number == 10 && finalized.number == 8));
}

#[test]
fn head_and_finality_changes() {
    let mut t = ChainTracker::new();
    t.observe(obs(c(10, 1), c(8, 1), None)).unwrap();
    assert!(t.observe(obs(c(10, 1), c(8, 1), Some(c(10, 1)))).unwrap().is_empty());
    let changes = t.observe(obs(c(11, 1), c(9, 1), Some(c(10, 1)))).unwrap();
    assert_eq!(changes.len(), 2);
    assert!(matches!(&changes[0], ChainChange::NewHead(h) if h.number == 11));
    assert!(matches!(&changes[1], ChainChange::NewFinalized(f) if f.number == 9));
}

#[test]
fn reorg_of_previous_head_invalidates() {
    let mut t = ChainTracker::new();
    t.observe(obs(c(10, 1), c(8, 1), None)).unwrap();
    let changes = t.observe(obs(c(10, 2), c(8, 1), Some(c(10, 2)))).unwrap();
    assert_eq!(changes.len(), 2);
    assert!(matches!(changes[0], ChainChange::Invalidate));
    assert!(matches!(&changes[1], ChainChange::NewHead(h) if h.hash == vec![2]));
}

#[test]
fn finalized_moving_backward_is_fatal() {
    let mut t = ChainTracker::new();
    t.observe(obs(c(10, 1), c(8, 1), None)).unwrap();
    assert_eq!(
        t.observe(obs(c(11, 1), c(7, 1), None)).err(),
        Some(TrackerError::FinalizedMovedBackward)
    );
    // Nothing changed: the same head is not reported again.
    assert!(t.observe(obs(c(10, 1), c(8, 1), None)).unwrap().is_empty());
}

#[test]
fn backoff_doubles_up_to_the_cap() {
    assert_eq!(backoff_delay(0, 100, 5_000), 100);
    assert_eq!(backoff_delay(1, 100, 5_000), 200);
    assert_eq!(backoff_delay(3, 100, 5_000), 800);
    assert_eq!(backoff_delay(6, 100, 5_000), 5_000);
    assert_eq!(backoff_delay(40, 100, 5_000), 5_000);
    assert_eq!(backoff_delay(0, 9_000, 5_000), 5_000);
    assert_eq!(backoff_delay(70, 1, u64::MAX), u64::MAX);
}
