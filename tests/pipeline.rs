use dna_ingestion::cursor::Cursor;
use dna_ingestion::downloader::{BlockEvent, ChainChange, DownloadError, Downloader};
use dna_ingestion::segment::SegmentOptions;
use dna_ingestion::segmenter::{SealedSegment, Segmenter, SegmenterError};
use dna_ingestion::snapshot::{IngestionState, Snapshot, SnapshotChange};

fn cursor(n: u64) -> Cursor {
    Cursor::new(n, vec![n as u8, 0xab])
}

fn options(segment_size: u64, group_size: u64) -> SegmentOptions {
    SegmentOptions { segment_size, group_size }
}

/// Runs downloader decisions against a segmenter, completing every download at once.
struct Pipeline {
    downloader: Downloader,
    segmenter: Segmenter,
    ingested: Vec<u64>,
    seals: Vec<SealedSegment>,
    pending_fetch: Option<u64>,
}

impl Pipeline {
    fn start(first: u64, head: u64, finalized: u64, opts: SegmentOptions) -> Pipeline {
        let change = ChainChange::Initialize { head: cursor(head), finalized: cursor(finalized) };
        let (downloader, step) = Downloader::initialize(first, change).unwrap();
        let event = step.event.unwrap();
        assert!(matches!(&event, BlockEvent::Started { finalized: f } if f.number == finalized));
        let (segmenter, change) = Segmenter::start(Snapshot::new(opts, first), event).unwrap();
        assert!(matches!(change, SnapshotChange::Started(s) if s.revision == 0));
        let mut p = Pipeline {
            downloader,
            segmenter,
            ingested: Vec::new(),
            seals: Vec::new(),
            pending_fetch: step.fetch,
        };
        p.run_downloads();
        p
    }

    fn forward(&mut self, event: Option<BlockEvent>) {
        if let Some(event) = event {
            if let BlockEvent::Ingested(c) = &event {
                self.ingested.push(c.number);
            }
            let step = self.segmenter.handle_event(event).unwrap();
            self.seals.extend(step.seals);
        }
    }

    fn run_downloads(&mut self) {
        while let Some(n) = self.pending_fetch.take() {
            let step = self.downloader.on_block_downloaded(cursor(n)).unwrap();
            self.pending_fetch = step.fetch;
            self.forward(step.event);
        }
    }

    fn change(&mut self, change: ChainChange) {
        let step = self.downloader.on_chain_change(change).unwrap();
        if step.fetch.is_some() {
            self.pending_fetch = step.fetch;
        }
        self.forward(step.event);
        self.run_downloads();
    }
}

#[test]
fn new_head_seals_two_segments() {
    let mut p = Pipeline::start(0, 10, 10, options(4, 16));
    p.change(ChainChange::NewHead(cursor(12)));
    assert_eq!(p.ingested, (0..=12).collect::<Vec<u64>>());
    let starts: Vec<u64> = p.seals.iter().map(|s| s.segment_start).collect();
    assert_eq!(starts, vec![0, 4]);
    assert_eq!(p.seals[0].snapshot.revision, 1);
    assert_eq!(p.seals[1].snapshot.revision, 2);
    let snapshot = p.segmenter.snapshot();
    assert_eq!(snapshot.revision, 2);
    assert_eq!(snapshot.ingestion, IngestionState { group_count: 0, extra_segment_count: 2 });
    assert_eq!(p.segmenter.buffered_len(), 5);
}

#[test]
fn finalized_advance_after_tip_segment() {
    let mut p = Pipeline::start(0, 4, 4, options(4, 16));
    assert_eq!(p.ingested, vec![0, 1, 2, 3, 4]);
    // Block 3 is below the finalized segment's start, so 0..=3 is sealed on its arrival.
    assert_eq!(p.seals.len(), 1);
    assert_eq!(p.segmenter.snapshot().revision, 1);
    p.change(ChainChange::NewFinalized(cursor(7)));
    assert_eq!(p.segmenter.finalized().number, 7);
    assert_eq!(p.seals.len(), 1);
    assert_eq!(p.seals[0].segment_start, 0);
    let numbers: Vec<u64> = p.seals[0].cursors.iter().map(|c| c.number).collect();
    assert_eq!(numbers, vec![0, 1, 2, 3]);
    assert_eq!(p.segmenter.snapshot().revision, 1);
    assert_eq!(p.segmenter.buffered_len(), 1);
}

#[test]
fn initialize_with_finalized_above_head() {
    let change = ChainChange::Initialize { head: cursor(3), finalized: cursor(5) };
    let (d, step) = Downloader::initialize(0, change).unwrap();
    assert!(matches!(step.event, Some(BlockEvent::Started { finalized }) if finalized.number == 5));
    assert_eq!(step.fetch, Some(0));
    assert_eq!(d.next_block(), 0);
}

#[test]
fn initialize_finalized_behind_start_fails() {
    let change = ChainChange::Initialize { head: cursor(9), finalized: cursor(5) };
    assert_eq!(Downloader::initialize(6, change).err(), Some(DownloadError::FinalizedBehindStart));
}

#[test]
fn initialize_requires_initialize_first() {
    let r = Downloader::initialize(0, ChainChange::NewHead(cursor(3)));
    assert_eq!(r.err(), Some(DownloadError::ExpectedInitialize));
    let r = Downloader::initialize(0, ChainChange::Invalidate);
    assert_eq!(r.err(), Some(DownloadError::ExpectedInitialize));
}

#[test]
fn second_initialize_is_fatal() {
    let change = ChainChange::Initialize { head: cursor(3), finalized: cursor(3) };
    let (mut d, _) = Downloader::initialize(0, change.clone()).unwrap();
    assert_eq!(d.on_chain_change(change).err(), Some(DownloadError::UnexpectedInitialize));
}

#[test]
fn start_at_head_downloads_the_head() {
    let change = ChainChange::Initialize { head: cursor(5), finalized: cursor(5) };
    let (mut d, step) = Downloader::initialize(5, change).unwrap();
    assert_eq!(step.fetch, Some(5));
    let step = d.on_block_downloaded(cursor(5)).unwrap();
    assert!(matches!(step.event, Some(BlockEvent::Ingested(c)) if c.number == 5));
    assert_eq!(step.fetch, None);
    assert!(!d.is_downloading());
    let step = d.on_chain_change(ChainChange::NewHead(cursor(6))).unwrap();
    assert_eq!(step.fetch, Some(6));
    assert!(step.event.is_none());
}

#[test]
fn start_above_head_waits() {
    let change = ChainChange::Initialize { head: cursor(3), finalized: cursor(9) };
    let (mut d, step) = Downloader::initialize(5, change).unwrap();
    assert_eq!(step.fetch, None);
    let step = d.on_chain_change(ChainChange::NewHead(cursor(4))).unwrap();
    assert_eq!(step.fetch, None);
    let step = d.on_chain_change(ChainChange::NewHead(cursor(5))).unwrap();
    assert_eq!(step.fetch, Some(5));
}

#[test]
fn download_errors() {
    let change = ChainChange::Initialize { head: cursor(2), finalized: cursor(2) };
    let (mut d, _) = Downloader::initialize(0, change).unwrap();
    assert_eq!(d.on_block_downloaded(cursor(1)).err(), Some(DownloadError::UnexpectedBlock));
    assert_eq!(d.next_block(), 0);
    d.on_block_downloaded(cursor(0)).unwrap();
    d.on_block_downloaded(cursor(1)).unwrap();
    d.on_block_downloaded(cursor(2)).unwrap();
    assert_eq!(d.on_block_downloaded(cursor(3)).err(), Some(DownloadError::NotDownloading));
}

#[test]
fn download_at_last_block_number() {
    let change = ChainChange::Initialize { head: cursor(u64::MAX), finalized: cursor(u64::MAX) };
    let (mut d, step) = Downloader::initialize(u64::MAX, change).unwrap();
    assert_eq!(step.fetch, Some(u64::MAX));
    assert_eq!(
        d.on_block_downloaded(cursor(u64::MAX)).err(),
        Some(DownloadError::BlockNumberOverflow)
    );
}

#[test]
fn finalized_and_invalidate_are_forwarded() {
    let change = ChainChange::Initialize { head: cursor(0), finalized: cursor(0) };
    let (mut d, _) = Downloader::initialize(0, change).unwrap();
    let step = d.on_chain_change(ChainChange::NewFinalized(cursor(1))).unwrap();
    assert!(matches!(step.event, Some(BlockEvent::Finalized(c)) if c.number == 1));
    let step = d.on_chain_change(ChainChange::Invalidate).unwrap();
    assert!(matches!(step.event, Some(BlockEvent::Invalidate)));
    assert_eq!(step.fetch, None);
}

#[test]
fn ingested_beyond_finalized_is_buffered_until_finalized() {
    let opts = options(4, 16);
    let started = BlockEvent::Started { finalized: cursor(2) };
    let (mut s, _) = Segmenter::start(Snapshot::new(opts, 0), started).unwrap();
    for n in 0..=5 {
        let step = s.handle_event(BlockEvent::Ingested(cursor(n))).unwrap();
        assert_eq!(step.ingested.map(|c| c.number), Some(n));
        assert!(step.seals.is_empty());
    }
    assert_eq!(s.buffered_len(), 6);
    assert_eq!(s.snapshot().revision, 0);
    let step = s.handle_event(BlockEvent::Finalized(cursor(5))).unwrap();
    assert!(step.ingested.is_none());
    assert_eq!(step.seals.len(), 1);
    assert_eq!(step.seals[0].segment_start, 0);
    assert_eq!(step.seals[0].cursors.len(), 4);
    assert_eq!(step.seals[0].snapshot.revision, 1);
    assert_eq!(s.snapshot().revision, 1);
    assert_eq!(s.buffered_len(), 2);
}

#[test]
fn group_closes_after_its_last_segment() {
    let opts = options(4, 8);
    let started = BlockEvent::Started { finalized: cursor(100) };
    let (mut s, _) = Segmenter::start(Snapshot::new(opts, 0), started).unwrap();
    let mut seals = Vec::new();
    for n in 0..=9 {
        let step = s.handle_event(BlockEvent::Ingested(cursor(n))).unwrap();
        seals.extend(step.seals);
    }
    assert_eq!(seals.len(), 2);
    assert_eq!(seals[0].group_start, None);
    assert_eq!(seals[0].snapshot.ingestion, IngestionState { group_count: 0, extra_segment_count: 1 });
    assert_eq!(seals[1].group_start, Some(0));
    assert_eq!(seals[1].snapshot.ingestion, IngestionState { group_count: 1, extra_segment_count: 0 });
    assert_eq!(seals[1].snapshot.revision, 2);
    assert_eq!(s.buffered_len(), 2);
}

#[test]
fn finalized_jump_seals_across_a_group() {
    let opts = options(4, 8);
    let started = BlockEvent::Started { finalized: cursor(0) };
    let (mut s, _) = Segmenter::start(Snapshot::new(opts, 0), started).unwrap();
    for n in 0..=10 {
        s.handle_event(BlockEvent::Ingested(cursor(n))).unwrap();
    }
    let step = s.handle_event(BlockEvent::Finalized(cursor(20))).unwrap();
    let starts: Vec<u64> = step.seals.iter().map(|x| x.segment_start).collect();
    assert_eq!(starts, vec![0, 4]);
    // The buffer keeps the blocks past the closed group.
    assert_eq!(s.buffered_len(), 3);
    assert_eq!(s.snapshot().ingestion, IngestionState { group_count: 1, extra_segment_count: 0 });
    s.handle_event(BlockEvent::Ingested(cursor(11))).unwrap();
    assert_eq!(s.snapshot().ingestion, IngestionState { group_count: 1, extra_segment_count: 1 });
    assert_eq!(s.buffered_len(), 0);
}

#[test]
fn segmenter_event_errors() {
    let opts = options(4, 16);
    let r = Segmenter::start(Snapshot::new(opts, 0), BlockEvent::Ingested(cursor(0)));
    assert_eq!(r.err().map(|e| e), Some(SegmenterError::ExpectedStarted));
    let started = BlockEvent::Started { finalized: cursor(2) };
    let (mut s, _) = Segmenter::start(Snapshot::new(opts, 0), started.clone()).unwrap();
    assert_eq!(s.handle_event(started).err(), Some(SegmenterError::UnexpectedEvent));
    assert_eq!(
        s.handle_event(BlockEvent::Invalidate).err(),
        Some(SegmenterError::InvalidateUnsupported)
    );
}

#[test]
fn unaligned_segment_is_refused() {
    let opts = options(4, 16);
    let started = BlockEvent::Started { finalized: cursor(100) };
    let (mut s, _) = Segmenter::start(Snapshot::new(opts, 2), started).unwrap();
    let mut result = Ok(());
    for n in 2..=5 {
        if let Err(e) = s.handle_event(BlockEvent::Ingested(cursor(n))) {
            result = Err(e);
        }
    }
    assert_eq!(result, Err(SegmenterError::SegmentSizeMismatch));
}

#[test]
fn snapshots_advance_one_revision_per_seal() {
    let opts = options(2, 4);
    let started = BlockEvent::Started { finalized: cursor(1000) };
    let (mut s, _) = Segmenter::start(Snapshot::new(opts, 0), started).unwrap();
    let mut prev = s.snapshot();
    for n in 0..40 {
        let step = s.handle_event(BlockEvent::Ingested(cursor(n))).unwrap();
        for seal in step.seals {
            let next = seal.snapshot;
            assert_eq!(next.revision, prev.revision + 1);
            let more_segments = next.ingestion.group_count == prev.ingestion.group_count
                && next.ingestion.extra_segment_count == prev.ingestion.extra_segment_count + 1;
            let more_groups = next.ingestion.group_count == prev.ingestion.group_count + 1
                && next.ingestion.extra_segment_count == 0;
            assert!(more_segments != more_groups);
            prev = next;
        }
    }
    assert_eq!(s.snapshot(), prev);
    assert_eq!(prev.ingestion.group_count * 4 + prev.ingestion.extra_segment_count * 2, 40);
}

#[test]
fn sealed_and_buffered_cursors_cover_all_ingested() {
    let opts = options(4, 8);
    let started = BlockEvent::Started { finalized: cursor(6) };
    let (mut s, _) = Segmenter::start(Snapshot::new(opts, 0), started).unwrap();
    let mut sealed: Vec<u64> = Vec::new();
    for n in 0..=13 {
        let step = s.handle_event(BlockEvent::Ingested(cursor(n))).unwrap();
        for seal in step.seals {
            sealed.extend(seal.cursors.iter().map(|c| c.number));
        }
    }
    assert_eq!(sealed, vec![0, 1, 2, 3]);
    assert_eq!(sealed.len() + s.buffered_len(), 14);
}

#[test]
fn typical_sizes_seal_full_segments() {
    let opts = options(100, 10_000);
    let started = BlockEvent::Started { finalized: cursor(1_000) };
    let (mut s, _) = Segmenter::start(Snapshot::new(opts, 0), started).unwrap();
    let mut seals = Vec::new();
    for n in 0..=250 {
        seals.extend(s.handle_event(BlockEvent::Ingested(cursor(n))).unwrap().seals);
    }
    let starts: Vec<u64> = seals.iter().map(|x| x.segment_start).collect();
    assert_eq!(starts, vec![0, 100]);
    assert!(seals.iter().all(|x| x.cursors.len() == 100 && x.group_start.is_none()));
    assert_eq!(s.buffered_len(), 51);
}
