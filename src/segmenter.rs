use vstd::prelude::*;

use crate::cursor::Cursor;
use crate::downloader::BlockEvent;
use crate::snapshot::{advances, IngestionState, Snapshot, SnapshotChange};

verus! {

/// The cursors buffered for the segment in progress, and the cursor that opened its group.
pub ghost struct SegmentModel {
    pub group_start: (u64, Seq<u8>),
    pub cursors: Seq<(u64, Seq<u8>)>,
}

/// The segmenter's state: the snapshot to publish next, the finalized cursor and the buffer.
pub ghost struct SegmenterModel {
    pub snapshot: Snapshot,
    pub finalized: (u64, Seq<u8>),
    pub segment: Option<SegmentModel>,
}

/// One sealed segment: where it is written, the blocks it holds, the group it closes (if
/// any) and the snapshot to publish once both are durable.
pub ghost struct SealModel {
    pub segment_start: u64,
    pub cursors: Seq<(u64, Seq<u8>)>,
    pub group_start: Option<u64>,
    pub snapshot: Snapshot,
}

/// Why the segmenter stops.
#[derive(Clone, Copy, Debug, PartialEq, Eq, Structural)]
pub enum SegmenterError {
    /// The first event was not `Started`.
    ExpectedStarted,
    /// A second `Started` arrived.
    UnexpectedEvent,
    /// An invalidation arrived; finalized data cannot be reorganized.
    InvalidateUnsupported,
    /// The blocks to seal do not fill exactly one segment.
    SegmentSizeMismatch,
    /// The block number space is exhausted.
    BlockNumberOverflow,
    /// A snapshot counter is exhausted.
    CounterOverflow,
}

/// Cursors of `cs` whose number is below `bound`, in order.
pub open spec fn below(cs: Seq<(u64, Seq<u8>)>, bound: u64) -> Seq<(u64, Seq<u8>)>
    decreases cs.len(),
{
    if cs.len() == 0 {
        Seq::empty()
    } else {
        let rest = below(cs.drop_last(), bound);
        if cs.last().0 < bound {
            rest.push(cs.last())
        } else {
            rest
        }
    }
}

/// Cursors of `cs` whose number is at or above `bound`, in order.
pub open spec fn at_or_above(cs: Seq<(u64, Seq<u8>)>, bound: u64) -> Seq<(u64, Seq<u8>)>
    decreases cs.len(),
{
    if cs.len() == 0 {
        Seq::empty()
    } else {
        let rest = at_or_above(cs.drop_last(), bound);
        if cs.last().0 >= bound {
            rest.push(cs.last())
        } else {
            rest
        }
    }
}

pub open spec fn cursor_views(cs: Seq<Cursor>) -> Seq<(u64, Seq<u8>)> {
    cs.map_values(|c: Cursor| c@)
}

/// Number of cursors buffered.
pub open spec fn buffered(m: SegmenterModel) -> nat {
    match m.segment {
        Some(s) => s.cursors.len(),
        None => 0,
    }
}

/// A segment can be sealed: a full segment's worth of cursors is buffered and the last of
/// them is finalized.
pub open spec fn seal_ready(m: SegmenterModel) -> bool {
    let n = m.snapshot.segment_options.segment_size;
    match m.segment {
        Some(s) => n > 0 && s.cursors.len() >= n && s.cursors[n - 1].0 <= m.finalized.0,
        None => false,
    }
}

/// Seals the first segment of the buffer.
pub open spec fn seal_once(m: SegmenterModel) -> Result<(SegmenterModel, SealModel), SegmenterError> {
    let opts = m.snapshot.segment_options;
    let n = opts.segment_size;
    let s = m.segment->Some_0;
    let cs = s.cursors;
    let last = cs[n - 1];
    if last.0 == u64::MAX {
        Err(SegmenterError::BlockNumberOverflow)
    } else {
        let next_segment_start = opts.spec_segment_start((last.0 + 1) as u64);
        let to_segment = below(cs, next_segment_start);
        let keep = at_or_above(cs, next_segment_start);
        if to_segment.len() != n {
            Err(SegmenterError::SegmentSizeMismatch)
        } else if m.snapshot.revision == u64::MAX || m.snapshot.ingestion.extra_segment_count
            == u64::MAX {
            Err(SegmenterError::CounterOverflow)
        } else {
            let current_group_start = opts.spec_group_start(s.group_start.0);
            let next_group_start = opts.spec_group_start((to_segment.last().0 + 1) as u64);
            let segment_start = opts.spec_segment_start(cs[0].0);
            let snap = Snapshot {
                revision: (m.snapshot.revision + 1) as u64,
                ingestion: IngestionState {
                    group_count: m.snapshot.ingestion.group_count,
                    extra_segment_count: (m.snapshot.ingestion.extra_segment_count + 1) as u64,
                },
                ..m.snapshot
            };
            if current_group_start == next_group_start {
                Ok(
                    (
                        SegmenterModel {
                            snapshot: snap,
                            segment: Some(SegmentModel { group_start: s.group_start, cursors: keep }),
                            ..m
                        },
                        SealModel { segment_start, cursors: to_segment, group_start: None, snapshot: snap },
                    ),
                )
            } else if m.snapshot.ingestion.group_count == u64::MAX {
                Err(SegmenterError::CounterOverflow)
            } else {
                let snap2 = Snapshot {
                    ingestion: IngestionState {
                        group_count: (m.snapshot.ingestion.group_count + 1) as u64,
                        extra_segment_count: 0,
                    },
                    ..snap
                };
                let segment = if keep.len() == 0 {
                    None
                } else {
                    Some(SegmentModel { group_start: keep[0], cursors: keep })
                };
                Ok(
                    (
                        SegmenterModel { snapshot: snap2, segment, ..m },
                        SealModel {
                            segment_start,
                            cursors: to_segment,
                            group_start: Some(current_group_start),
                            snapshot: snap2,
                        },
                    ),
                )
            }
        }
    }
}

proof fn lemma_partition_len(cs: Seq<(u64, Seq<u8>)>, bound: u64)
    ensures
        below(cs, bound).len() + at_or_above(cs, bound).len() == cs.len(),
    decreases cs.len(),
{
    if cs.len() > 0 {
        lemma_partition_len(cs.drop_last(), bound);
    }
}

/// Sealing strictly shrinks the buffer.
proof fn lemma_seal_shrinks(m: SegmenterModel)
    requires
        seal_ready(m),
        seal_once(m) is Ok,
    ensures
        buffered(seal_once(m)->Ok_0.0) < buffered(m),
{
    let s = m.segment->Some_0;
    let n = m.snapshot.segment_options.segment_size;
    let next_segment_start = m.snapshot.segment_options.spec_segment_start((s.cursors[n - 1].0 + 1) as u64);
    lemma_partition_len(s.cursors, next_segment_start);
}

proof fn lemma_below_bound(cs: Seq<(u64, Seq<u8>)>, bound: u64)
    ensures
        forall|i: int| 0 <= i < below(cs, bound).len() ==> below(cs, bound)[i].0 < bound,
    decreases cs.len(),
{
    if cs.len() > 0 {
        lemma_below_bound(cs.drop_last(), bound);
        let rest = below(cs.drop_last(), bound);
        assert forall|i: int| 0 <= i < below(cs, bound).len() implies below(cs, bound)[i].0
            < bound by {
            if i < rest.len() {
                assert(below(cs, bound)[i] == rest[i]);
            }
        }
    }
}

/// Seals segments while one can be sealed; returns the final state and the seals in order.
///
/// A seal always shrinks the buffer (`lemma_seal_shrinks`); the comparison below only makes
/// that visible to the termination check.
pub open spec fn seal_all(m: SegmenterModel) -> Result<(SegmenterModel, Seq<SealModel>), SegmenterError>
    decreases buffered(m),
{
    if !seal_ready(m) {
        Ok((m, Seq::empty()))
    } else {
        match seal_once(m) {
            Err(e) => Err(e),
            Ok((m1, seal)) => {
                if buffered(m1) < buffered(m) {
                    match seal_all(m1) {
                        Err(e) => Err(e),
                        Ok((m2, seals)) => Ok((m2, seq![seal] + seals)),
                    }
                } else {
                    Ok((m1, seq![seal]))
                }
            },
        }
    }
}

/// Cursors held in the buffer of `m`.
pub open spec fn buffer(m: SegmenterModel) -> Seq<(u64, Seq<u8>)> {
    match m.segment {
        Some(s) => s.cursors,
        None => Seq::empty(),
    }
}

/// Each snapshot in `seals` advances the one before it, the first advancing `start`.
pub open spec fn chain_advances(start: Snapshot, seals: Seq<SealModel>) -> bool {
    forall|i: int|
        0 <= i < seals.len() ==> advances(
            if i == 0 {
                start
            } else {
                seals[i - 1].snapshot
            },
            #[trigger] seals[i].snapshot,
        )
}

/// Snapshot in force after `seals` are published, starting from `start`.
pub open spec fn last_snapshot(start: Snapshot, seals: Seq<SealModel>) -> Snapshot {
    if seals.len() == 0 {
        start
    } else {
        seals.last().snapshot
    }
}

/// `x` is held by some seal of `seals`.
pub open spec fn sealed(seals: Seq<SealModel>, x: (u64, Seq<u8>)) -> bool {
    exists|i: int| 0 <= i < seals.len() && #[trigger] seals[i].cursors.contains(x)
}

proof fn lemma_push_contains(s: Seq<(u64, Seq<u8>)>, a: (u64, Seq<u8>), x: (u64, Seq<u8>))
    ensures
        s.push(a).contains(x) <==> (s.contains(x) || x == a),
{
    if s.push(a).contains(x) {
        let i = choose|i: int| 0 <= i < s.push(a).len() && s.push(a)[i] == x;
        if i < s.len() {
            assert(s[i] == x);
        }
    }
    if s.contains(x) {
        let i = choose|i: int| 0 <= i < s.len() && s[i] == x;
        assert(s.push(a)[i] == x);
    }
    if x == a {
        assert(s.push(a)[s.len() as int] == x);
    }
}

proof fn lemma_partition_contains(cs: Seq<(u64, Seq<u8>)>, bound: u64, x: (u64, Seq<u8>))
    ensures
        cs.contains(x) <==> (below(cs, bound).contains(x) || at_or_above(cs, bound).contains(x)),
    decreases cs.len(),
{
    if cs.len() > 0 {
        let p = cs.drop_last();
        lemma_partition_contains(p, bound, x);
        assert(cs =~= p.push(cs.last()));
        lemma_push_contains(p, cs.last(), x);
        lemma_push_contains(below(p, bound), cs.last(), x);
        lemma_push_contains(at_or_above(p, bound), cs.last(), x);
    }
}

proof fn lemma_seal_once_laws(m: SegmenterModel, x: (u64, Seq<u8>))
    requires
        seal_ready(m),
        seal_once(m) is Ok,
    ensures
        advances(m.snapshot, seal_once(m)->Ok_0.0.snapshot),
        seal_once(m)->Ok_0.1.snapshot == seal_once(m)->Ok_0.0.snapshot,
        seal_once(m)->Ok_0.0.finalized == m.finalized,
        buffer(m).contains(x) <==> (seal_once(m)->Ok_0.1.cursors.contains(x) || buffer(
            seal_once(m)->Ok_0.0,
        ).contains(x)),
{
    let s = m.segment->Some_0;
    let n = m.snapshot.segment_options.segment_size;
    let next_segment_start = m.snapshot.segment_options.spec_segment_start(
        (s.cursors[n - 1].0 + 1) as u64,
    );
    lemma_partition_contains(s.cursors, next_segment_start, x);
}

/// Sealing while ready publishes snapshots that each advance the previous one, keeps the
/// finalized cursor, and moves cursors out of the buffer only into seals.
pub proof fn lemma_seal_all_laws(m: SegmenterModel, x: (u64, Seq<u8>))
    requires
        seal_all(m) is Ok,
    ensures
        chain_advances(m.snapshot, seal_all(m)->Ok_0.1),
        seal_all(m)->Ok_0.0.snapshot == last_snapshot(m.snapshot, seal_all(m)->Ok_0.1),
        seal_all(m)->Ok_0.0.finalized == m.finalized,
        buffer(m).contains(x) <==> (sealed(seal_all(m)->Ok_0.1, x) || buffer(
            seal_all(m)->Ok_0.0,
        ).contains(x)),
    decreases buffered(m),
{
    if seal_ready(m) {
        let (m1, seal) = seal_once(m)->Ok_0;
        lemma_seal_once_laws(m, x);
        lemma_seal_shrinks(m);
        lemma_seal_all_laws(m1, x);
        let rest = seal_all(m1)->Ok_0.1;
        let seals = seq![seal] + rest;
        assert(seal_all(m)->Ok_0.1 == seals);
        assert forall|i: int| 0 <= i < seals.len() implies advances(
            if i == 0 {
                m.snapshot
            } else {
                seals[i - 1].snapshot
            },
            #[trigger] seals[i].snapshot,
        ) by {
            if i > 0 {
                assert(seals[i] == rest[i - 1]);
                if i > 1 {
                    assert(seals[i - 1] == rest[i - 2]);
                }
            }
        }
        if rest.len() > 0 {
            assert(seals.last() == rest.last());
        }
        if sealed(rest, x) {
            let j = choose|j: int| 0 <= j < rest.len() && #[trigger] rest[j].cursors.contains(x);
            assert(seals[j + 1] == rest[j]);
        }
        if sealed(seals, x) {
            let j = choose|j: int| 0 <= j < seals.len() && #[trigger] seals[j].cursors.contains(x);
            if j > 0 {
                assert(seals[j] == rest[j - 1]);
            }
        }
        if seal.cursors.contains(x) {
            assert(seals[0] == seal);
        }
    }
}

/// Over any event that the segmenter accepts: every snapshot it asks to publish has a
/// revision one above the previous one, and either counts one more segment past the groups
/// or one more group with no segment past it; the state ends on the last of them. A cursor
/// is buffered before the event, or ingested by it, exactly when it ends up in a seal or in
/// the new buffer: no staged block is lost and none appears from nowhere.
pub proof fn lemma_handle_laws(m: SegmenterModel, event: BlockEvent, x: (u64, Seq<u8>))
    requires
        handle(m, event) is Ok,
    ensures
        chain_advances(m.snapshot, handle(m, event)->Ok_0.2),
        handle(m, event)->Ok_0.0.snapshot == last_snapshot(m.snapshot, handle(m, event)->Ok_0.2),
        (buffer(m).contains(x) || (event is Ingested && x == event->Ingested_0@)) <==> (sealed(
            handle(m, event)->Ok_0.2,
            x,
        ) || buffer(handle(m, event)->Ok_0.0).contains(x)),
{
    match event {
        BlockEvent::Ingested(c) => {
            let m1 = with_ingested(m, c@);
            lemma_push_contains(buffer(m), c@, x);
            if m.segment is None {
                assert(buffer(m1) =~= buffer(m).push(c@));
            }
            if m.segment is None || c.number >= m.snapshot.segment_options.spec_segment_start(
                m.finalized.0,
            ) {
                assert(handle(m, event)->Ok_0.2.len() == 0);
            } else {
                lemma_seal_all_laws(m1, x);
            }
        },
        BlockEvent::Finalized(c) => {
            lemma_seal_all_laws(SegmenterModel { finalized: c@, ..m }, x);
        },
        _ => {},
    }
}

/// Cursors buffered for the segment in progress.
pub struct SegmentData {
    pub group_start: Cursor,
    pub cursors: Vec<Cursor>,
}

impl SegmentData {
    pub open spec fn model(&self) -> SegmentModel {
        SegmentModel { group_start: self.group_start@, cursors: cursor_views(self.cursors@) }
    }
}

/// A segment ready to be written, with the group it closes and the snapshot that follows.
///
/// The driver reads the staged block of each cursor, writes the segment, writes the group
/// when `group_start` is set, publishes `snapshot` once both are durable, and then deletes
/// the staged blocks of `cursors`.
pub struct SealedSegment {
    pub segment_start: u64,
    pub cursors: Vec<Cursor>,
    pub group_start: Option<u64>,
    pub snapshot: Snapshot,
}

impl SealedSegment {
    pub open spec fn model(&self) -> SealModel {
        SealModel {
            segment_start: self.segment_start,
            cursors: cursor_views(self.cursors@),
            group_start: self.group_start,
            snapshot: self.snapshot,
        }
    }
}

pub open spec fn seal_models(seals: Seq<SealedSegment>) -> Seq<SealModel> {
    seals.map_values(|s: SealedSegment| s.model())
}

/// What the driver does after an event: announce an ingested block, then carry out each
/// seal in order, announcing `StateChanged` after each snapshot is published.
pub struct SegmenterStep {
    pub ingested: Option<Cursor>,
    pub seals: Vec<SealedSegment>,
}

/// Decisions of the segmenter: which finalized blocks to seal into segments and groups, and
/// which snapshots to publish.
pub struct Segmenter {
    snapshot: Snapshot,
    finalized: Cursor,
    segment: Option<SegmentData>,
}

impl View for Segmenter {
    type V = SegmenterModel;

    closed spec fn view(&self) -> SegmenterModel {
        SegmenterModel {
            snapshot: self.snapshot,
            finalized: self.finalized@,
            segment: match self.segment {
                Some(s) => Some(s.model()),
                None => None,
            },
        }
    }
}

/// `next` is `m` after `c` is appended to the buffer, opening a segment if none is open.
pub open spec fn with_ingested(m: SegmenterModel, c: (u64, Seq<u8>)) -> SegmenterModel {
    match m.segment {
        None => SegmenterModel {
            segment: Some(SegmentModel { group_start: c, cursors: seq![c] }),
            ..m
        },
        Some(s) => SegmenterModel {
            segment: Some(SegmentModel { cursors: s.cursors.push(c), ..s }),
            ..m
        },
    }
}

/// The outcome of an event, as (new state, ingested block to announce, seals).
pub open spec fn handle(m: SegmenterModel, event: BlockEvent) -> Result<
    (SegmenterModel, Option<(u64, Seq<u8>)>, Seq<SealModel>),
    SegmenterError,
> {
    match event {
        BlockEvent::Ingested(c) => {
            let m1 = with_ingested(m, c@);
            if m.segment is None || c.number >= m.snapshot.segment_options.spec_segment_start(
                m.finalized.0,
            ) {
                Ok((m1, Some(c@), Seq::empty()))
            } else {
                match seal_all(m1) {
                    Ok((m2, seals)) => Ok((m2, None, seals)),
                    Err(e) => Err(e),
                }
            }
        },
        BlockEvent::Finalized(c) => {
            match seal_all(SegmenterModel { finalized: c@, ..m }) {
                Ok((m2, seals)) => Ok((m2, None, seals)),
                Err(e) => Err(e),
            }
        },
        BlockEvent::Started { .. } => Err(SegmenterError::UnexpectedEvent),
        BlockEvent::Invalidate => Err(SegmenterError::InvalidateUnsupported),
    }
}

pub open spec fn opt_view(o: Option<Cursor>) -> Option<(u64, Seq<u8>)> {
    match o {
        Some(c) => Some(c@),
        None => None,
    }
}

/// Splits `cs` at `bound`: the cursors below it, and the others, each in order.
fn partition(cs: &Vec<Cursor>, bound: u64) -> (r: (Vec<Cursor>, Vec<Cursor>))
    ensures
        cursor_views(r.0@) == below(cursor_views(cs@), bound),
        cursor_views(r.1@) == at_or_above(cursor_views(cs@), bound),
{
    let mut lo: Vec<Cursor> = Vec::new();
    let mut hi: Vec<Cursor> = Vec::new();
    let mut i: usize = 0;
    while i < cs.len()
        invariant
            0 <= i <= cs.len(),
            cursor_views(lo@) == below(cursor_views(cs@.subrange(0, i as int)), bound),
            cursor_views(hi@) == at_or_above(cursor_views(cs@.subrange(0, i as int)), bound),
        decreases cs.len() - i,
    {
        let ghost prev = cursor_views(cs@.subrange(0, i as int));
        let ghost next = cursor_views(cs@.subrange(0, i + 1));
        assert(next.drop_last() =~= prev);
        assert(next.last() == cs@[i as int]@);
        if cs[i].number < bound {
            lo.push(cs[i].copy());
            assert(cursor_views(lo@) =~= below(prev, bound).push(cs@[i as int]@));
        } else {
            hi.push(cs[i].copy());
            assert(cursor_views(hi@) =~= at_or_above(prev, bound).push(cs@[i as int]@));
        }
        i = i + 1;
    }
    assert(cs@.subrange(0, cs.len() as int) =~= cs@);
    (lo, hi)
}

impl Segmenter {
    /// Segments and groups hold at least one block.
    pub open spec fn wf(&self) -> bool {
        self@.snapshot.segment_options.sizes_positive()
    }

    pub fn snapshot(&self) -> (r: Snapshot)
        ensures
            r == self@.snapshot,
    {
        self.snapshot
    }

    pub fn finalized(&self) -> (r: Cursor)
        ensures
            r@ == self@.finalized,
    {
        self.finalized.copy()
    }

    /// Number of cursors buffered for the segment in progress.
    pub fn buffered_len(&self) -> (r: usize)
        ensures
            r == buffered(self@),
    {
        match &self.segment {
            Some(s) => s.cursors.len(),
            None => 0,
        }
    }

    fn is_seal_ready(&self) -> (r: bool)
        requires
            self.wf(),
        ensures
            r == seal_ready(self@),
    {
        let n = self.snapshot.segment_options.segment_size;
        match &self.segment {
            Some(s) => {
                assert(n > 0);
                let len = s.cursors.len();
                if (len as u64) < n || len < 1 {
                    false
                } else {
                    let idx = (n - 1) as usize;
                    assert(s.model().cursors[idx as int] == s.cursors@[idx as int]@);
                    s.cursors[idx].number <= self.finalized.number
                }
            },
            None => false,
        }
    }
    /// Seals the first segment of the buffer, which must be ready.
    fn seal_once(&mut self) -> (r: Result<SealedSegment, SegmenterError>)
        requires
            old(self).wf(),
            seal_ready(old(self)@),
        ensures
            final(self).wf(),
            match seal_once(old(self)@) {
                Ok((m, seal)) => r is Ok && r->Ok_0.model() == seal && final(self)@ == m,
                Err(e) => r == Err::<SealedSegment, _>(e) && final(self)@ == old(self)@,
            },
    {
        let opts = self.snapshot.segment_options;
        let n = opts.segment_size;
        let seg = match &self.segment {
            Some(seg) => seg,
            None => {
                return Err(SegmenterError::SegmentSizeMismatch);
            },
        };
        let ghost cs = seg.model().cursors;
        assert(self@.segment == Some(seg.model()));
        assert(cs.len() == seg.cursors.len());
        assert(n <= seg.cursors.len());
        let idx = (n - 1) as usize;
        assert(cs[idx as int] == seg.cursors@[idx as int]@);
        let last_number = seg.cursors[idx].number;
        if last_number == u64::MAX {
            return Err(SegmenterError::BlockNumberOverflow);
        }
        let next_segment_start = opts.segment_start(last_number + 1);
        let (to_segment, keep) = partition(&seg.cursors, next_segment_start);
        if to_segment.len() as u64 != n {
            return Err(SegmenterError::SegmentSizeMismatch);
        }
        if self.snapshot.revision == u64::MAX || self.snapshot.ingestion.extra_segment_count
            == u64::MAX {
            return Err(SegmenterError::CounterOverflow);
        }
        proof {
            lemma_below_bound(cs, next_segment_start);
        }
        let current_group_start = opts.segment_group_start(seg.group_start.number);
        let last_sealed = to_segment[to_segment.len() - 1].number;
        assert(below(cs, next_segment_start).last() == to_segment@[to_segment.len() - 1]@);
        let next_group_start = opts.segment_group_start(last_sealed + 1);
        assert(cs[0] == seg.cursors@[0]@);
        let segment_start = opts.segment_start(seg.cursors[0].number);
        let group_start_cursor = seg.group_start.copy();
        let mut snap = self.snapshot;
        snap.revision = snap.revision + 1;
        snap.ingestion.extra_segment_count = snap.ingestion.extra_segment_count + 1;
        if current_group_start == next_group_start {
            self.snapshot = snap;
            self.segment = Some(SegmentData { group_start: group_start_cursor, cursors: keep });
            Ok(SealedSegment { segment_start, cursors: to_segment, group_start: None, snapshot: snap })
        } else if self.snapshot.ingestion.group_count == u64::MAX {
            Err(SegmenterError::CounterOverflow)
        } else {
            snap.ingestion.group_count = snap.ingestion.group_count + 1;
            snap.ingestion.extra_segment_count = 0;
            self.snapshot = snap;
            if keep.len() == 0 {
                self.segment = None;
            } else {
                let first_kept = keep[0].copy();
                assert(first_kept@ == cursor_views(keep@)[0]);
                self.segment = Some(SegmentData { group_start: first_kept, cursors: keep });
            }
            Ok(
                SealedSegment {
                    segment_start,
                    cursors: to_segment,
                    group_start: Some(current_group_start),
                    snapshot: snap,
                },
            )
        }
    }

    /// Seals segments for as long as one is ready.
    fn seal_while_ready(&mut self) -> (r: Result<Vec<SealedSegment>, SegmenterError>)
        requires
            old(self).wf(),
        ensures
            final(self).wf(),
            match seal_all(old(self)@) {
                Ok((m, seals)) => r is Ok && seal_models(r->Ok_0@) == seals && final(self)@ == m,
                Err(e) => r == Err::<Vec<SealedSegment>, _>(e),
            },
    {
        let mut seals: Vec<SealedSegment> = Vec::new();
        assert(seal_models(seals@) =~= Seq::<SealModel>::empty());
        loop
            invariant
                self.wf(),
                match seal_all(self@) {
                    Ok((m, rest)) => seal_all(old(self)@) == Ok::<_, SegmenterError>(
                        (m, seal_models(seals@) + rest),
                    ),
                    Err(e) => seal_all(old(self)@) == Err::<(SegmenterModel, Seq<SealModel>), _>(e),
                },
            decreases buffered(self@),
        {
            if !self.is_seal_ready() {
                assert(seal_models(seals@) + Seq::<SealModel>::empty() =~= seal_models(seals@));
                return Ok(seals);
            }
            let ghost before = self@;
            let ghost done = seal_models(seals@);
            match self.seal_once() {
                Err(e) => {
                    return Err(e);
                },
                Ok(seal) => {
                    proof {
                        lemma_seal_shrinks(before);
                    }
                    let ghost sm = seal.model();
                    seals.push(seal);
                    assert(seal_models(seals@) =~= done.push(sm));
                    proof {
                        match seal_all(self@) {
                            Ok((m, rest)) => {
                                assert(done + (seq![sm] + rest) =~= done.push(sm) + rest);
                            },
                            Err(e) => {},
                        }
                    }
                },
            }
        }
    }
    /// Starts from the first block event, which must be `Started`, and announces the
    /// starting snapshot.
    pub fn start(snapshot: Snapshot, event: BlockEvent) -> (r: Result<(Segmenter, SnapshotChange), SegmenterError>)
        requires
            snapshot.segment_options.sizes_positive(),
        ensures
            match event {
                BlockEvent::Started { finalized } => r is Ok && {
                    let (sg, change) = r->Ok_0;
                    &&& sg.wf()
                    &&& sg@ == SegmenterModel { snapshot, finalized: finalized@, segment: None }
                    &&& change == SnapshotChange::Started(snapshot)
                },
                _ => r == Err::<(Segmenter, SnapshotChange), _>(SegmenterError::ExpectedStarted),
            },
    {
        match event {
            BlockEvent::Started { finalized } => {
                let sg = Segmenter { snapshot, finalized, segment: None };
                Ok((sg, SnapshotChange::Started(snapshot)))
            },
            _ => Err(SegmenterError::ExpectedStarted),
        }
    }

    /// Reacts to a block event.
    ///
    /// An ingested block is buffered. It is announced when it opens a segment or lies in the
    /// finalized tip's segment; otherwise every segment that is ready is sealed. A new
    /// finalized cursor also seals every segment that is ready.
    pub fn handle_event(&mut self, event: BlockEvent) -> (r: Result<SegmenterStep, SegmenterError>)
        requires
            old(self).wf(),
        ensures
            final(self).wf(),
            match handle(old(self)@, event) {
                Ok((m, ingested, seals)) => r is Ok && {
                    let step = r->Ok_0;
                    &&& final(self)@ == m
                    &&& opt_view(step.ingested) == ingested
                    &&& seal_models(step.seals@) == seals
                },
                Err(e) => r == Err::<SegmenterStep, _>(e),
            },
    {
        match event {
            BlockEvent::Ingested(cursor) => {
                let finalized_segment_start = self.snapshot.segment_options.segment_start(
                    self.finalized.number,
                );
                let announce = self.segment.is_none() || cursor.number >= finalized_segment_start;
                let ghost m0 = self@;
                match &mut self.segment {
                    None => {
                        let c = cursor.copy();
                        let v: Vec<Cursor> = vec![c];
                        assert(cursor_views(v@) =~= seq![cursor@]);
                        self.segment = Some(SegmentData { group_start: cursor.copy(), cursors: v });
                    },
                    Some(seg) => {
                        let ghost before = seg.model().cursors;
                        seg.cursors.push(cursor.copy());
                        assert(seg.model().cursors =~= before.push(cursor@));
                    },
                }
                assert(self@ == with_ingested(m0, cursor@));
                if announce {
                    Ok(SegmenterStep { ingested: Some(cursor), seals: Vec::new() })
                } else {
                    let seals = self.seal_while_ready()?;
                    Ok(SegmenterStep { ingested: None, seals })
                }
            },
            BlockEvent::Finalized(cursor) => {
                self.finalized = cursor;
                let seals = self.seal_while_ready()?;
                Ok(SegmenterStep { ingested: None, seals })
            },
            BlockEvent::Started { .. } => Err(SegmenterError::UnexpectedEvent),
            BlockEvent::Invalidate => Err(SegmenterError::InvalidateUnsupported),
        }
    }
}

} // verus!
