use vstd::prelude::*;

use vstd::bytes::{
    lemma_auto_spec_u64_to_from_le_bytes, spec_u64_from_le_bytes, spec_u64_to_le_bytes,
    u64_from_le_bytes, u64_to_le_bytes,
};

use crate::cursor::{append_bytes, Cursor};
use crate::segment::SegmentOptions;

use vstd::slice::slice_subrange;

verus! {

/// How much finalized data is published: whole groups, then segments past the last group.
#[derive(Clone, Copy, Debug, PartialEq, Eq, Structural)]
pub struct IngestionState {
    pub group_count: u64,
    pub extra_segment_count: u64,
}

/// The revision-numbered manifest of published groups and segments.
#[derive(Clone, Copy, Debug, PartialEq, Eq, Structural)]
pub struct Snapshot {
    pub revision: u64,
    pub segment_options: SegmentOptions,
    pub ingestion: IngestionState,
    pub starting_block: u64,
}

/// A change announced by the segmenter.
#[derive(Clone, Debug)]
pub enum SnapshotChange {
    Started(Snapshot),
    BlockIngested { cursor: Cursor },
    StateChanged { new_state: IngestionState, finalized: Cursor },
}

/// `next` is the snapshot published right after `prev`: the revision goes up by one, and
/// either one more segment is counted past the groups, or one more group is counted and no
/// segment is left past it.
pub open spec fn advances(prev: Snapshot, next: Snapshot) -> bool {
    &&& next.revision == prev.revision + 1
    &&& next.segment_options == prev.segment_options
    &&& next.starting_block == prev.starting_block
    &&& {
        ||| (next.ingestion.group_count == prev.ingestion.group_count
            && next.ingestion.extra_segment_count == prev.ingestion.extra_segment_count + 1)
        ||| (next.ingestion.group_count == prev.ingestion.group_count + 1
            && next.ingestion.extra_segment_count == 0)
    }
}

/// Bytes of a snapshot document: revision, segment size, group size, group count, extra
/// segment count and starting block, each as eight little-endian bytes.
pub open spec fn snapshot_bytes(s: Snapshot) -> Seq<u8> {
    spec_u64_to_le_bytes(s.revision) + spec_u64_to_le_bytes(s.segment_options.segment_size)
        + spec_u64_to_le_bytes(s.segment_options.group_size) + spec_u64_to_le_bytes(
        s.ingestion.group_count,
    ) + spec_u64_to_le_bytes(s.ingestion.extra_segment_count) + spec_u64_to_le_bytes(
        s.starting_block,
    )
}

/// Field `i` of a snapshot document: its eight bytes read as a little-endian number.
pub open spec fn field(b: Seq<u8>, i: int) -> u64 {
    spec_u64_from_le_bytes(b.subrange(8 * i, 8 * i + 8))
}

/// The snapshot that a document of the right length holds.
pub open spec fn snapshot_of(b: Seq<u8>) -> Snapshot {
    Snapshot {
        revision: field(b, 0),
        segment_options: SegmentOptions { segment_size: field(b, 1), group_size: field(b, 2) },
        ingestion: IngestionState { group_count: field(b, 3), extra_segment_count: field(b, 4) },
        starting_block: field(b, 5),
    }
}

/// Reading a published snapshot document gives back the snapshot.
pub proof fn lemma_snapshot_round_trip(s: Snapshot)
    ensures
        snapshot_bytes(s).len() == 48,
        snapshot_of(snapshot_bytes(s)) == s,
{
    lemma_auto_spec_u64_to_from_le_bytes();
    let b = snapshot_bytes(s);
    assert(b.subrange(0, 8) =~= spec_u64_to_le_bytes(s.revision));
    assert(b.subrange(8, 16) =~= spec_u64_to_le_bytes(s.segment_options.segment_size));
    assert(b.subrange(16, 24) =~= spec_u64_to_le_bytes(s.segment_options.group_size));
    assert(b.subrange(24, 32) =~= spec_u64_to_le_bytes(s.ingestion.group_count));
    assert(b.subrange(32, 40) =~= spec_u64_to_le_bytes(s.ingestion.extra_segment_count));
    assert(b.subrange(40, 48) =~= spec_u64_to_le_bytes(s.starting_block));
}

fn read_field(b: &[u8], i: usize) -> (r: u64)
    requires
        i < 6,
        b@.len() == 48,
    ensures
        r == field(b@, i as int),
{
    u64_from_le_bytes(slice_subrange(b, 8 * i, 8 * i + 8))
}

impl Snapshot {
    /// The snapshot a document holds, or `None` when it does not have the length of one.
    pub fn from_bytes(b: &[u8]) -> (r: Option<Snapshot>)
        ensures
            r is Some <==> b@.len() == 48,
            r is Some ==> r->Some_0 == snapshot_of(b@),
    {
        if b.len() != 48 {
            return None;
        }
        Some(
            Snapshot {
                revision: read_field(b, 0),
                segment_options: SegmentOptions {
                    segment_size: read_field(b, 1),
                    group_size: read_field(b, 2),
                },
                ingestion: IngestionState {
                    group_count: read_field(b, 3),
                    extra_segment_count: read_field(b, 4),
                },
                starting_block: read_field(b, 5),
            },
        )
    }

    /// The snapshot document to publish.
    pub fn to_bytes(&self) -> (r: Vec<u8>)
        ensures
            r@ == snapshot_bytes(*self),
    {
        let mut r: Vec<u8> = Vec::new();
        append_bytes(&mut r, &u64_to_le_bytes(self.revision));
        append_bytes(&mut r, &u64_to_le_bytes(self.segment_options.segment_size));
        append_bytes(&mut r, &u64_to_le_bytes(self.segment_options.group_size));
        append_bytes(&mut r, &u64_to_le_bytes(self.ingestion.group_count));
        append_bytes(&mut r, &u64_to_le_bytes(self.ingestion.extra_segment_count));
        append_bytes(&mut r, &u64_to_le_bytes(self.starting_block));
        assert(r@ =~= snapshot_bytes(*self));
        r
    }

    /// The first snapshot of a chain that starts at `starting_block`: nothing published yet.
    pub fn new(segment_options: SegmentOptions, starting_block: u64) -> (r: Snapshot)
        ensures
            r.revision == 0,
            r.segment_options == segment_options,
            r.ingestion.group_count == 0,
            r.ingestion.extra_segment_count == 0,
            r.starting_block == starting_block,
    {
        Snapshot {
            revision: 0,
            segment_options,
            ingestion: IngestionState { group_count: 0, extra_segment_count: 0 },
            starting_block,
        }
    }
}

} // verus!
