use vstd::prelude::*;

use crate::b256::B256;
use crate::cursor::Cursor;

verus! {

/// A change of the chain's head or finality, as reported by the chain tracker.
#[derive(Clone, Debug)]
pub enum ChainChange {
    Initialize { head: Cursor, finalized: Cursor },
    NewHead(Cursor),
    NewFinalized(Cursor),
    Invalidate,
}

/// An event of the block downloader.
#[derive(Clone, Debug)]
pub enum BlockEvent {
    Started { finalized: Cursor },
    Finalized(Cursor),
    Ingested(Cursor),
    Invalidate,
}

/// How a block is requested from the node.
#[derive(Clone, Debug)]
pub enum BlockNumberOrHash {
    Number(u64),
    Hash(B256),
}

impl From<u64> for BlockNumberOrHash {
    fn from(n: u64) -> (r: BlockNumberOrHash)
        ensures
            r == BlockNumberOrHash::Number(n),
    {
        BlockNumberOrHash::Number(n)
    }
}

impl vstd::std_specs::convert::FromSpecImpl<u64> for BlockNumberOrHash {
    open spec fn obeys_from_spec() -> bool {
        true
    }

    open spec fn from_spec(n: u64) -> BlockNumberOrHash {
        BlockNumberOrHash::Number(n)
    }
}

/// Why the downloader stops.
#[derive(Clone, Copy, Debug, PartialEq, Eq)]
pub enum DownloadError {
    /// The first chain change was not `Initialize`.
    ExpectedInitialize,
    /// A second `Initialize` arrived.
    UnexpectedInitialize,
    /// The starting block is ahead of the finalized block.
    FinalizedBehindStart,
    /// A download finished while none was in flight.
    NotDownloading,
    /// The node returned a block other than the one requested.
    UnexpectedBlock,
    /// The block number space is exhausted.
    BlockNumberOverflow,
}

/// What the driver does after a decision: forward an event and start a download.
pub struct DownloadStep {
    pub event: Option<BlockEvent>,
    pub fetch: Option<u64>,
}

/// Decisions of the block downloader: which block to fetch next and which events to emit.
///
/// Blocks are downloaded one at a time, in order, from the starting block up to the head.
pub struct Downloader {
    first_block: u64,
    head: Cursor,
    next_block: u64,
    downloading: bool,
}

pub open spec fn is_started(e: BlockEvent, finalized: (u64, Seq<u8>)) -> bool {
    match e {
        BlockEvent::Started { finalized: f } => f@ == finalized,
        _ => false,
    }
}

pub open spec fn is_ingested(e: BlockEvent, c: (u64, Seq<u8>)) -> bool {
    match e {
        BlockEvent::Ingested(x) => x@ == c,
        _ => false,
    }
}

pub open spec fn is_finalized(e: BlockEvent, c: (u64, Seq<u8>)) -> bool {
    match e {
        BlockEvent::Finalized(x) => x@ == c,
        _ => false,
    }
}

impl Downloader {
    pub closed spec fn spec_first_block(&self) -> u64 {
        self.first_block
    }

    pub closed spec fn spec_head(&self) -> (u64, Seq<u8>) {
        self.head@
    }

    /// The number of the next block to download, or of the one in flight.
    pub closed spec fn spec_next_block(&self) -> u64 {
        self.next_block
    }

    /// Whether a download is in flight.
    pub closed spec fn spec_downloading(&self) -> bool {
        self.downloading
    }

    /// Block numbers reported as `Ingested` so far, in the order they were reported.
    pub open spec fn ingested(&self) -> Seq<u64> {
        Seq::new(
            (self.spec_next_block() - self.spec_first_block()) as nat,
            |i: int| (self.spec_first_block() + i) as u64,
        )
    }

    /// The next block is at or after the starting block, and when no download is in flight
    /// every block up to the head has been downloaded.
    pub open spec fn wf(&self) -> bool {
        &&& self.spec_first_block() <= self.spec_next_block()
        &&& !self.spec_downloading() ==> self.spec_next_block() > self.spec_head().0
    }

    /// Starts from the first chain change, which must be `Initialize`.
    ///
    /// Emits `Started` with the finalized cursor, and starts downloading `first_block_number`
    /// when it is at or below the head.
    pub fn initialize(first_block_number: u64, change: ChainChange) -> (r: Result<
        (Downloader, DownloadStep),
        DownloadError,
    >)
        ensures
            match change {
                ChainChange::Initialize { head, finalized } => {
                    if finalized.number < first_block_number {
                        r == Err::<(Downloader, DownloadStep), _>(DownloadError::FinalizedBehindStart)
                    } else {
                        r is Ok && {
                            let (d, step) = r->Ok_0;
                            &&& d.wf()
                            &&& d.spec_first_block() == first_block_number
                            &&& d.spec_next_block() == first_block_number
                            &&& d.spec_head() == head@
                            &&& d.ingested().len() == 0
                            &&& step.event is Some && is_started(step.event->Some_0, finalized@)
                            &&& step.fetch == if first_block_number <= head.number {
                                Some(first_block_number)
                            } else {
                                None
                            }
                        }
                    }
                },
                _ => r == Err::<(Downloader, DownloadStep), _>(DownloadError::ExpectedInitialize),
            },
    {
        match change {
            ChainChange::Initialize { head, finalized } => {
                if finalized.number < first_block_number {
                    return Err(DownloadError::FinalizedBehindStart);
                }
                let downloading = first_block_number <= head.number;
                let fetch = if downloading {
                    Some(first_block_number)
                } else {
                    None
                };
                let d = Downloader {
                    first_block: first_block_number,
                    head,
                    next_block: first_block_number,
                    downloading,
                };
                Ok((d, DownloadStep { event: Some(BlockEvent::Started { finalized }), fetch }))
            },
            _ => Err(DownloadError::ExpectedInitialize),
        }
    }

    /// Reacts to a chain change after initialization.
    ///
    /// A new head starts a download when none is in flight and the next block is at or below
    /// it; a new finalized cursor and an invalidation are forwarded; a second `Initialize` is
    /// an error.
    pub fn on_chain_change(&mut self, change: ChainChange) -> (r: Result<DownloadStep, DownloadError>)
        requires
            old(self).wf(),
        ensures
            final(self).wf(),
            final(self).spec_first_block() == old(self).spec_first_block(),
            final(self).spec_next_block() == old(self).spec_next_block(),
            final(self).ingested() == old(self).ingested(),
            match change {
                ChainChange::Initialize { .. } => {
                    &&& r == Err::<DownloadStep, _>(DownloadError::UnexpectedInitialize)
                    &&& *final(self) == *old(self)
                },
                ChainChange::NewHead(h) => {
                    r is Ok && {
                        let step = r->Ok_0;
                        &&& final(self).spec_head() == h@
                        &&& final(self).spec_downloading() == (old(self).spec_downloading()
                            || old(self).spec_next_block() <= h.number)
                        &&& step.event is None
                        &&& step.fetch == if !old(self).spec_downloading()
                            && old(self).spec_next_block() <= h.number {
                            Some(old(self).spec_next_block())
                        } else {
                            None
                        }
                    }
                },
                ChainChange::NewFinalized(c) => {
                    r is Ok && {
                        let step = r->Ok_0;
                        &&& *final(self) == *old(self)
                        &&& step.event is Some && is_finalized(step.event->Some_0, c@)
                        &&& step.fetch is None
                    }
                },
                ChainChange::Invalidate => {
                    r is Ok && {
                        let step = r->Ok_0;
                        &&& *final(self) == *old(self)
                        &&& step.event == Some(BlockEvent::Invalidate)
                        &&& step.fetch is None
                    }
                },
            },
    {
        match change {
            ChainChange::Initialize { .. } => Err(DownloadError::UnexpectedInitialize),
            ChainChange::NewHead(h) => {
                let was_downloading = self.downloading;
                let in_reach = self.next_block <= h.number;
                self.head = h;
                if was_downloading {
                    Ok(DownloadStep { event: None, fetch: None })
                } else if in_reach {
                    self.downloading = true;
                    Ok(DownloadStep { event: None, fetch: Some(self.next_block) })
                } else {
                    Ok(DownloadStep { event: None, fetch: None })
                }
            },
            ChainChange::NewFinalized(c) => Ok(
                DownloadStep { event: Some(BlockEvent::Finalized(c)), fetch: None },
            ),
            ChainChange::Invalidate => Ok(DownloadStep { event: Some(BlockEvent::Invalidate), fetch: None }),
        }
    }

    /// Records that the download in flight returned the block of `cursor`.
    ///
    /// Emits `Ingested(cursor)` and starts downloading the following block when it is at or
    /// below the head. Fails, changing nothing, when no download is in flight or the block is
    /// not the one requested.
    pub fn on_block_downloaded(&mut self, cursor: Cursor) -> (r: Result<DownloadStep, DownloadError>)
        requires
            old(self).wf(),
        ensures
            final(self).wf(),
            final(self).spec_first_block() == old(self).spec_first_block(),
            final(self).spec_head() == old(self).spec_head(),
            !old(self).spec_downloading() ==> r == Err::<DownloadStep, _>(DownloadError::NotDownloading),
            old(self).spec_downloading() && cursor.number != old(self).spec_next_block()
                ==> r == Err::<DownloadStep, _>(DownloadError::UnexpectedBlock),
            old(self).spec_downloading() && cursor.number == old(self).spec_next_block()
                && cursor.number == u64::MAX
                ==> r == Err::<DownloadStep, _>(DownloadError::BlockNumberOverflow),
            r is Err ==> *final(self) == *old(self),
            old(self).spec_downloading() && cursor.number == old(self).spec_next_block()
                && cursor.number < u64::MAX ==> r is Ok && {
                let step = r->Ok_0;
                &&& step.event is Some && is_ingested(step.event->Some_0, cursor@)
                &&& final(self).spec_next_block() == cursor.number + 1
                &&& final(self).ingested() == old(self).ingested().push(cursor.number)
                &&& step.fetch == if cursor.number + 1 <= old(self).spec_head().0 {
                    Some((cursor.number + 1) as u64)
                } else {
                    None
                }
                &&& final(self).spec_downloading() == step.fetch is Some
            },
    {
        if !self.downloading {
            return Err(DownloadError::NotDownloading);
        }
        if cursor.number != self.next_block {
            return Err(DownloadError::UnexpectedBlock);
        }
        if cursor.number == u64::MAX {
            return Err(DownloadError::BlockNumberOverflow);
        }
        self.next_block = cursor.number + 1;
        let fetch = if self.next_block <= self.head.number {
            Some(self.next_block)
        } else {
            None
        };
        self.downloading = fetch.is_some();
        assert(self.ingested() =~= old(self).ingested().push(cursor.number));
        Ok(DownloadStep { event: Some(BlockEvent::Ingested(cursor)), fetch })
    }

    /// The number of the next block to download, or of the one in flight.
    pub fn next_block(&self) -> (r: u64)
        ensures
            r == self.spec_next_block(),
    {
        self.next_block
    }

    /// Whether a download is in flight.
    pub fn is_downloading(&self) -> (r: bool)
        ensures
            r == self.spec_downloading(),
    {
        self.downloading
    }
}

/// Blocks are reported as `Ingested` in strictly increasing order, each one above the
/// previous, starting at the first block number.
pub proof fn lemma_ingested_contiguous(d: Downloader)
    requires
        d.wf(),
    ensures
        forall|i: int| 0 <= i < d.ingested().len() ==> d.ingested()[i] == d.spec_first_block() + i,
        forall|i: int, j: int| 0 <= i < j < d.ingested().len() ==> d.ingested()[i] < d.ingested()[j],
{
}

} // verus!
