use vstd::prelude::*;

use crate::cursor::Cursor;
use crate::downloader::ChainChange;

verus! {

/// Why the chain tracker stops.
#[derive(Clone, Copy, Debug, PartialEq, Eq, Structural)]
pub enum TrackerError {
    /// The node reported a finalized block below one it reported before.
    FinalizedMovedBackward,
}

/// What the node reported on one poll: its head, its finalized block, and the block it now
/// has at the number of the head reported on the previous poll.
pub struct Observation {
    pub head: Cursor,
    pub finalized: Cursor,
    pub previous_head_now: Option<Cursor>,
}

/// Turns successive observations of the node into chain changes.
pub struct ChainTracker {
    last: Option<(Cursor, Cursor)>,
}

impl ChainTracker {
    /// Head and finalized cursor reported so far, if any.
    pub closed spec fn spec_last(&self) -> Option<((u64, Seq<u8>), (u64, Seq<u8>))> {
        match self.last {
            Some((h, f)) => Some((h@, f@)),
            None => None,
        }
    }

    /// A tracker that has reported nothing.
    pub fn new() -> (r: ChainTracker)
        ensures
            r.spec_last() is None,
    {
        ChainTracker { last: None }
    }

    /// The changes to report for an observation.
    ///
    /// The first observation gives `Initialize`. Later ones give, in this order:
    /// `Invalidate` when the block now at the previous head's number has another hash,
    /// `NewHead` when the head changed, and `NewFinalized` when the finalized block advanced.
    /// A finalized block below the previous one is an error and changes nothing.
    pub fn observe(&mut self, obs: Observation) -> (r: Result<Vec<ChainChange>, TrackerError>)
        ensures
            match old(self).spec_last() {
                None => r is Ok && r->Ok_0@.len() == 1 && match r->Ok_0@[0] {
                    ChainChange::Initialize { head, finalized } => head@ == obs.head@
                        && finalized@ == obs.finalized@,
                    _ => false,
                } && final(self).spec_last() == Some((obs.head@, obs.finalized@)),
                Some((h, f)) => {
                    if obs.finalized.number < f.0 {
                        &&& r == Err::<Vec<ChainChange>, _>(TrackerError::FinalizedMovedBackward)
                        &&& final(self).spec_last() == old(self).spec_last()
                    } else {
                        let reorg = match obs.previous_head_now {
                            Some(c) => c.hash@ != h.1,
                            None => false,
                        };
                        let moved = obs.head@ != h;
                        let advanced = obs.finalized.number > f.0;
                        r is Ok && {
                            let cs = r->Ok_0@;
                            &&& cs.len() == (if reorg { 1int } else { 0 }) + (if moved {
                                1int
                            } else {
                                0
                            }) + (if advanced {
                                1int
                            } else {
                                0
                            })
                            &&& reorg ==> cs[0] is Invalidate
                            &&& moved ==> match cs[if reorg { 1int } else { 0 }] {
                                ChainChange::NewHead(c) => c@ == obs.head@,
                                _ => false,
                            }
                            &&& advanced ==> match cs.last() {
                                ChainChange::NewFinalized(c) => c@ == obs.finalized@,
                                _ => false,
                            }
                            &&& final(self).spec_last() == Some(
                                (obs.head@, if advanced { obs.finalized@ } else { f }),
                            )
                        }
                    }
                },
            },
    {
        let mut changes: Vec<ChainChange> = Vec::new();
        match &self.last {
            None => {
                let head = obs.head.copy();
                let finalized = obs.finalized.copy();
                changes.push(ChainChange::Initialize { head, finalized });
                self.last = Some((obs.head, obs.finalized));
                Ok(changes)
            },
            Some((h, f)) => {
                if obs.finalized.number < f.number {
                    return Err(TrackerError::FinalizedMovedBackward);
                }
                let reorg = match &obs.previous_head_now {
                    Some(c) => !same_bytes(&c.hash, &h.hash),
                    None => false,
                };
                let moved = obs.head.number != h.number || !same_bytes(&obs.head.hash, &h.hash);
                let advanced = obs.finalized.number > f.number;
                let kept_finalized = f.copy();
                if reorg {
                    changes.push(ChainChange::Invalidate);
                }
                if moved {
                    changes.push(ChainChange::NewHead(obs.head.copy()));
                }
                let finalized = if advanced {
                    changes.push(ChainChange::NewFinalized(obs.finalized.copy()));
                    obs.finalized
                } else {
                    kept_finalized
                };
                self.last = Some((obs.head, finalized));
                Ok(changes)
            },
        }
    }
}

/// Whether two byte strings are equal.
pub fn same_bytes(a: &Vec<u8>, b: &Vec<u8>) -> (r: bool)
    ensures
        r == (a@ == b@),
{
    if a.len() != b.len() {
        return false;
    }
    let mut i: usize = 0;
    while i < a.len()
        invariant
            0 <= i <= a.len() == b.len(),
            forall|j: int| 0 <= j < i ==> a@[j] == b@[j],
        decreases a.len() - i,
    {
        if a[i] != b[i] {
            return false;
        }
        i = i + 1;
    }
    assert(a@ =~= b@);
    true
}

/// Delay before retry number `attempt` (counting from zero): `base` doubled for each earlier
/// attempt, never above `max`.
pub open spec fn spec_backoff(attempt: nat, base: nat, max: nat) -> nat
    decreases attempt,
{
    if attempt == 0 {
        if base < max {
            base
        } else {
            max
        }
    } else {
        let prev = spec_backoff((attempt - 1) as nat, base, max);
        if 2 * prev < max {
            2 * prev
        } else {
            max
        }
    }
}

/// Delay, in milliseconds, before retry number `attempt` of a failed call.
pub fn backoff_delay(attempt: u32, base: u64, max: u64) -> (r: u64)
    ensures
        r == spec_backoff(attempt as nat, base as nat, max as nat),
        r <= max,
{
    let mut d: u64 = if base < max {
        base
    } else {
        max
    };
    let mut i: u32 = 0;
    while i < attempt
        invariant
            0 <= i <= attempt,
            d == spec_backoff(i as nat, base as nat, max as nat),
            d <= max,
        decreases attempt - i,
    {
        d = if d <= max / 2 && 2 * d < max {
            2 * d
        } else {
            max
        };
        i = i + 1;
    }
    d
}

} // verus!
