use vstd::prelude::*;

use crate::client::{Data, DataFinality, ResponseMessage, StreamDataRequest, StreamDataResponse};
use crate::cursor::{copy_bytes, Cursor};

verus! {

/// How a subscriber broke the stream contract.
#[derive(Clone, Copy, Debug, PartialEq, Eq, Structural)]
pub enum ProtocolError {
    /// The request carries no stream identifier.
    MissingStreamId,
    /// The stream identifier is not above the current one.
    StaleStreamId,
    /// The batch size is missing or zero.
    InvalidBatchSize,
    /// The finality code is unknown.
    InvalidFinality,
}

/// Rank of a finality: pending, then accepted, then finalized.
pub open spec fn rank(f: DataFinality) -> int {
    match f {
        DataFinality::Unknown => 0,
        DataFinality::Pending => 1,
        DataFinality::Accepted => 2,
        DataFinality::Finalized => 3,
    }
}

fn finality_rank(f: DataFinality) -> (r: u8)
    ensures
        r as int == rank(f),
{
    match f {
        DataFinality::Unknown => 0,
        DataFinality::Pending => 1,
        DataFinality::Accepted => 2,
        DataFinality::Finalized => 3,
    }
}

/// Numbers of `blocks` strictly increase, all above `after` when it is set.
pub open spec fn ordered_after(after: Option<u64>, blocks: Seq<(Cursor, Vec<u8>)>) -> bool {
    &&& forall|i: int, j: int| 0 <= i < j < blocks.len() ==> blocks[i].0.number < blocks[j].0.number
    &&& forall|i: int| 0 <= i < blocks.len() && after is Some ==> after->Some_0 < blocks[i].0.number
}

/// Server side of one subscriber's stream.
pub struct ServerSession {
    stream_id: u64,
    batch_size: u64,
    cursor: Option<Cursor>,
    finality: DataFinality,
    filter: Vec<u8>,
}

impl ServerSession {
    pub closed spec fn spec_stream_id(&self) -> u64 {
        self.stream_id
    }

    pub closed spec fn spec_batch_size(&self) -> u64 {
        self.batch_size
    }

    /// Cursor of the last block sent, or the starting cursor.
    pub closed spec fn spec_cursor(&self) -> Option<(u64, Seq<u8>)> {
        match self.cursor {
            Some(c) => Some(c@),
            None => None,
        }
    }

    pub closed spec fn spec_finality(&self) -> DataFinality {
        self.finality
    }

    pub closed spec fn spec_filter(&self) -> Seq<u8> {
        self.filter@
    }

    /// Batches hold at least one block.
    pub open spec fn wf(&self) -> bool {
        self.spec_batch_size() > 0
    }

    /// A session that has received no request yet.
    pub fn new() -> (r: ServerSession)
        ensures
            r.wf(),
            r.spec_stream_id() == 0,
            r.spec_cursor() is None,
            r.spec_batch_size() == 1,
    {
        ServerSession {
            stream_id: 0,
            batch_size: 1,
            cursor: None,
            finality: DataFinality::Accepted,
            filter: Vec::new(),
        }
    }

    /// Number of the block the stream resumes after, if any.
    pub fn cursor_number(&self) -> (r: Option<u64>)
        ensures
            r == match self.spec_cursor() {
                Some(c) => Some(c.0),
                None => None::<u64>,
            },
    {
        match &self.cursor {
            Some(c) => Some(c.number),
            None => None,
        }
    }

    /// The encoded filter of the current stream.
    pub fn filter(&self) -> (r: &Vec<u8>)
        ensures
            r@ == self.spec_filter(),
    {
        &self.filter
    }

    /// Restarts the session on a subscriber request: a new stream identifier above the
    /// current one, a positive batch size and a known finality (accepted when absent). What
    /// was pending for the previous stream is dropped. A bad request changes nothing.
    pub fn on_request(&mut self, request: StreamDataRequest) -> (r: Result<(), ProtocolError>)
        requires
            old(self).wf(),
        ensures
            final(self).wf(),
            request.stream_id is None ==> r == Err::<(), _>(ProtocolError::MissingStreamId),
            request.stream_id is Some && request.stream_id->Some_0 <= old(self).spec_stream_id()
                ==> r == Err::<(), _>(ProtocolError::StaleStreamId),
            request.stream_id is Some && request.stream_id->Some_0 > old(self).spec_stream_id() && (
            request.batch_size is None || request.batch_size == Some(0u64)) ==> r == Err::<(), _>(
                ProtocolError::InvalidBatchSize,
            ),
            request.stream_id is Some && request.stream_id->Some_0 > old(self).spec_stream_id()
                && request.batch_size is Some && request.batch_size->Some_0 > 0 && request.finality is Some
                && !(1 <= request.finality->Some_0 <= 3) ==> r == Err::<(), _>(
                ProtocolError::InvalidFinality,
            ),
            r is Err ==> *final(self) == *old(self),
            r is Ok ==> {
                &&& final(self).spec_stream_id() == request.stream_id->Some_0
                &&& final(self).spec_batch_size() == request.batch_size->Some_0
                &&& final(self).spec_cursor() == match request.starting_cursor {
                    Some(c) => Some(c@),
                    None => None,
                }
                &&& final(self).spec_finality().spec_code() == match request.finality {
                    Some(code) => code,
                    None => 2,
                }
                &&& final(self).spec_filter() == request.filter@
            },
            r is Ok <==> (request.stream_id is Some && request.stream_id->Some_0
                > old(self).spec_stream_id() && request.batch_size is Some && request.batch_size->Some_0
                > 0 && (request.finality is None || 1 <= request.finality->Some_0 <= 3)),
    {
        let stream_id = match request.stream_id {
            None => {
                return Err(ProtocolError::MissingStreamId);
            },
            Some(id) => id,
        };
        if stream_id <= self.stream_id {
            return Err(ProtocolError::StaleStreamId);
        }
        let batch_size = match request.batch_size {
            Some(n) => n,
            None => 0,
        };
        if batch_size == 0 {
            return Err(ProtocolError::InvalidBatchSize);
        }
        let finality = match request.finality {
            None => DataFinality::Accepted,
            Some(code) => {
                if code < 1 || code > 3 {
                    return Err(ProtocolError::InvalidFinality);
                }
                match DataFinality::from_i32(code) {
                    Some(f) => f,
                    None => {
                        return Err(ProtocolError::InvalidFinality);
                    },
                }
            },
        };
        self.stream_id = stream_id;
        self.batch_size = batch_size;
        self.cursor = request.starting_cursor;
        self.finality = finality;
        self.filter = request.filter;
        Ok(())
    }

    /// Whether data of finality `f` may be sent on this stream.
    pub fn accepts(&self, f: DataFinality) -> (r: bool)
        ensures
            r == (rank(f) >= rank(self.spec_finality())),
    {
        finality_rank(f) >= finality_rank(self.finality)
    }

    /// The next batch from `blocks`, the blocks after the session cursor in order: at most a
    /// batch's worth of them, starting at the first. Nothing is sent when there are no
    /// blocks or their finality is below the one asked for.
    pub fn next_batch(&mut self, blocks: Vec<(Cursor, Vec<u8>)>, finality: DataFinality) -> (r: Option<
        StreamDataResponse,
    >)
        requires
            old(self).wf(),
            ordered_after(
                match old(self).spec_cursor() {
                    Some(c) => Some(c.0),
                    None => None,
                },
                blocks@,
            ),
        ensures
            r is None <==> (blocks@.len() == 0 || rank(finality) < rank(old(self).spec_finality())),
            final(self).wf(),
            r is None ==> *final(self) == *old(self),
            r is Some ==> {
                let resp = r->Some_0;
                let n = if blocks@.len() < old(self).spec_batch_size() {
                    blocks@.len() as int
                } else {
                    old(self).spec_batch_size() as int
                };
                &&& resp.stream_id == old(self).spec_stream_id()
                &&& resp.message is Some && resp.message->Some_0 is Data
                &&& {
                    let d = resp.message->Some_0->Data_0;
                    &&& d.data@.len() == n
                    &&& forall|i: int| 0 <= i < n ==> (#[trigger] d.data@[i])@ == blocks@[i].1@
                    &&& d.finality == finality.spec_code()
                    &&& match d.cursor {
                        Some(c) => old(self).spec_cursor() == Some(c@),
                        None => old(self).spec_cursor() is None,
                    }
                    &&& d.end_cursor is Some && d.end_cursor->Some_0@ == blocks@[n - 1].0@
                }
                &&& final(self).spec_cursor() == Some(blocks@[n - 1].0@)
                &&& final(self).spec_stream_id() == old(self).spec_stream_id()
                &&& final(self).spec_batch_size() == old(self).spec_batch_size()
                &&& final(self).spec_finality() == old(self).spec_finality()
                &&& final(self).spec_filter() == old(self).spec_filter()
            },
    {
        if blocks.len() == 0 || !self.accepts(finality) {
            return None;
        }
        let n: usize = if (blocks.len() as u64) < self.batch_size {
            blocks.len()
        } else {
            self.batch_size as usize
        };
        let mut data: Vec<Vec<u8>> = Vec::new();
        let mut i: usize = 0;
        while i < n
            invariant
                0 <= i <= n <= blocks.len(),
                data@.len() == i,
                forall|k: int| 0 <= k < i ==> (#[trigger] data@[k])@ == blocks@[k].1@,
            decreases n - i,
        {
            data.push(copy_bytes(&blocks[i].1));
            i = i + 1;
        }
        let end_cursor = blocks[n - 1].0.copy();
        let response = StreamDataResponse {
            stream_id: self.stream_id,
            message: Some(
                ResponseMessage::Data(
                    Data {
                        cursor: self.cursor.take(),
                        end_cursor: Some(end_cursor.copy()),
                        finality: finality.code(),
                        data,
                    },
                ),
            ),
        };
        self.cursor = Some(end_cursor);
        Some(response)
    }
    /// Tells the subscriber to discard what follows `cursor`, when blocks past it were sent,
    /// and resumes from `cursor`.
    pub fn invalidate(&mut self, cursor: Cursor) -> (r: Option<StreamDataResponse>)
        requires
            old(self).wf(),
        ensures
            final(self).wf(),
            final(self).spec_stream_id() == old(self).spec_stream_id(),
            final(self).spec_batch_size() == old(self).spec_batch_size(),
            final(self).spec_finality() == old(self).spec_finality(),
            final(self).spec_filter() == old(self).spec_filter(),
            match old(self).spec_cursor() {
                Some(c) if c.0 > cursor.number => {
                    &&& r is Some
                    &&& r->Some_0.stream_id == old(self).spec_stream_id()
                    &&& r->Some_0.message is Some
                    &&& match r->Some_0.message->Some_0 {
                        ResponseMessage::Invalidate { cursor: Some(x) } => x@ == cursor@,
                        _ => false,
                    }
                    &&& final(self).spec_cursor() == Some(cursor@)
                },
                _ => r is None && final(self).spec_cursor() == old(self).spec_cursor(),
            },
    {
        let past = match &self.cursor {
            Some(c) => c.number > cursor.number,
            None => false,
        };
        if !past {
            return None;
        }
        let response = StreamDataResponse {
            stream_id: self.stream_id,
            message: Some(ResponseMessage::Invalidate { cursor: Some(cursor.copy()) }),
        };
        self.cursor = Some(cursor);
        Some(response)
    }

    /// A heartbeat for the current stream.
    pub fn heartbeat(&self) -> (r: StreamDataResponse)
        ensures
            r.stream_id == self.spec_stream_id(),
            r.message == Some(ResponseMessage::Heartbeat),
    {
        StreamDataResponse { stream_id: self.stream_id, message: Some(ResponseMessage::Heartbeat) }
    }
}

/// A heartbeat is due once the stream has been idle for half the subscriber's timeout.
pub fn heartbeat_due(idle_ms: u64, timeout_ms: u64) -> (r: bool)
    ensures
        r == (2 * idle_ms >= timeout_ms),
{
    idle_ms >= timeout_ms / 2 + timeout_ms % 2
}

/// Every response the server sends on a stream carries the identifier of the subscriber's
/// latest request, so a client that last asked for that stream keeps all of it.
pub proof fn lemma_server_tags_current_stream(
    session: ServerSession,
    request: StreamDataRequest,
    response: StreamDataResponse,
)
    requires
        request.stream_id == Some(session.spec_stream_id()),
        response.stream_id == session.spec_stream_id(),
        response.message is Some && !(response.message->Some_0 is Heartbeat),
    ensures
        crate::client::yields(request.stream_id->Some_0, response),
{
}

} // verus!
