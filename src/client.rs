use vstd::prelude::*;

use crate::cursor::Cursor;

verus! {

/// Error of the data stream client.
#[derive(Clone, Copy, Debug, PartialEq, Eq, Structural)]
pub struct ClientError;

impl ClientError {
    /// Description of the error.
    pub fn message(&self) -> (r: &'static str)
        ensures
            r@ == "the DNA client encountered an error"@,
    {
        "the DNA client encountered an error"
    }
}

/// How final the data of a batch is.
#[derive(Clone, Copy, Debug, PartialEq, Eq, Structural)]
pub enum DataFinality {
    Unknown,
    Pending,
    Accepted,
    Finalized,
}

impl DataFinality {
    /// Wire code of the finality.
    pub open spec fn spec_code(self) -> i32 {
        match self {
            DataFinality::Unknown => 0,
            DataFinality::Pending => 1,
            DataFinality::Accepted => 2,
            DataFinality::Finalized => 3,
        }
    }

    pub fn code(&self) -> (r: i32)
        ensures
            r == self.spec_code(),
    {
        match self {
            DataFinality::Unknown => 0,
            DataFinality::Pending => 1,
            DataFinality::Accepted => 2,
            DataFinality::Finalized => 3,
        }
    }

    /// The finality with wire code `v`, if any.
    pub fn from_i32(v: i32) -> (r: Option<DataFinality>)
        ensures
            r is Some <==> 0 <= v <= 3,
            r is Some ==> r->Some_0.spec_code() == v,
    {
        if v == 0 {
            Some(DataFinality::Unknown)
        } else if v == 1 {
            Some(DataFinality::Pending)
        } else if v == 2 {
            Some(DataFinality::Accepted)
        } else if v == 3 {
            Some(DataFinality::Finalized)
        } else {
            None
        }
    }
}

/// What a subscriber asks for: batch size, where to start, finality and an encoded filter.
pub struct Configuration {
    pub batch_size: u64,
    pub starting_cursor: Option<Cursor>,
    pub finality: Option<DataFinality>,
    pub filter: Vec<u8>,
}

/// A request sent to the server on the bidirectional stream.
pub struct StreamDataRequest {
    pub stream_id: Option<u64>,
    pub batch_size: Option<u64>,
    pub starting_cursor: Option<Cursor>,
    pub finality: Option<i32>,
    pub filter: Vec<u8>,
}

/// A batch of encoded records as sent by the server.
pub struct Data {
    pub cursor: Option<Cursor>,
    pub end_cursor: Option<Cursor>,
    pub finality: i32,
    pub data: Vec<Vec<u8>>,
}

/// The payload of a server response.
pub enum ResponseMessage {
    Data(Data),
    Invalidate { cursor: Option<Cursor> },
    Heartbeat,
}

/// A response of the server, tagged with the stream it belongs to.
pub struct StreamDataResponse {
    pub stream_id: u64,
    pub message: Option<ResponseMessage>,
}

/// A message handed to the subscriber.
pub enum DataMessage {
    /// A batch of encoded records, from just after `cursor` up to `end_cursor`.
    Data { cursor: Option<Cursor>, end_cursor: Cursor, finality: DataFinality, batch: Vec<Vec<u8>> },
    /// Discard all data received after `cursor`.
    Invalidate { cursor: Option<Cursor> },
    Heartbeat,
}

/// The data message that a server payload stands for: an unknown finality code reads as
/// `Unknown` and a missing end cursor as the zero cursor.
pub open spec fn message_of(m: ResponseMessage, r: DataMessage) -> bool {
    match m {
        ResponseMessage::Data(d) => match r {
            DataMessage::Data { cursor, end_cursor, finality, batch } => {
                &&& cursor == d.cursor
                &&& end_cursor@ == match d.end_cursor {
                    Some(c) => c@,
                    None => (0u64, Seq::<u8>::empty()),
                }
                &&& finality == if 0 <= d.finality <= 3 {
                    choose|f: DataFinality| f.spec_code() == d.finality
                } else {
                    DataFinality::Unknown
                }
                &&& batch == d.data
            },
            _ => false,
        },
        ResponseMessage::Invalidate { cursor } => r == DataMessage::Invalidate { cursor },
        ResponseMessage::Heartbeat => r == DataMessage::Heartbeat,
    }
}

/// A response of stream `current` that carries data or an invalidation reaches the subscriber.
pub open spec fn yields(current: u64, response: StreamDataResponse) -> bool {
    &&& response.stream_id == current
    &&& response.message is Some
    &&& !(response.message->Some_0 is Heartbeat)
}

impl DataMessage {
    /// The message that a server response carries, if it carries one.
    pub fn from_stream_data_response(response: StreamDataResponse) -> (r: Option<DataMessage>)
        ensures
            r is Some <==> response.message is Some,
            r is Some ==> message_of(response.message->Some_0, r->Some_0),
    {
        match response.message {
            None => None,
            Some(m) => Some(message_from(m)),
        }
    }
}

fn message_from(m: ResponseMessage) -> (r: DataMessage)
    ensures
        message_of(m, r),
{
    match m {
        ResponseMessage::Heartbeat => DataMessage::Heartbeat,
        ResponseMessage::Invalidate { cursor } => DataMessage::Invalidate { cursor },
        ResponseMessage::Data(d) => {
            let end_cursor = match d.end_cursor {
                Some(c) => c,
                None => Cursor { number: 0, hash: Vec::new() },
            };
            let finality = match DataFinality::from_i32(d.finality) {
                Some(f) => f,
                None => DataFinality::Unknown,
            };
            proof {
                if 0 <= d.finality <= 3 {
                    let g = choose|g: DataFinality| g.spec_code() == d.finality;
                    assert(finality.spec_code() == d.finality);
                    assert(g == finality);
                }
            }
            DataMessage::Data { cursor: d.cursor, end_cursor, finality, batch: d.data }
        },
    }
}

/// Client side of a data stream: numbers each configuration and drops what belongs to an
/// earlier one.
pub struct StreamState {
    stream_id: u64,
}

impl StreamState {
    pub closed spec fn spec_stream_id(&self) -> u64 {
        self.stream_id
    }

    /// A stream that has sent no configuration yet.
    pub fn new() -> (r: StreamState)
        ensures
            r.spec_stream_id() == 0,
    {
        StreamState { stream_id: 0 }
    }

    /// Identifier of the last configuration sent.
    pub fn stream_id(&self) -> (r: u64)
        ensures
            r == self.spec_stream_id(),
    {
        self.stream_id
    }

    /// Starts a new stream for `configuration` and returns the request to send.
    pub fn configure(&mut self, configuration: Configuration) -> (r: StreamDataRequest)
        requires
            old(self).spec_stream_id() < u64::MAX,
        ensures
            final(self).spec_stream_id() == old(self).spec_stream_id() + 1,
            r.stream_id == Some(final(self).spec_stream_id()),
            r.batch_size == Some(configuration.batch_size),
            r.starting_cursor == configuration.starting_cursor,
            r.finality == match configuration.finality {
                Some(f) => Some(f.spec_code()),
                None => None::<i32>,
            },
            r.filter == configuration.filter,
    {
        self.stream_id = self.stream_id + 1;
        let finality = match configuration.finality {
            Some(f) => Some(f.code()),
            None => None,
        };
        StreamDataRequest {
            stream_id: Some(self.stream_id),
            batch_size: Some(configuration.batch_size),
            starting_cursor: configuration.starting_cursor,
            finality,
            filter: configuration.filter,
        }
    }

    /// The message to hand to the subscriber for `response`, if any.
    ///
    /// Responses of an earlier stream, empty responses and heartbeats yield nothing.
    pub fn receive(&self, response: StreamDataResponse) -> (r: Option<DataMessage>)
        ensures
            r is Some <==> yields(self.spec_stream_id(), response),
            r is Some ==> message_of(response.message->Some_0, r->Some_0),
    {
        if response.stream_id != self.stream_id {
            return None;
        }
        match response.message {
            None => None,
            Some(ResponseMessage::Heartbeat) => None,
            Some(m) => Some(message_from(m)),
        }
    }
}

/// After a configuration is sent, a response is handed to the subscriber only if it carries
/// that configuration's stream identifier: responses of earlier configurations are dropped.
pub proof fn lemma_only_last_stream_yields(
    before: StreamState,
    after: StreamState,
    request: StreamDataRequest,
    response: StreamDataResponse,
)
    requires
        after.spec_stream_id() == before.spec_stream_id() + 1,
        request.stream_id == Some(after.spec_stream_id()),
        yields(after.spec_stream_id(), response),
    ensures
        Some(response.stream_id) == request.stream_id,
        response.stream_id > before.spec_stream_id(),
{
}

} // verus!
