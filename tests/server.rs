use dna_ingestion::client::{
    Configuration, DataFinality, DataMessage, ResponseMessage, StreamDataRequest, StreamState,
};
use dna_ingestion::cursor::Cursor;
use dna_ingestion::server::{heartbeat_due, ProtocolError, ServerSession};

fn c(n: u64) -> Cursor {
    Cursor::new(n, vec![n as u8])
}

fn request(stream_id: Option<u64>, batch_size: Option<u64>, finality: Option<i32>) -> StreamDataRequest {
    StreamDataRequest { stream_id, batch_size, starting_cursor: Some(c(10)), finality, filter: vec![7] }
}

fn blocks(range: std::ops::RangeInclusive<u64>) -> Vec<(Cursor, Vec<u8>)> {
    range.map(|n| (c(n), vec![n as u8; 2])).collect()
}

#[test]
fn batches_follow_the_cursor() {
    let mut s = ServerSession::new();
    s.on_request(request(Some(1), Some(2), Some(3))).unwrap();
    assert_eq!(s.filter(), &vec![7]);
    let r = s.next_batch(blocks(11..=15), DataFinality::Finalized).unwrap();
    assert_eq!(r.stream_id, 1);
    match r.message {
        Some(ResponseMessage::Data(d)) => {
            assert_eq!(d.cursor.map(|x| x.number), Some(10));
            assert_eq!(d.end_cursor.map(|x| x.number), Some(12));
            assert_eq!(d.data, vec![vec![11, 11], vec![12, 12]]);
            assert_eq!(d.finality, 3);
        }
        _ => panic!("expected data"),
    }
    let r = s.next_batch(blocks(13..=13), DataFinality::Finalized).unwrap();
    match r.message {
        Some(ResponseMessage::Data(d)) => {
            assert_eq!(d.cursor.map(|x| x.number), Some(12));
            assert_eq!(d.end_cursor.map(|x| x.number), Some(13));
            assert_eq!(d.data.len(), 1);
        }
        _ => panic!("expected data"),
    }
    assert!(s.next_batch(Vec::new(), DataFinality::Finalized).is_none());
}

#[test]
fn finality_gates_batches() {
    let mut s = ServerSession::new();
    s.on_request(request(Some(1), Some(5), Some(3))).unwrap();
    assert!(s.next_batch(blocks(11..=12), DataFinality::Accepted).is_none());
    assert!(!s.accepts(DataFinality::Pending));
    let mut s = ServerSession::new();
    s.on_request(request(Some(1), Some(5), None)).unwrap();
    assert!(s.accepts(DataFinality::Accepted));
    assert!(!s.accepts(DataFinality::Pending));
    assert!(s.next_batch(blocks(11..=12), DataFinality::Accepted).is_some());
}

#[test]
fn bad_requests_are_refused() {
    let mut s = ServerSession::new();
    assert_eq!(s.on_request(request(None, Some(2), None)), Err(ProtocolError::MissingStreamId));
    assert_eq!(s.on_request(request(Some(1), Some(0), None)), Err(ProtocolError::InvalidBatchSize));
    assert_eq!(s.on_request(request(Some(1), None, None)), Err(ProtocolError::InvalidBatchSize));
    assert_eq!(s.on_request(request(Some(1), Some(2), Some(9))), Err(ProtocolError::InvalidFinality));
    assert_eq!(s.on_request(request(Some(1), Some(2), Some(0))), Err(ProtocolError::InvalidFinality));
    s.on_request(request(Some(2), Some(2), None)).unwrap();
    assert_eq!(s.on_request(request(Some(2), Some(2), None)), Err(ProtocolError::StaleStreamId));
    assert_eq!(s.on_request(request(Some(1), Some(2), None)), Err(ProtocolError::StaleStreamId));
}

#[test]
fn invalidate_rewinds_the_stream() {
    let mut s = ServerSession::new();
    s.on_request(request(Some(1), Some(10), None)).unwrap();
    s.next_batch(blocks(11..=20), DataFinality::Accepted).unwrap();
    assert!(s.invalidate(c(25)).is_none());
    let r = s.invalidate(c(15)).unwrap();
    assert!(matches!(r.message, Some(ResponseMessage::Invalidate { cursor: Some(x) }) if x.number == 15));
    let r = s.next_batch(blocks(16..=16), DataFinality::Accepted).unwrap();
    match r.message {
        Some(ResponseMessage::Data(d)) => assert_eq!(d.cursor.map(|x| x.number), Some(15)),
        _ => panic!("expected data"),
    }
}

#[test]
fn heartbeats() {
    let mut s = ServerSession::new();
    s.on_request(request(Some(4), Some(1), None)).unwrap();
    let hb = s.heartbeat();
    assert_eq!(hb.stream_id, 4);
    assert!(matches!(hb.message, Some(ResponseMessage::Heartbeat)));
    assert!(!heartbeat_due(22_499, 45_000));
    assert!(heartbeat_due(22_500, 45_000));
    assert!(!heartbeat_due(2, 5));
    assert!(heartbeat_due(3, 5));
    assert!(heartbeat_due(0, 0));
}

#[test]
fn client_and_server_agree_on_stream() {
    let mut client = StreamState::new();
    let mut server = ServerSession::new();
    let config = |filter: u8| Configuration {
        batch_size: 2,
        starting_cursor: Some(c(10)),
        finality: Some(DataFinality::Finalized),
        filter: vec![filter],
    };
    server.on_request(client.configure(config(1))).unwrap();
    let stale = server.next_batch(blocks(11..=12), DataFinality::Finalized).unwrap();
    server.on_request(client.configure(config(2))).unwrap();
    assert_eq!(server.filter(), &vec![2]);
    let fresh = server.next_batch(blocks(11..=14), DataFinality::Finalized).unwrap();
    assert!(client.receive(stale).is_none());
    assert!(client.receive(server.heartbeat()).is_none());
    match client.receive(fresh) {
        Some(DataMessage::Data { end_cursor, batch, .. }) => {
            assert_eq!(end_cursor.number, 12);
            assert_eq!(batch.len(), 2);
        }
        _ => panic!("expected data"),
    }
}
