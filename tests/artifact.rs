use dna_ingestion::artifact::{decode_segment, encode_segment};

#[test]
fn segment_round_trip() {
    let records = vec![vec![1u8, 2, 3], Vec::new(), vec![0xff; 300]];
    let bytes = encode_segment(&records);
    assert_eq!(&bytes[..4], b"DNAS");
    assert_eq!(&bytes[4..12], &3u64.to_le_bytes());
    assert_eq!(bytes.len(), 4 + 3 * 8 + 3 + 300);
    assert_eq!(decode_segment(&bytes), Some(records));
}

#[test]
fn empty_segment() {
    let bytes = encode_segment(&Vec::new());
    assert_eq!(bytes, b"DNAS".to_vec());
    assert_eq!(decode_segment(&bytes), Some(Vec::new()));
}

#[test]
fn encoding_is_deterministic() {
    let records = vec![vec![9u8; 5], vec![7u8]];
    assert_eq!(encode_segment(&records), encode_segment(&records.clone()));
}

#[test]
fn malformed_segments_are_refused() {
    let bytes = encode_segment(&vec![vec![1u8, 2, 3]]);
    let mut bad_magic = bytes.clone();
    bad_magic[0] = b'X';
    assert_eq!(decode_segment(&bad_magic), None);
    let mut trailing = bytes.clone();
    trailing.push(0);
    assert_eq!(decode_segment(&trailing), None);
    let truncated = bytes[..bytes.len() - 1].to_vec();
    assert_eq!(decode_segment(&truncated), None);
    assert_eq!(decode_segment(&b"DN".to_vec()), None);
}
