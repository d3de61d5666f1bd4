use dna_ingestion::b256::B256;
use dna_ingestion::cursor::Cursor;
use dna_ingestion::downloader::BlockNumberOrHash;
use dna_ingestion::layout::{group_key, segment_key, snapshot_key, staged_block_key};
use dna_ingestion::segment::{is_power_of_two, SegmentOptions};
use dna_ingestion::snapshot::{IngestionState, Snapshot};

fn text(v: Vec<u8>) -> String {
    String::from_utf8(v).unwrap()
}

#[test]
fn segment_and_group_starts() {
    let opts = SegmentOptions { segment_size: 100, group_size: 10_000 };
    assert_eq!(opts.segment_start(0), 0);
    assert_eq!(opts.segment_start(99), 0);
    assert_eq!(opts.segment_start(100), 100);
    assert_eq!(opts.segment_start(12_345), 12_300);
    assert_eq!(opts.segment_group_start(12_345), 10_000);
    assert_eq!(opts.segment_start(u64::MAX), u64::MAX - u64::MAX % 100);
}

#[test]
fn valid_options() {
    assert!(SegmentOptions { segment_size: 4, group_size: 16 }.is_valid());
    assert!(SegmentOptions { segment_size: 1, group_size: 1 }.is_valid());
    assert!(!SegmentOptions { segment_size: 100, group_size: 10_000 }.is_valid());
    assert!(!SegmentOptions { segment_size: 16, group_size: 4 }.is_valid());
    assert!(!SegmentOptions { segment_size: 0, group_size: 4 }.is_valid());
    assert!(is_power_of_two(1 << 63));
    assert!(!is_power_of_two(0));
    assert!(!is_power_of_two(6));
}

#[test]
fn segment_names_are_zero_padded() {
    let opts = SegmentOptions { segment_size: 4, group_size: 16 };
    assert_eq!(text(opts.format_segment_name(0)), "0000000000");
    assert_eq!(text(opts.format_segment_name(1234)), "0000001234");
    assert_eq!(text(opts.format_segment_name(u64::MAX)), "18446744073709551615");
    assert_eq!(text(segment_key(&opts, 4)), "segment/0000000004");
    assert_eq!(text(group_key(&opts, 160)), "group/0000000160");
    assert_eq!(text(snapshot_key()), "snapshot");
}

#[test]
fn staged_block_keys() {
    let c = Cursor::new(12, vec![0x0a, 0xbc, 0xff]);
    assert_eq!(text(c.hash_as_hex()), "0abcff");
    assert_eq!(text(staged_block_key(&c)), "blocks/12-0abcff/block");
    let empty = Cursor::new(0, Vec::new());
    assert_eq!(text(staged_block_key(&empty)), "blocks/0-/block");
}

#[test]
fn before_genesis_cursor() {
    assert!(Cursor::new(0, vec![0; 32]).is_before_genesis());
    assert!(!Cursor::new(0, vec![0, 1]).is_before_genesis());
    let c = Cursor::new(7, vec![1, 2]);
    assert_eq!(c.copy(), c);
}

#[test]
fn b256_values() {
    let mut bytes = [0u8; 32];
    bytes[0] = 7;
    bytes[31] = 9;
    let mut h = B256::new(&bytes);
    assert_eq!(h.value(), bytes);
    assert_eq!(B256::default().value(), [0u8; 32]);
    h.set_value(&[1u8; 32]);
    assert_eq!(h.value(), [1u8; 32]);
    assert_eq!(B256::get_fully_qualified_name(), "B256");
}

#[test]
fn block_number_into_request() {
    let r: BlockNumberOrHash = 42u64.into();
    assert!(matches!(r, BlockNumberOrHash::Number(42)));
}

#[test]
fn snapshot_document_round_trip() {
    let s = Snapshot {
        revision: 7,
        segment_options: SegmentOptions { segment_size: 4, group_size: 16 },
        ingestion: IngestionState { group_count: 2, extra_segment_count: 3 },
        starting_block: 1_000,
    };
    let bytes = s.to_bytes();
    assert_eq!(bytes.len(), 48);
    assert_eq!(&bytes[..8], &7u64.to_le_bytes());
    assert_eq!(&bytes[40..], &1_000u64.to_le_bytes());
    assert_eq!(Snapshot::from_bytes(&bytes), Some(s));
    assert_eq!(Snapshot::from_bytes(&bytes[..47]), None);
    let fresh = Snapshot::new(SegmentOptions { segment_size: 4, group_size: 16 }, 5);
    assert_eq!(fresh.revision, 0);
    assert_eq!(fresh.ingestion, IngestionState { group_count: 0, extra_segment_count: 0 });
}
