use vstd::prelude::*;

use crate::cursor::{append_bytes, hex_of, Cursor};
use crate::segment::{decimal, push_decimal, segment_name, SegmentOptions};

verus! {

/// `blocks/`
pub open spec fn blocks_dir() -> Seq<u8> {
    seq![98u8, 108u8, 111u8, 99u8, 107u8, 115u8, 47u8]
}

/// `/block`
pub open spec fn block_file() -> Seq<u8> {
    seq![47u8, 98u8, 108u8, 111u8, 99u8, 107u8]
}

/// `segment/`
pub open spec fn segment_dir() -> Seq<u8> {
    seq![115u8, 101u8, 103u8, 109u8, 101u8, 110u8, 116u8, 47u8]
}

/// `group/`
pub open spec fn group_dir() -> Seq<u8> {
    seq![103u8, 114u8, 111u8, 117u8, 112u8, 47u8]
}

/// `snapshot`
pub open spec fn snapshot_name() -> Seq<u8> {
    seq![115u8, 110u8, 97u8, 112u8, 115u8, 104u8, 111u8, 116u8]
}

/// Key of the staged copy of a block: `blocks/{number}-{hex(hash)}/block`.
pub open spec fn staged_block_key_of(c: (u64, Seq<u8>)) -> Seq<u8> {
    blocks_dir() + decimal(c.0 as nat) + seq![45u8] + hex_of(c.1) + block_file()
}

/// Key of the durable segment that starts at `start`: `segment/{name}`.
pub open spec fn segment_key_of(start: u64) -> Seq<u8> {
    segment_dir() + segment_name(start)
}

/// Key of the durable group that starts at `start`: `group/{name}`.
pub open spec fn group_key_of(start: u64) -> Seq<u8> {
    group_dir() + segment_name(start)
}

/// Key under which the block of `cursor` is staged locally.
pub fn staged_block_key(cursor: &Cursor) -> (r: Vec<u8>)
    ensures
        r@ == staged_block_key_of(cursor@),
{
    let mut r: Vec<u8> = vec![98u8, 108u8, 111u8, 99u8, 107u8, 115u8, 47u8];
    push_decimal(&mut r, cursor.number);
    r.push(45u8);
    let hex = cursor.hash_as_hex();
    append_bytes(&mut r, &hex);
    let tail: Vec<u8> = vec![47u8, 98u8, 108u8, 111u8, 99u8, 107u8];
    append_bytes(&mut r, &tail);
    assert(r@ =~= staged_block_key_of(cursor@));
    r
}

/// Key of the durable segment that starts at `start`.
pub fn segment_key(options: &SegmentOptions, start: u64) -> (r: Vec<u8>)
    ensures
        r@ == segment_key_of(start),
{
    let mut r: Vec<u8> = vec![115u8, 101u8, 103u8, 109u8, 101u8, 110u8, 116u8, 47u8];
    let name = options.format_segment_name(start);
    append_bytes(&mut r, &name);
    assert(r@ =~= segment_key_of(start));
    r
}

/// Key of the durable group that starts at `start`.
pub fn group_key(options: &SegmentOptions, start: u64) -> (r: Vec<u8>)
    ensures
        r@ == group_key_of(start),
{
    let mut r: Vec<u8> = vec![103u8, 114u8, 111u8, 117u8, 112u8, 47u8];
    let name = options.format_segment_name(start);
    append_bytes(&mut r, &name);
    assert(r@ =~= group_key_of(start));
    r
}

/// Key of the snapshot document.
pub fn snapshot_key() -> (r: Vec<u8>)
    ensures
        r@ == snapshot_name(),
{
    let r: Vec<u8> = vec![115u8, 110u8, 97u8, 112u8, 115u8, 104u8, 111u8, 116u8];
    assert(r@ =~= snapshot_name());
    r
}

} // verus!
