use vstd::prelude::*;

use vstd::bytes::{
    lemma_auto_spec_u64_to_from_le_bytes, spec_u64_from_le_bytes, spec_u64_to_le_bytes,
    u64_from_le_bytes, u64_to_le_bytes,
};

use crate::cursor::append_bytes;

verus! {

/// `DNAS`, the first four bytes of every segment artifact.
pub open spec fn magic() -> Seq<u8> {
    seq![68u8, 78u8, 65u8, 83u8]
}

/// One record framed as its length (eight bytes, little endian) followed by its bytes.
pub open spec fn frame(r: Seq<u8>) -> Seq<u8> {
    spec_u64_to_le_bytes(r.len() as u64) + r
}

/// The records framed one after the other.
pub open spec fn frames(rs: Seq<Seq<u8>>) -> Seq<u8>
    decreases rs.len(),
{
    if rs.len() == 0 {
        Seq::empty()
    } else {
        frames(rs.drop_last()) + frame(rs.last())
    }
}

/// Bytes of the artifact that holds `rs`, in order.
pub open spec fn encoded(rs: Seq<Seq<u8>>) -> Seq<u8> {
    magic() + frames(rs)
}

/// Records read from framed bytes; `None` when the bytes end inside a frame.
pub open spec fn parse_frames(b: Seq<u8>) -> Option<Seq<Seq<u8>>>
    decreases b.len(),
{
    if b.len() == 0 {
        Some(Seq::empty())
    } else if b.len() < 8 {
        None
    } else {
        let n = spec_u64_from_le_bytes(b.subrange(0, 8));
        if n > b.len() - 8 {
            None
        } else {
            match parse_frames(b.subrange(8 + n, b.len() as int)) {
                Some(rest) => Some(seq![b.subrange(8, 8 + n)] + rest),
                None => None,
            }
        }
    }
}

/// Records of an artifact; `None` unless it starts with the magic bytes and ends exactly
/// at the end of its last frame.
pub open spec fn decoded(b: Seq<u8>) -> Option<Seq<Seq<u8>>> {
    if b.len() >= 4 && b.subrange(0, 4) == magic() {
        parse_frames(b.subrange(4, b.len() as int))
    } else {
        None
    }
}

pub open spec fn byte_views(v: Seq<Vec<u8>>) -> Seq<Seq<u8>> {
    v.map_values(|r: Vec<u8>| r@)
}

proof fn lemma_frames_front(r: Seq<u8>, rs: Seq<Seq<u8>>)
    ensures
        frames(seq![r] + rs) == frame(r) + frames(rs),
    decreases rs.len(),
{
    if rs.len() == 0 {
        let all = seq![r] + rs;
        assert(all.drop_last() =~= Seq::<Seq<u8>>::empty());
        assert(all.last() == r);
        assert(frames(all) == frames(all.drop_last()) + frame(all.last()));
        assert(frames(all) =~= frame(r) + frames(rs));
    } else {
        let all = seq![r] + rs;
        lemma_frames_front(r, rs.drop_last());
        assert(all.drop_last() =~= seq![r] + rs.drop_last());
        assert(all.last() == rs.last());
        assert(frames(all) == frames(all.drop_last()) + frame(all.last()));
        assert(frames(rs) == frames(rs.drop_last()) + frame(rs.last()));
        assert(frames(all) =~= frame(r) + frames(rs));
    }
}

/// Reading back the records of framed bytes gives the records that were framed.
proof fn lemma_parse_frames(rs: Seq<Seq<u8>>)
    requires
        forall|i: int| 0 <= i < rs.len() ==> (#[trigger] rs[i]).len() <= u64::MAX,
    ensures
        parse_frames(frames(rs)) == Some(rs),
    decreases rs.len(),
{
    if rs.len() == 0 {
        assert(frames(rs) =~= Seq::<u8>::empty());
    } else {
        let r = rs[0];
        let rest = rs.drop_first();
        assert(rs =~= seq![r] + rest);
        assert forall|i: int| 0 <= i < rest.len() implies (#[trigger] rest[i]).len() <= u64::MAX by {
            assert(rest[i] == rs[i + 1]);
        }
        lemma_frames_front(r, rest);
        lemma_parse_frames(rest);
        lemma_auto_spec_u64_to_from_le_bytes();
        let b = frames(rs);
        let len = spec_u64_to_le_bytes(r.len() as u64);
        assert(len.len() == 8);
        assert(b =~= len + r + frames(rest));
        assert(b.subrange(0, 8) =~= len);
        let n = spec_u64_from_le_bytes(b.subrange(0, 8));
        assert(n == r.len());
        assert(b.subrange(8 + n, b.len() as int) =~= frames(rest));
        assert(b.subrange(8, 8 + n) =~= r);
        assert(seq![r] + rest =~= rs);
    }
}

/// Decoding an artifact gives back the records it was built from, in order.
pub proof fn lemma_round_trip(rs: Seq<Seq<u8>>)
    requires
        forall|i: int| 0 <= i < rs.len() ==> (#[trigger] rs[i]).len() <= u64::MAX,
    ensures
        decoded(encoded(rs)) == Some(rs),
{
    lemma_parse_frames(rs);
    let b = encoded(rs);
    assert(b.subrange(0, 4) =~= magic());
    assert(b.subrange(4, b.len() as int) =~= frames(rs));
}

/// Bytes `start..end` of `b`.
fn copy_range(b: &Vec<u8>, start: usize, end: usize) -> (r: Vec<u8>)
    requires
        start <= end <= b.len(),
    ensures
        r@ == b@.subrange(start as int, end as int),
{
    let mut r: Vec<u8> = Vec::new();
    let mut i: usize = start;
    while i < end
        invariant
            start <= i <= end <= b.len(),
            r@ =~= b@.subrange(start as int, i as int),
        decreases end - i,
    {
        r.push(b[i]);
        i = i + 1;
    }
    r
}

/// Builds the artifact that holds `records`, in order.
pub fn encode_segment(records: &Vec<Vec<u8>>) -> (r: Vec<u8>)
    ensures
        r@ == encoded(byte_views(records@)),
{
    let mut out: Vec<u8> = vec![68u8, 78u8, 65u8, 83u8];
    let mut i: usize = 0;
    while i < records.len()
        invariant
            0 <= i <= records.len(),
            out@ =~= magic() + frames(byte_views(records@.subrange(0, i as int))),
        decreases records.len() - i,
    {
        let len = u64_to_le_bytes(records[i].len() as u64);
        append_bytes(&mut out, &len);
        append_bytes(&mut out, &records[i]);
        let ghost prefix = byte_views(records@.subrange(0, i + 1));
        assert(prefix.drop_last() =~= byte_views(records@.subrange(0, i as int)));
        i = i + 1;
        assert(out@ =~= magic() + frames(prefix));
    }
    assert(records@.subrange(0, records.len() as int) =~= records@);
    out
}

/// Reads the records of an artifact, or `None` if it is not one.
pub fn decode_segment(bytes: &Vec<u8>) -> (r: Option<Vec<Vec<u8>>>)
    ensures
        match decoded(bytes@) {
            Some(rs) => r is Some && byte_views(r->Some_0@) == rs,
            None => r is None,
        },
{
    let len = bytes.len();
    if len < 4 || bytes[0] != 68u8 || bytes[1] != 78u8 || bytes[2] != 65u8 || bytes[3] != 83u8 {
        proof {
            if len >= 4 && bytes@.subrange(0, 4) == magic() {
                assert(bytes@.subrange(0, 4)[0] == bytes@[0]);
                assert(bytes@.subrange(0, 4)[1] == bytes@[1]);
                assert(bytes@.subrange(0, 4)[2] == bytes@[2]);
                assert(bytes@.subrange(0, 4)[3] == bytes@[3]);
            }
        }
        return None;
    }
    assert(bytes@.subrange(0, 4) =~= magic());
    let mut out: Vec<Vec<u8>> = Vec::new();
    let mut pos: usize = 4;
    loop
        invariant
            4 <= pos <= len == bytes.len(),
            decoded(bytes@) == match parse_frames(bytes@.subrange(pos as int, len as int)) {
                Some(rest) => Some(byte_views(out@) + rest),
                None => None::<Seq<Seq<u8>>>,
            },
        decreases len - pos,
    {
        let ghost b = bytes@.subrange(pos as int, len as int);
        if pos == len {
            assert(b.len() == 0);
            assert(byte_views(out@) + Seq::<Seq<u8>>::empty() =~= byte_views(out@));
            return Some(out);
        }
        if len - pos < 8 {
            return None;
        }
        let head = copy_range(bytes, pos, pos + 8);
        assert(head@ =~= b.subrange(0, 8));
        let n = u64_from_le_bytes(head.as_slice());
        if n > (len - pos - 8) as u64 {
            return None;
        }
        let end = pos + 8 + n as usize;
        let record = copy_range(bytes, pos + 8, end);
        assert(record@ =~= b.subrange(8, 8 + n));
        assert(bytes@.subrange(end as int, len as int) =~= b.subrange(8 + n, b.len() as int));
        let ghost before = byte_views(out@);
        out.push(record);
        assert(byte_views(out@) =~= before.push(record@));
        proof {
            match parse_frames(bytes@.subrange(end as int, len as int)) {
                Some(rest) => {
                    assert(before + (seq![record@] + rest) =~= before.push(record@) + rest);
                },
                None => {},
            }
        }
        pos = end;
    }
}

} // verus!
