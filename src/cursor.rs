use vstd::prelude::*;

verus! {

/// A block on a specific fork: its number and its hash.
#[derive(Clone, Debug, PartialEq, Eq)]
pub struct Cursor {
    pub number: u64,
    pub hash: Vec<u8>,
}

impl View for Cursor {
    type V = (u64, Seq<u8>);

    open spec fn view(&self) -> (u64, Seq<u8>) {
        (self.number, self.hash@)
    }
}

/// Lower-case hexadecimal digit of a value below sixteen.
pub open spec fn hex_digit(v: u8) -> u8 {
    if v < 10 {
        (48 + v) as u8
    } else {
        (87 + v) as u8
    }
}

/// Lower-case hexadecimal text of `s`, two digits per byte, high nibble first.
pub open spec fn hex_of(s: Seq<u8>) -> Seq<u8>
    decreases s.len(),
{
    if s.len() == 0 {
        Seq::empty()
    } else {
        let b = s.last();
        hex_of(s.drop_last()) + seq![hex_digit(b / 16), hex_digit(b % 16)]
    }
}

/// Appends the bytes of `tail` to `out`.
pub fn append_bytes(out: &mut Vec<u8>, tail: &Vec<u8>)
    ensures
        final(out)@ == old(out)@ + tail@,
{
    let mut i: usize = 0;
    while i < tail.len()
        invariant
            0 <= i <= tail.len(),
            out@ =~= old(out)@ + tail@.subrange(0, i as int),
        decreases tail.len() - i,
    {
        out.push(tail[i]);
        i = i + 1;
        assert(out@ =~= old(out)@ + tail@.subrange(0, i as int));
    }
    assert(tail@.subrange(0, tail.len() as int) =~= tail@);
}

/// A copy of `v`, element by element.
pub fn copy_bytes(v: &Vec<u8>) -> (r: Vec<u8>)
    ensures
        r@ == v@,
{
    let mut r: Vec<u8> = Vec::new();
    append_bytes(&mut r, v);
    assert(r@ =~= v@);
    r
}

fn hex_char(v: u8) -> (r: u8)
    requires
        v < 16,
    ensures
        r == hex_digit(v),
{
    if v < 10 {
        48 + v
    } else {
        87 + v
    }
}

impl Cursor {
    pub fn new(number: u64, hash: Vec<u8>) -> (r: Cursor)
        ensures
            r.number == number,
            r.hash@ == hash@,
    {
        Cursor { number, hash }
    }

    /// A copy of this cursor.
    pub fn copy(&self) -> (r: Cursor)
        ensures
            r@ == self@,
    {
        Cursor { number: self.number, hash: copy_bytes(&self.hash) }
    }

    /// Whether the hash is all zeros, which marks the position before genesis.
    pub fn is_before_genesis(&self) -> (r: bool)
        ensures
            r == (forall|i: int| 0 <= i < self.hash@.len() ==> self.hash@[i] == 0u8),
    {
        let mut i: usize = 0;
        while i < self.hash.len()
            invariant
                0 <= i <= self.hash.len(),
                forall|j: int| 0 <= j < i ==> self.hash@[j] == 0u8,
            decreases self.hash.len() - i,
        {
            if self.hash[i] != 0 {
                return false;
            }
            i = i + 1;
        }
        true
    }

    /// The hash as lower-case hexadecimal text.
    pub fn hash_as_hex(&self) -> (r: Vec<u8>)
        ensures
            r@ == hex_of(self.hash@),
    {
        let mut r: Vec<u8> = Vec::new();
        let mut i: usize = 0;
        while i < self.hash.len()
            invariant
                0 <= i <= self.hash.len(),
                r@ == hex_of(self.hash@.subrange(0, i as int)),
            decreases self.hash.len() - i,
        {
            let b = self.hash[i];
            r.push(hex_char(b / 16));
            r.push(hex_char(b % 16));
            let ghost prefix = self.hash@.subrange(0, i + 1);
            assert(prefix.drop_last() =~= self.hash@.subrange(0, i as int));
            i = i + 1;
            assert(r@ =~= hex_of(prefix));
        }
        assert(self.hash@.subrange(0, self.hash.len() as int) =~= self.hash@);
        r
    }
}

} // verus!
