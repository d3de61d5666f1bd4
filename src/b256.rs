use vstd::prelude::*;

verus! {

/// A 32-byte hash as stored in segment records.
#[derive(Clone, Copy, Debug, PartialEq, Eq)]
pub struct B256(pub [u8; 32]);

impl Default for B256 {
    fn default() -> (r: Self)
        ensures
            forall|i: int| 0 <= i < 32 ==> r.0@[i] == 0u8,
    {
        B256([0u8; 32])
    }
}

impl B256 {
    pub fn new(value: &[u8; 32]) -> (r: Self)
        ensures
            r.0@ == value@,
    {
        B256(*value)
    }

    pub fn get_fully_qualified_name() -> (r: &'static str)
        ensures
            r@ == "B256"@,
    {
        "B256"
    }

    /// The 32 bytes of the hash.
    pub fn value(&self) -> (r: [u8; 32])
        ensures
            r@ == self.0@,
    {
        self.0
    }

    pub fn set_value(&mut self, items: &[u8; 32])
        ensures
            final(self).0@ == items@,
    {
        self.0 = *items;
    }
}

} // verus!
