use vstd::prelude::*;

verus! {

/// An immutable byte string holding a commitment, a hash or an encoded point.
/// Two digests are equal exactly when their bytes are.
#[derive(Debug, Clone, PartialEq, Eq, Default)]
pub struct Digest {
    pub bytes: Vec<u8>,
}

impl View for Digest {
    type V = Seq<u8>;

    open spec fn view(&self) -> Seq<u8> {
        self.bytes@
    }
}

impl Digest {
    /// A digest that owns the given bytes.
    pub fn new(bytes: Vec<u8>) -> (r: Digest)
        ensures
            r@ == bytes@,
    {
        Digest { bytes }
    }

    /// A digest holding a copy of `s`.
    pub fn from_slice(s: &[u8]) -> (r: Digest)
        ensures
            r@ == s@,
    {
        let mut bytes: Vec<u8> = Vec::with_capacity(s.len());
        let mut i: usize = 0;
        while i < s.len()
            invariant
                i <= s@.len(),
                bytes@ == s@.subrange(0, i as int),
            decreases s@.len() - i,
        {
            bytes.push(s[i]);
            i += 1;
        }
        Digest { bytes }
    }

    /// The number of bytes held.
    pub fn len(&self) -> (r: usize)
        ensures
            r == self@.len(),
    {
        self.bytes.len()
    }

    /// The bytes held.
    pub fn as_slice(&self) -> (r: &[u8])
        ensures
            r@ == self@,
    {
        self.bytes.as_slice()
    }
}

} // verus!
