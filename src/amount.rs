use vstd::prelude::*;
use vstd::bytes::spec_u64_to_le_bytes;
use vstd::bytes::spec_u64_from_le_bytes;

verus! {

/// A value balance in base units. It is negative only for coinbase-style
/// transactions, which mint new value.
#[derive(Debug, Clone, Copy, PartialEq, Eq, Structural)]
pub struct AleoAmount(pub i64);

/// The eight little-endian two's-complement bytes of `v`.
pub open spec fn i64_le_bytes(v: i64) -> Seq<u8> {
    spec_u64_to_le_bytes(#[verifier::truncate] (v as u64))
}

/// The integer whose eight little-endian two's-complement bytes are `s`.
pub open spec fn i64_from_le(s: Seq<u8>) -> i64 {
    #[verifier::truncate] (spec_u64_from_le_bytes(s) as i64)
}

/// Reading back the bytes of an integer gives the integer, and eight bytes are
/// the bytes of the integer they are read as.
pub proof fn lemma_i64_le_round_trip(v: i64, s: Seq<u8>)
    ensures
        i64_le_bytes(v).len() == 8,
        i64_from_le(i64_le_bytes(v)) == v,
        s.len() == 8 ==> i64_le_bytes(i64_from_le(s)) == s,
{
    vstd::bytes::lemma_auto_spec_u64_to_from_le_bytes();
    let u = spec_u64_from_le_bytes(s);
    assert((#[verifier::truncate] (u as i64)) as u64 == u) by (bit_vector);
    assert((#[verifier::truncate] (v as u64)) as i64 == v) by (bit_vector);
}

impl AleoAmount {
    /// The eight little-endian bytes of the amount.
    pub fn to_le_bytes(&self) -> (r: Vec<u8>)
        ensures
            r@ == i64_le_bytes(self.0),
    {
        vstd::bytes::u64_to_le_bytes(#[verifier::truncate] (self.0 as u64))
    }

    /// The amount whose eight little-endian bytes are `s`.
    pub fn from_le_bytes(s: &[u8]) -> (r: AleoAmount)
        requires
            s@.len() == 8,
        ensures
            r.0 == i64_from_le(s@),
    {
        let x: u64 = vstd::bytes::u64_from_le_bytes(s);
        AleoAmount(#[verifier::truncate] (x as i64))
    }
}

} // verus!
