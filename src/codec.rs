use vstd::prelude::*;
use crate::digest::Digest;
use crate::transaction::{blobs_view, digests_view};

verus! {

/// The two ways a conversion between representations can fail.
#[derive(Debug, Clone, Copy, PartialEq, Eq, Structural)]
pub enum CodecError {
    /// Bytes are not the canonical encoding of a value of the expected type,
    /// or paired sequences disagree in length.
    Decode,
    /// A value's own canonical writer failed.
    Encode,
}

/// A value with one canonical byte encoding, which it can write and read back.
/// The encoding is a function of the value's view, and no two views share one.
pub trait Canonical: View + Sized {
    /// The canonical bytes of a value with view `v`.
    spec fn canonical_of(v: Self::V) -> Seq<u8>;

    /// Whether the value's writer succeeds on it.
    spec fn encodable(&self) -> bool;

    /// Distinct views have distinct canonical bytes.
    proof fn lemma_canonical_injective(a: Self::V, b: Self::V)
        ensures
            Self::canonical_of(a) == Self::canonical_of(b) ==> a == b,
    ;

    /// Writes the canonical bytes of the value.
    fn to_canonical_bytes(&self) -> (r: Result<Vec<u8>, CodecError>)
        ensures
            r is Ok <==> self.encodable(),
            r matches Ok(b) ==> b@ == Self::canonical_of(self@),
            r matches Err(e) ==> e == CodecError::Encode,
    ;

    /// Reads a value from its canonical bytes; fails when `b` is the canonical
    /// encoding of no value.
    fn from_canonical_bytes(b: &[u8]) -> (r: Result<Self, CodecError>)
        ensures
            r is Ok <==> exists|x: Self| #[trigger] Self::canonical_of(x@) == b@,
            r matches Ok(v) ==> Self::canonical_of(v@) == b@,
            r matches Err(e) ==> e == CodecError::Decode,
    ;
}

/// A digest is its own canonical encoding: its bytes, as they are.
impl Canonical for Digest {
    open spec fn canonical_of(v: Seq<u8>) -> Seq<u8> {
        v
    }

    open spec fn encodable(&self) -> bool {
        true
    }

    proof fn lemma_canonical_injective(a: Seq<u8>, b: Seq<u8>) {
    }

    fn to_canonical_bytes(&self) -> (r: Result<Vec<u8>, CodecError>) {
        Ok(Digest::from_slice(self.as_slice()).bytes)
    }

    fn from_canonical_bytes(b: &[u8]) -> (r: Result<Self, CodecError>) {
        let d = Digest::from_slice(b);
        assert(Self::canonical_of(d@) == b@);
        Ok(d)
    }
}

/// A 32-byte array is its own canonical encoding; only 32 bytes decode.
impl Canonical for [u8; 32] {
    open spec fn canonical_of(v: Seq<u8>) -> Seq<u8> {
        v
    }

    open spec fn encodable(&self) -> bool {
        true
    }

    proof fn lemma_canonical_injective(a: Seq<u8>, b: Seq<u8>) {
    }

    fn to_canonical_bytes(&self) -> (r: Result<Vec<u8>, CodecError>) {
        Ok(Digest::from_slice(self.as_slice()).bytes)
    }

    fn from_canonical_bytes(b: &[u8]) -> (r: Result<Self, CodecError>) {
        if b.len() != 32 {
            assert forall|x: [u8; 32]| #[trigger] Self::canonical_of(x@) != b@ by {
                assert(x@.len() == 32);
            }
            return Err(CodecError::Decode);
        }
        let mut a: [u8; 32] = [0u8; 32];
        let mut i: usize = 0;
        while i < 32
            invariant
                i <= 32,
                b@.len() == 32,
                forall|j: int| 0 <= j < i ==> a@[j] == b@[j],
            decreases 32 - i,
        {
            a[i] = b[i];
            i += 1;
        }
        assert(a@ =~= b@);
        assert(Self::canonical_of(a@) == b@);
        Ok(a)
    }
}

/// The canonical bytes of `x`.
pub open spec fn canonical_bytes<T: Canonical>(x: &T) -> Seq<u8> {
    T::canonical_of(x@)
}

/// Whether `b` is the canonical encoding of some value of type `T`.
pub open spec fn decodable<T: Canonical>(b: Seq<u8>) -> bool {
    exists|x: T| #[trigger] T::canonical_of(x@) == b
}

/// The view of each value of a sequence.
pub open spec fn views<T: View>(v: Seq<T>) -> Seq<T::V> {
    v.map_values(|x: T| x@)
}

/// The canonical bytes of each value of a sequence.
pub open spec fn canonical_seq<T: Canonical>(v: Seq<T>) -> Seq<Seq<u8>> {
    v.map_values(|x: T| T::canonical_of(x@))
}

/// Whether every value of a sequence can be written.
pub open spec fn all_encodable<T: Canonical>(v: Seq<T>) -> bool {
    forall|i: int| 0 <= i < v.len() ==> #[trigger] v[i].encodable()
}

/// Whether every byte string of a sequence is the encoding of some `T`.
pub open spec fn all_decodable<T: Canonical>(v: Seq<Seq<u8>>) -> bool {
    forall|i: int| 0 <= i < v.len() ==> decodable::<T>(#[trigger] v[i])
}

/// Two sequences of values with the same canonical bytes hold the same views.
pub proof fn lemma_canonical_seq_injective<T: Canonical>(a: Seq<T>, b: Seq<T>)
    requires
        canonical_seq(a) == canonical_seq(b),
    ensures
        views(a) == views(b),
{
    assert(a.len() == canonical_seq(a).len());
    assert forall|i: int| 0 <= i < a.len() implies #[trigger] views(a)[i] == views(b)[i] by {
        assert(canonical_seq(a)[i] == canonical_seq(b)[i]);
        T::lemma_canonical_injective(a[i]@, b[i]@);
    }
    assert(views(a) =~= views(b));
}

/// Two sequences with the same views have the same canonical bytes.
pub proof fn lemma_canonical_seq_of_views<T: Canonical>(a: Seq<T>, b: Seq<T>)
    requires
        views(a) == views(b),
    ensures
        canonical_seq(a) == canonical_seq(b),
{
    assert(a.len() == views(a).len() && b.len() == views(b).len());
    assert(a.len() == b.len());
    assert forall|i: int| 0 <= i < a.len() implies #[trigger] canonical_seq(a)[i] == canonical_seq(b)[i] by {
        assert(views(a)[i] == a[i]@);
        assert(views(b)[i] == b[i]@);
        assert(canonical_seq(a)[i] == T::canonical_of(a[i]@));
        assert(canonical_seq(b)[i] == T::canonical_of(b[i]@));
    }
    assert(canonical_seq(a) =~= canonical_seq(b));
}

/// Encodes a value into a digest.
pub fn serialize_digest<B: Canonical>(v: &B) -> (r: Result<Digest, CodecError>)
    ensures
        r is Ok <==> v.encodable(),
        r matches Ok(d) ==> d@ == canonical_bytes(v),
        r matches Err(e) ==> e == CodecError::Encode,
{
    let bytes = v.to_canonical_bytes()?;
    Ok(Digest::new(bytes))
}

/// Encodes a value into a byte buffer.
pub fn serialize_bytes<B: Canonical>(v: &B) -> (r: Result<Vec<u8>, CodecError>)
    ensures
        r is Ok <==> v.encodable(),
        r matches Ok(b) ==> b@ == canonical_bytes(v),
        r matches Err(e) ==> e == CodecError::Encode,
{
    v.to_canonical_bytes()
}

/// Encodes each value of `items` into a digest, in order; fails on the first
/// value that cannot be written.
pub fn serialize_many_digests<B: Canonical>(items: &Vec<B>) -> (r: Result<Vec<Digest>, CodecError>)
    ensures
        r is Ok <==> all_encodable(items@),
        r matches Ok(ds) ==> digests_view(ds@) == canonical_seq(items@),
        r matches Err(e) ==> e == CodecError::Encode,
{
    let mut out: Vec<Digest> = Vec::with_capacity(items.len());
    let mut i: usize = 0;
    while i < items.len()
        invariant
            i <= items@.len(),
            out@.len() == i,
            all_encodable(items@.subrange(0, i as int)),
            digests_view(out@) == canonical_seq(items@.subrange(0, i as int)),
        decreases items@.len() - i,
    {
        let d = match serialize_digest(&items[i]) {
            Ok(d) => d,
            Err(e) => {
                return Err(e);
            },
        };
        let ghost prev = out@;
        out.push(d);
        i += 1;
        assert forall|j: int| 0 <= j < i implies #[trigger] digests_view(out@)[j] == canonical_seq(
            items@.subrange(0, i as int),
        )[j] by {
            if j < i - 1 {
                assert(out@[j] == prev[j]);
                assert(digests_view(prev)[j] == canonical_seq(items@.subrange(0, i - 1))[j]);
            }
        }
        assert(digests_view(out@) =~= canonical_seq(items@.subrange(0, i as int)));
    }
    assert(items@.subrange(0, items@.len() as int) =~= items@);
    Ok(out)
}

/// Encodes each value of `items` into a byte buffer, in order; fails on the
/// first value that cannot be written.
pub fn serialize_many_bytes<B: Canonical>(items: &Vec<B>) -> (r: Result<Vec<Vec<u8>>, CodecError>)
    ensures
        r is Ok <==> all_encodable(items@),
        r matches Ok(bs) ==> blobs_view(bs@) == canonical_seq(items@),
        r matches Err(e) ==> e == CodecError::Encode,
{
    let mut out: Vec<Vec<u8>> = Vec::with_capacity(items.len());
    let mut i: usize = 0;
    while i < items.len()
        invariant
            i <= items@.len(),
            out@.len() == i,
            all_encodable(items@.subrange(0, i as int)),
            blobs_view(out@) == canonical_seq(items@.subrange(0, i as int)),
        decreases items@.len() - i,
    {
        let b = match serialize_bytes(&items[i]) {
            Ok(b) => b,
            Err(e) => {
                return Err(e);
            },
        };
        let ghost prev = out@;
        out.push(b);
        i += 1;
        assert forall|j: int| 0 <= j < i implies #[trigger] blobs_view(out@)[j] == canonical_seq(
            items@.subrange(0, i as int),
        )[j] by {
            if j < i - 1 {
                assert(out@[j] == prev[j]);
                assert(blobs_view(prev)[j] == canonical_seq(items@.subrange(0, i - 1))[j]);
            }
        }
        assert(blobs_view(out@) =~= canonical_seq(items@.subrange(0, i as int)));
    }
    assert(items@.subrange(0, items@.len() as int) =~= items@);
    Ok(out)
}

/// Decodes a value from its canonical bytes.
pub fn deserialize_bytes<B: Canonical>(b: &[u8]) -> (r: Result<B, CodecError>)
    ensures
        r is Ok <==> decodable::<B>(b@),
        r matches Ok(v) ==> canonical_bytes(&v) == b@,
        r matches Err(e) ==> e == CodecError::Decode,
{
    B::from_canonical_bytes(b)
}

/// Decodes each digest of `v`, in order; fails on the first that is not a
/// canonical encoding, and then returns nothing decoded.
pub fn deserialize_many_bytes<B: Canonical>(v: &Vec<Digest>) -> (r: Result<Vec<B>, CodecError>)
    ensures
        r is Ok <==> all_decodable::<B>(digests_view(v@)),
        r matches Ok(xs) ==> canonical_seq(xs@) == digests_view(v@),
        r matches Err(e) ==> e == CodecError::Decode,
{
    let ghost s = digests_view(v@);
    let mut out: Vec<B> = Vec::with_capacity(v.len());
    let mut i: usize = 0;
    while i < v.len()
        invariant
            i <= v@.len(),
            out@.len() == i,
            s == digests_view(v@),
            all_decodable::<B>(s.subrange(0, i as int)),
            canonical_seq(out@) == s.subrange(0, i as int),
        decreases v@.len() - i,
    {
        let x = match deserialize_bytes::<B>(v[i].as_slice()) {
            Ok(x) => x,
            Err(e) => {
                assert(s[i as int] == v@[i as int]@);
                return Err(e);
            },
        };
        let ghost prev = out@;
        out.push(x);
        i += 1;
        assert forall|j: int| 0 <= j < i implies #[trigger] canonical_seq(out@)[j] == s.subrange(
            0,
            i as int,
        )[j] by {
            if j < i - 1 {
                assert(out@[j] == prev[j]);
                assert(canonical_seq(prev)[j] == s.subrange(0, i - 1)[j]);
            }
        }
        assert(canonical_seq(out@) =~= s.subrange(0, i as int));
        assert forall|j: int| 0 <= j < i implies decodable::<B>(#[trigger] s.subrange(0, i as int)[j]) by {
            if j < i - 1 {
                assert(s.subrange(0, i as int)[j] == s.subrange(0, i - 1)[j]);
            }
        }
    }
    assert(s.subrange(0, v@.len() as int) =~= s);
    Ok(out)
}

/// Decodes each byte buffer of `v`, in order; fails on the first that is not
/// a canonical encoding, and then returns nothing decoded.
pub fn deserialize_many_blobs<B: Canonical>(v: &Vec<Vec<u8>>) -> (r: Result<Vec<B>, CodecError>)
    ensures
        r is Ok <==> all_decodable::<B>(blobs_view(v@)),
        r matches Ok(xs) ==> canonical_seq(xs@) == blobs_view(v@),
        r matches Err(e) ==> e == CodecError::Decode,
{
    let ghost s = blobs_view(v@);
    let mut out: Vec<B> = Vec::with_capacity(v.len());
    let mut i: usize = 0;
    while i < v.len()
        invariant
            i <= v@.len(),
            out@.len() == i,
            s == blobs_view(v@),
            all_decodable::<B>(s.subrange(0, i as int)),
            canonical_seq(out@) == s.subrange(0, i as int),
        decreases v@.len() - i,
    {
        let x = match deserialize_bytes::<B>(v[i].as_slice()) {
            Ok(x) => x,
            Err(e) => {
                assert(s[i as int] == v@[i as int]@);
                return Err(e);
            },
        };
        let ghost prev = out@;
        out.push(x);
        i += 1;
        assert forall|j: int| 0 <= j < i implies #[trigger] canonical_seq(out@)[j] == s.subrange(
            0,
            i as int,
        )[j] by {
            if j < i - 1 {
                assert(out@[j] == prev[j]);
                assert(canonical_seq(prev)[j] == s.subrange(0, i - 1)[j]);
            }
        }
        assert(canonical_seq(out@) =~= s.subrange(0, i as int));
        assert forall|j: int| 0 <= j < i implies decodable::<B>(#[trigger] s.subrange(0, i as int)[j]) by {
            if j < i - 1 {
                assert(s.subrange(0, i as int)[j] == s.subrange(0, i - 1)[j]);
            }
        }
    }
    assert(s.subrange(0, v@.len() as int) =~= s);
    Ok(out)
}

} // verus!
