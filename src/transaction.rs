use vstd::prelude::*;
use crate::amount::{AleoAmount, i64_le_bytes};
use crate::digest::Digest;
use crate::network::Network;

verus! {

/// The 32-byte identifier of a transaction.
pub type TransactionId = [u8; 32];

/// The concatenation of a sequence of byte strings, in order.
pub open spec fn concat(s: Seq<Seq<u8>>) -> Seq<u8>
    decreases s.len(),
{
    if s.len() == 0 {
        Seq::empty()
    } else {
        concat(s.drop_last()) + s.last()
    }
}

/// The summed lengths of a sequence of byte strings.
pub open spec fn total_len(s: Seq<Seq<u8>>) -> int
    decreases s.len(),
{
    if s.len() == 0 {
        0
    } else {
        total_len(s.drop_last()) + s.last().len()
    }
}

/// The contents of each digest of a sequence.
pub open spec fn digests_view(v: Seq<Digest>) -> Seq<Seq<u8>> {
    v.map_values(|d: Digest| d@)
}

/// The contents of each byte buffer of a sequence.
pub open spec fn blobs_view(v: Seq<Vec<u8>>) -> Seq<Seq<u8>> {
    v.map_values(|b: Vec<u8>| b@)
}

/// The flat, self-contained form in which a transaction is stored and sent.
#[derive(Debug, Clone, PartialEq, Eq)]
pub struct SerialTransaction {
    pub id: TransactionId,
    /// The network this transaction is included in.
    pub network: Network,
    /// The root of the ledger commitment Merkle tree.
    pub ledger_digest: Digest,
    /// The serial numbers of the records being spent.
    pub old_serial_numbers: Vec<Digest>,
    /// The commitments of the records being created.
    pub new_commitments: Vec<Digest>,
    /// The commitment to the old record death and new record birth programs.
    pub program_commitment: Digest,
    /// The root of the local data Merkle tree.
    pub local_data_root: Digest,
    /// The difference between input and output record balances.
    pub value_balance: AleoAmount,
    /// Randomized signatures that authorize delegated transaction generation.
    pub signatures: Vec<Digest>,
    /// The encrypted payload of each new record, one per new commitment.
    pub new_records: Vec<Vec<u8>>,
    /// The zero-knowledge proof of the transaction's validity.
    pub transaction_proof: Vec<u8>,
    /// Public data that must be unique among all transactions.
    pub memorandum: Digest,
    /// The identifier of the inner circuit used.
    pub inner_circuit_id: Digest,
}

impl SerialTransaction {
    /// Every new commitment has exactly one encrypted record.
    pub open spec fn wf(&self) -> bool {
        self.new_records@.len() == self.new_commitments@.len()
    }

    /// The canonical byte layout: serial numbers, commitments, memorandum,
    /// ledger digest, inner circuit id, proof, program commitment, local data
    /// root, value balance, network, signatures and records. The id is not
    /// part of it.
    pub open spec fn encoding(&self) -> Seq<u8> {
        concat(digests_view(self.old_serial_numbers@))
            + concat(digests_view(self.new_commitments@))
            + self.memorandum@
            + self.ledger_digest@
            + self.inner_circuit_id@
            + self.transaction_proof@
            + self.program_commitment@
            + self.local_data_root@
            + i64_le_bytes(self.value_balance.0)
            + seq![self.network.spec_id()]
            + concat(digests_view(self.signatures@))
            + concat(blobs_view(self.new_records@))
    }

    /// The storage cost estimate: the struct itself, one digest slot per
    /// serial number, commitment and signature, and the bytes of every record
    /// and of the proof.
    pub open spec fn spec_size(&self) -> int {
        vstd::layout::size_of::<SerialTransaction>() + vstd::layout::size_of::<Digest>() * (
        self.old_serial_numbers@.len() + self.new_commitments@.len() + self.signatures@.len())
            + total_len(blobs_view(self.new_records@)) + self.transaction_proof@.len()
    }
}

/// A prefix of a sequence of byte strings is no longer in total.
pub proof fn lemma_total_len_prefix(s: Seq<Seq<u8>>, i: int)
    requires
        0 <= i <= s.len(),
    ensures
        0 <= total_len(s.subrange(0, i)) <= total_len(s),
    decreases s.len(),
{
    if i < s.len() {
        assert(s.drop_last().subrange(0, i) =~= s.subrange(0, i));
        lemma_total_len_prefix(s.drop_last(), i);
    } else {
        assert(s.subrange(0, i) =~= s);
        if s.len() > 0 {
            lemma_total_len_prefix(s.drop_last(), i - 1);
        }
    }
}

/// Appends `b` to `out`.
pub(crate) fn append_bytes(out: &mut Vec<u8>, b: &[u8])
    ensures
        final(out)@ == old(out)@ + b@,
{
    let ghost start = out@;
    let mut i: usize = 0;
    while i < b.len()
        invariant
            i <= b@.len(),
            out@ == start + b@.subrange(0, i as int),
        decreases b@.len() - i,
    {
        out.push(b[i]);
        i += 1;
        assert(out@ =~= start + b@.subrange(0, i as int));
    }
    assert(b@.subrange(0, b@.len() as int) =~= b@);
}

/// Appends the bytes of each digest of `v`, in order.
pub(crate) fn append_digests(out: &mut Vec<u8>, v: &Vec<Digest>)
    ensures
        final(out)@ == old(out)@ + concat(digests_view(v@)),
{
    let ghost start = out@;
    let ghost s = digests_view(v@);
    let mut i: usize = 0;
    while i < v.len()
        invariant
            i <= v@.len(),
            s == digests_view(v@),
            out@ == start + concat(s.subrange(0, i as int)),
        decreases v@.len() - i,
    {
        append_bytes(out, v[i].as_slice());
        proof {
            assert(s.subrange(0, i + 1).drop_last() =~= s.subrange(0, i as int));
        }
        i += 1;
        assert(out@ =~= start + concat(s.subrange(0, i as int)));
    }
    assert(s.subrange(0, v@.len() as int) =~= s);
}

/// Appends the bytes of each buffer of `v`, in order.
fn append_blobs(out: &mut Vec<u8>, v: &Vec<Vec<u8>>)
    ensures
        final(out)@ == old(out)@ + concat(blobs_view(v@)),
{
    let ghost start = out@;
    let ghost s = blobs_view(v@);
    let mut i: usize = 0;
    while i < v.len()
        invariant
            i <= v@.len(),
            s == blobs_view(v@),
            out@ == start + concat(s.subrange(0, i as int)),
        decreases v@.len() - i,
    {
        append_bytes(out, v[i].as_slice());
        proof {
            assert(s.subrange(0, i + 1).drop_last() =~= s.subrange(0, i as int));
        }
        i += 1;
        assert(out@ =~= start + concat(s.subrange(0, i as int)));
    }
    assert(s.subrange(0, v@.len() as int) =~= s);
}

impl SerialTransaction {
    /// Returns the storage cost estimate of the transaction.
    pub fn size(&self) -> (r: usize)
        requires
            self.spec_size() <= usize::MAX,
        ensures
            r == self.spec_size(),
    {
        let ghost s = blobs_view(self.new_records@);
        let ghost whole = self.spec_size();
        let base: usize = core::mem::size_of::<SerialTransaction>();
        let unit: usize = core::mem::size_of::<Digest>();
        let ns: usize = self.old_serial_numbers.len();
        let nc: usize = self.new_commitments.len();
        let ng: usize = self.signatures.len();
        proof {
            lemma_total_len_prefix(s, 0);
            assert(s.subrange(0, 0) =~= Seq::<Seq<u8>>::empty());
            assert(unit * (ns + nc + ng) == unit * ns + unit * nc + unit * ng) by (nonlinear_arith);
            assert(0 <= unit * ns && 0 <= unit * nc && 0 <= unit * ng) by (nonlinear_arith)
                requires unit >= 0, ns >= 0, nc >= 0, ng >= 0;
        }
        let mut acc: usize = base + unit * ns + unit * nc + unit * ng;
        let mut i: usize = 0;
        while i < self.new_records.len()
            invariant
                s == blobs_view(self.new_records@),
                whole == self.spec_size(),
                whole <= usize::MAX,
                i <= self.new_records@.len(),
                acc == vstd::layout::size_of::<SerialTransaction>() + vstd::layout::size_of::<Digest>() * (
                self.old_serial_numbers@.len() + self.new_commitments@.len() + self.signatures@.len())
                    + total_len(s.subrange(0, i as int)),
            decreases self.new_records@.len() - i,
        {
            proof {
                assert(s.subrange(0, i + 1).drop_last() =~= s.subrange(0, i as int));
                lemma_total_len_prefix(s, i + 1);
            }
            acc = acc + self.new_records[i].len();
            i += 1;
        }
        assert(s.subrange(0, self.new_records@.len() as int) =~= s);
        acc + self.transaction_proof.len()
    }

    /// Appends the canonical byte layout of the transaction to `out`.
    pub fn write_le(&self, out: &mut Vec<u8>)
        ensures
            final(out)@ == old(out)@ + self.encoding(),
    {
        append_digests(out, &self.old_serial_numbers);
        append_digests(out, &self.new_commitments);
        append_bytes(out, self.memorandum.as_slice());
        append_bytes(out, self.ledger_digest.as_slice());
        append_bytes(out, self.inner_circuit_id.as_slice());
        append_bytes(out, self.transaction_proof.as_slice());
        append_bytes(out, self.program_commitment.as_slice());
        append_bytes(out, self.local_data_root.as_slice());
        let amount = self.value_balance.to_le_bytes();
        append_bytes(out, amount.as_slice());
        out.push(self.network.id());
        append_digests(out, &self.signatures);
        append_blobs(out, &self.new_records);
        assert(out@ =~= old(out)@ + self.encoding());
    }

    /// The canonical byte layout of the transaction.
    pub fn to_bytes_le(&self) -> (r: Vec<u8>)
        ensures
            r@ == self.encoding(),
    {
        let mut out: Vec<u8> = Vec::new();
        self.write_le(&mut out);
        assert(out@ =~= self.encoding());
        out
    }
}

/// The size estimate never decreases when the proof or a record grows, or
/// when a serial number, commitment, record or signature is added.
pub proof fn lemma_size_monotone(a: &SerialTransaction, b: &SerialTransaction)
    requires
        a.old_serial_numbers@.len() <= b.old_serial_numbers@.len(),
        a.new_commitments@.len() <= b.new_commitments@.len(),
        a.signatures@.len() <= b.signatures@.len(),
        total_len(blobs_view(a.new_records@)) <= total_len(blobs_view(b.new_records@)),
        a.transaction_proof@.len() <= b.transaction_proof@.len(),
    ensures
        a.spec_size() <= b.spec_size(),
{
    let unit = vstd::layout::size_of::<Digest>() as int;
    let na = a.old_serial_numbers@.len() + a.new_commitments@.len() + a.signatures@.len();
    let nb = b.old_serial_numbers@.len() + b.new_commitments@.len() + b.signatures@.len();
    assert(unit * na <= unit * nb) by (nonlinear_arith)
        requires unit >= 0, na <= nb;
}

/// Adding a record adds its length to the summed record lengths.
pub proof fn lemma_total_len_push(s: Seq<Seq<u8>>, x: Seq<u8>)
    ensures
        total_len(s.push(x)) == total_len(s) + x.len(),
{
    assert(s.push(x).drop_last() =~= s);
}

} // verus!
