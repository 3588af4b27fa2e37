use vstd::prelude::*;
use crate::amount::AleoAmount;
use crate::codec::{
    Canonical, CodecError, all_decodable, all_encodable, canonical_bytes, canonical_seq, decodable,
    deserialize_bytes, deserialize_many_blobs, deserialize_many_bytes, lemma_canonical_seq_injective,
    lemma_canonical_seq_of_views, serialize_bytes, serialize_digest, serialize_many_bytes,
    serialize_many_digests, views,
};
use crate::network::Network;
use crate::transaction::{
    SerialTransaction, TransactionId, append_bytes, append_digests, blobs_view, concat, digests_view,
};

verus! {

/// The 32-byte BLAKE2s digest of a byte string.
pub uninterp spec fn blake2s_256(b: Seq<u8>) -> Seq<u8>;

/// Relies on blake2::Blake2s (BLAKE2s with a 32-byte output): the digest
/// depends on the input bytes alone.
#[verifier::external_body]
fn blake2s(b: &[u8]) -> (r: TransactionId)
    ensures
        r@ == blake2s_256(b@),
{
    let h = <blake2::Blake2s as blake2::Digest>::digest(b);
    let mut r = [0u8; 32];
    r.copy_from_slice(&h);
    r
}

/// A cryptographic parameter set: the type of each field of a domain
/// transaction, each with its own canonical reader and writer.
pub trait Components {
    type LedgerDigest: Canonical;
    /// Its reader carries the structural checks of a serial number (such as
    /// membership in the expected group).
    type SerialNumber: Canonical;
    type Commitment: Canonical;
    type ProgramCommitment: Canonical;
    type LocalDataRoot: Canonical;
    type Signature: Canonical;
    type EncryptedRecord: Canonical;
    type Proof: Canonical;
    type Memorandum: Canonical;
    type InnerCircuitId: Canonical;
}

/// A transaction in the domain model of a parameter set.
pub struct Transaction<C: Components> {
    /// The network this transaction is included in.
    pub network: Network,
    /// The root of the ledger commitment Merkle tree.
    pub ledger_digest: C::LedgerDigest,
    /// The serial numbers of the records being spent.
    pub old_serial_numbers: Vec<C::SerialNumber>,
    /// The commitments of the records being created.
    pub new_commitments: Vec<C::Commitment>,
    /// The commitment to the old record death and new record birth programs.
    pub program_commitment: C::ProgramCommitment,
    /// The root of the local data Merkle tree.
    pub local_data_root: C::LocalDataRoot,
    /// The difference between input and output record balances.
    pub value_balance: AleoAmount,
    /// Randomized signatures that authorize delegated transaction generation.
    pub signatures: Vec<C::Signature>,
    /// The encrypted new records.
    pub encrypted_records: Vec<C::EncryptedRecord>,
    /// The zero-knowledge proof of the transaction's validity.
    pub transaction_proof: C::Proof,
    /// Public data that must be unique among all transactions.
    pub memorandum: C::Memorandum,
    /// The identifier of the inner circuit used.
    pub inner_circuit_id: C::InnerCircuitId,
}

/// Whether every field of a wire transaction is the canonical encoding of a
/// value of the parameter set's type for it.
pub open spec fn wire_decodable<C: Components>(w: &SerialTransaction) -> bool {
    &&& decodable::<C::LedgerDigest>(w.ledger_digest@)
    &&& all_decodable::<C::SerialNumber>(digests_view(w.old_serial_numbers@))
    &&& all_decodable::<C::Commitment>(digests_view(w.new_commitments@))
    &&& decodable::<C::ProgramCommitment>(w.program_commitment@)
    &&& decodable::<C::LocalDataRoot>(w.local_data_root@)
    &&& all_decodable::<C::Signature>(digests_view(w.signatures@))
    &&& all_decodable::<C::EncryptedRecord>(blobs_view(w.new_records@))
    &&& decodable::<C::Proof>(w.transaction_proof@)
    &&& decodable::<C::Memorandum>(w.memorandum@)
    &&& decodable::<C::InnerCircuitId>(w.inner_circuit_id@)
}

impl<C: Components> Transaction<C> {
    /// The bytes the identifier is derived from: the serial numbers, the new
    /// commitments and the memorandum.
    pub open spec fn id_pre_image(&self) -> Seq<u8> {
        concat(canonical_seq(self.old_serial_numbers@)) + concat(canonical_seq(self.new_commitments@))
            + canonical_bytes(&self.memorandum)
    }

    /// The identifier of the transaction: the BLAKE2s digest of its
    /// identifying bytes.
    pub open spec fn spec_id(&self) -> Seq<u8> {
        blake2s_256(self.id_pre_image())
    }

    /// Every new commitment has exactly one encrypted record.
    pub open spec fn wf(&self) -> bool {
        self.encrypted_records@.len() == self.new_commitments@.len()
    }

    /// Whether the writer of every field succeeds.
    pub open spec fn encodable(&self) -> bool {
        &&& self.ledger_digest.encodable()
        &&& all_encodable(self.old_serial_numbers@)
        &&& all_encodable(self.new_commitments@)
        &&& self.program_commitment.encodable()
        &&& self.local_data_root.encodable()
        &&& all_encodable(self.signatures@)
        &&& all_encodable(self.encrypted_records@)
        &&& self.transaction_proof.encodable()
        &&& self.memorandum.encodable()
        &&& self.inner_circuit_id.encodable()
    }

    /// Whether `w` holds the canonical bytes of every field of the
    /// transaction, the identifier aside.
    pub open spec fn matches_wire(&self, w: &SerialTransaction) -> bool {
        &&& w.network == self.network
        &&& w.ledger_digest@ == canonical_bytes(&self.ledger_digest)
        &&& digests_view(w.old_serial_numbers@) == canonical_seq(self.old_serial_numbers@)
        &&& digests_view(w.new_commitments@) == canonical_seq(self.new_commitments@)
        &&& w.program_commitment@ == canonical_bytes(&self.program_commitment)
        &&& w.local_data_root@ == canonical_bytes(&self.local_data_root)
        &&& w.value_balance == self.value_balance
        &&& digests_view(w.signatures@) == canonical_seq(self.signatures@)
        &&& blobs_view(w.new_records@) == canonical_seq(self.encrypted_records@)
        &&& w.transaction_proof@ == canonical_bytes(&self.transaction_proof)
        &&& w.memorandum@ == canonical_bytes(&self.memorandum)
        &&& w.inner_circuit_id@ == canonical_bytes(&self.inner_circuit_id)
    }

    /// Whether `w` is the wire form of the transaction, identifier included.
    pub open spec fn lowers_to(&self, w: &SerialTransaction) -> bool {
        self.matches_wire(w) && w.id@ == self.spec_id()
    }

    /// Whether two transactions hold the same values in every field, each
    /// value compared by its view.
    pub open spec fn same_fields(&self, o: &Self) -> bool {
        &&& self.network == o.network
        &&& self.ledger_digest@ == o.ledger_digest@
        &&& views(self.old_serial_numbers@) == views(o.old_serial_numbers@)
        &&& views(self.new_commitments@) == views(o.new_commitments@)
        &&& self.program_commitment@ == o.program_commitment@
        &&& self.local_data_root@ == o.local_data_root@
        &&& self.value_balance == o.value_balance
        &&& views(self.signatures@) == views(o.signatures@)
        &&& views(self.encrypted_records@) == views(o.encrypted_records@)
        &&& self.transaction_proof@ == o.transaction_proof@
        &&& self.memorandum@ == o.memorandum@
        &&& self.inner_circuit_id@ == o.inner_circuit_id@
    }

    /// Lifts a wire transaction into the domain model. Fails with a decode
    /// error when the records and commitments differ in number, or when a
    /// field is not the canonical encoding of a value of its type.
    pub fn lift(tx: &SerialTransaction) -> (r: Result<Self, CodecError>)
        ensures
            r is Ok <==> tx.wf() && wire_decodable::<C>(tx),
            r matches Ok(t) ==> t.matches_wire(tx),
            r matches Err(e) ==> e == CodecError::Decode,
    {
        let old_serial_numbers = deserialize_many_bytes::<C::SerialNumber>(&tx.old_serial_numbers)?;
        let ledger_digest = deserialize_bytes::<C::LedgerDigest>(tx.ledger_digest.as_slice())?;
        let new_commitments = deserialize_many_bytes::<C::Commitment>(&tx.new_commitments)?;
        let program_commitment = deserialize_bytes::<C::ProgramCommitment>(
            tx.program_commitment.as_slice(),
        )?;
        let local_data_root = deserialize_bytes::<C::LocalDataRoot>(tx.local_data_root.as_slice())?;
        let signatures = deserialize_many_bytes::<C::Signature>(&tx.signatures)?;
        if tx.new_records.len() != tx.new_commitments.len() {
            return Err(CodecError::Decode);
        }
        let encrypted_records = deserialize_many_blobs::<C::EncryptedRecord>(&tx.new_records)?;
        let transaction_proof = deserialize_bytes::<C::Proof>(tx.transaction_proof.as_slice())?;
        let memorandum = deserialize_bytes::<C::Memorandum>(tx.memorandum.as_slice())?;
        let inner_circuit_id = deserialize_bytes::<C::InnerCircuitId>(tx.inner_circuit_id.as_slice())?;
        Ok(Transaction {
            network: tx.network,
            ledger_digest,
            old_serial_numbers,
            new_commitments,
            program_commitment,
            local_data_root,
            value_balance: tx.value_balance,
            signatures,
            encrypted_records,
            transaction_proof,
            memorandum,
            inner_circuit_id,
        })
    }

    /// Lowers the transaction into its wire form, with its derived identifier.
    /// Fails with an encode error when the records and commitments differ in
    /// number, or when the writer of a field fails.
    pub fn lower(&self) -> (r: Result<SerialTransaction, CodecError>)
        ensures
            r is Ok <==> self.wf() && self.encodable(),
            r matches Ok(w) ==> self.lowers_to(&w) && w.wf(),
            r matches Err(e) ==> e == CodecError::Encode,
    {
        let old_serial_numbers = serialize_many_digests(&self.old_serial_numbers)?;
        let ledger_digest = serialize_digest(&self.ledger_digest)?;
        let new_commitments = serialize_many_digests(&self.new_commitments)?;
        let program_commitment = serialize_digest(&self.program_commitment)?;
        let local_data_root = serialize_digest(&self.local_data_root)?;
        let signatures = serialize_many_digests(&self.signatures)?;
        if self.encrypted_records.len() != self.new_commitments.len() {
            return Err(CodecError::Encode);
        }
        let new_records = serialize_many_bytes(&self.encrypted_records)?;
        let transaction_proof = serialize_bytes(&self.transaction_proof)?;
        let memorandum = serialize_digest(&self.memorandum)?;
        let inner_circuit_id = serialize_digest(&self.inner_circuit_id)?;
        let mut pre_image: Vec<u8> = Vec::new();
        append_digests(&mut pre_image, &old_serial_numbers);
        append_digests(&mut pre_image, &new_commitments);
        append_bytes(&mut pre_image, memorandum.as_slice());
        assert(pre_image@ =~= self.id_pre_image());
        let id = blake2s(pre_image.as_slice());
        proof {
            assert(new_records@.len() == blobs_view(new_records@).len());
            assert(new_commitments@.len() == digests_view(new_commitments@).len());
            assert(self.encrypted_records@.len() == canonical_seq(self.encrypted_records@).len());
            assert(self.new_commitments@.len() == canonical_seq(self.new_commitments@).len());
        }
        Ok(SerialTransaction {
            id,
            network: self.network,
            ledger_digest,
            old_serial_numbers,
            new_commitments,
            program_commitment,
            local_data_root,
            value_balance: self.value_balance,
            signatures,
            new_records,
            transaction_proof,
            memorandum,
            inner_circuit_id,
        })
    }
}

/// Conversion between the wire form and a domain model.
pub trait VMTransaction: Sized {
    /// Whether `tx` can be lifted.
    spec fn liftable(tx: &SerialTransaction) -> bool;

    /// Whether `self` is what lifting `tx` gives.
    spec fn lifted_from(&self, tx: &SerialTransaction) -> bool;

    /// Whether `self` can be lowered.
    spec fn lowerable(&self) -> bool;

    /// Whether `w` is what lowering `self` gives.
    spec fn lowered_to(&self, w: &SerialTransaction) -> bool;

    /// Lifts a wire transaction into the domain model.
    fn deserialize(tx: &SerialTransaction) -> (r: Result<Self, CodecError>)
        ensures
            r is Ok <==> Self::liftable(tx),
            r matches Ok(t) ==> t.lifted_from(tx),
            r matches Err(e) ==> e == CodecError::Decode,
    ;

    /// Lowers a domain transaction into its wire form.
    fn serialize(&self) -> (r: Result<SerialTransaction, CodecError>)
        ensures
            r is Ok <==> self.lowerable(),
            r matches Ok(w) ==> self.lowered_to(&w) && w.wf(),
            r matches Err(e) ==> e == CodecError::Encode,
    ;
}

impl<C: Components> VMTransaction for Transaction<C> {
    open spec fn liftable(tx: &SerialTransaction) -> bool {
        tx.wf() && wire_decodable::<C>(tx)
    }

    open spec fn lifted_from(&self, tx: &SerialTransaction) -> bool {
        self.matches_wire(tx)
    }

    open spec fn lowerable(&self) -> bool {
        self.wf() && self.encodable()
    }

    open spec fn lowered_to(&self, w: &SerialTransaction) -> bool {
        self.lowers_to(w)
    }

    fn deserialize(tx: &SerialTransaction) -> (r: Result<Self, CodecError>) {
        Self::lift(tx)
    }

    fn serialize(&self) -> (r: Result<SerialTransaction, CodecError>) {
        self.lower()
    }
}

/// What lowering gives can always be lifted: its records match its
/// commitments in number, and every field decodes.
pub proof fn lemma_lowered_liftable<C: Components>(t: &Transaction<C>, w: &SerialTransaction)
    requires
        t.wf(),
        t.matches_wire(w),
    ensures
        w.wf(),
        wire_decodable::<C>(w),
{
    assert(w.new_records@.len() == blobs_view(w.new_records@).len());
    assert(w.new_commitments@.len() == digests_view(w.new_commitments@).len());
    assert(t.encrypted_records@.len() == canonical_seq(t.encrypted_records@).len());
    assert(t.new_commitments@.len() == canonical_seq(t.new_commitments@).len());
    assert(canonical_bytes(&t.ledger_digest) == w.ledger_digest@);
    assert(canonical_bytes(&t.program_commitment) == w.program_commitment@);
    assert(canonical_bytes(&t.local_data_root) == w.local_data_root@);
    assert(canonical_bytes(&t.transaction_proof) == w.transaction_proof@);
    assert(canonical_bytes(&t.memorandum) == w.memorandum@);
    assert(canonical_bytes(&t.inner_circuit_id) == w.inner_circuit_id@);
    let sn = digests_view(w.old_serial_numbers@);
    assert forall|i: int| 0 <= i < sn.len() implies decodable::<C::SerialNumber>(#[trigger] sn[i]) by {
        assert(canonical_bytes(&t.old_serial_numbers@[i]) == canonical_seq(t.old_serial_numbers@)[i]);
    }
    let cm = digests_view(w.new_commitments@);
    assert forall|i: int| 0 <= i < cm.len() implies decodable::<C::Commitment>(#[trigger] cm[i]) by {
        assert(canonical_bytes(&t.new_commitments@[i]) == canonical_seq(t.new_commitments@)[i]);
    }
    let sg = digests_view(w.signatures@);
    assert forall|i: int| 0 <= i < sg.len() implies decodable::<C::Signature>(#[trigger] sg[i]) by {
        assert(canonical_bytes(&t.signatures@[i]) == canonical_seq(t.signatures@)[i]);
    }
    let rc = blobs_view(w.new_records@);
    assert forall|i: int| 0 <= i < rc.len() implies decodable::<C::EncryptedRecord>(#[trigger] rc[i]) by {
        assert(canonical_bytes(&t.encrypted_records@[i]) == canonical_seq(t.encrypted_records@)[i]);
    }
}

/// Two transactions with the same field values lower to the same identifier
/// and the same canonical bytes.
pub proof fn lemma_lowering_deterministic<C: Components>(
    a: &Transaction<C>,
    b: &Transaction<C>,
    wa: &SerialTransaction,
    wb: &SerialTransaction,
)
    requires
        a.same_fields(b),
        a.lowers_to(wa),
        b.lowers_to(wb),
    ensures
        wa.id@ == wb.id@,
        wa.encoding() == wb.encoding(),
{
    lemma_canonical_seq_of_views(a.old_serial_numbers@, b.old_serial_numbers@);
    lemma_canonical_seq_of_views(a.new_commitments@, b.new_commitments@);
    lemma_canonical_seq_of_views(a.signatures@, b.signatures@);
    lemma_canonical_seq_of_views(a.encrypted_records@, b.encrypted_records@);
    assert(a.id_pre_image() == b.id_pre_image());
}

/// Lifting what a transaction lowers to gives back the same field values, and
/// lowering the result again gives the same identifier and canonical bytes.
pub proof fn lemma_round_trip<C: Components>(
    t: &Transaction<C>,
    w: &SerialTransaction,
    t2: &Transaction<C>,
    w2: &SerialTransaction,
)
    requires
        t.lowers_to(w),
        t2.matches_wire(w),
        t2.lowers_to(w2),
    ensures
        t2.same_fields(t),
        w2.id@ == w.id@,
        w2.encoding() == w.encoding(),
{
    C::LedgerDigest::lemma_canonical_injective(t.ledger_digest@, t2.ledger_digest@);
    C::ProgramCommitment::lemma_canonical_injective(t.program_commitment@, t2.program_commitment@);
    C::LocalDataRoot::lemma_canonical_injective(t.local_data_root@, t2.local_data_root@);
    C::Proof::lemma_canonical_injective(t.transaction_proof@, t2.transaction_proof@);
    C::Memorandum::lemma_canonical_injective(t.memorandum@, t2.memorandum@);
    C::InnerCircuitId::lemma_canonical_injective(t.inner_circuit_id@, t2.inner_circuit_id@);
    lemma_canonical_seq_injective(t.old_serial_numbers@, t2.old_serial_numbers@);
    lemma_canonical_seq_injective(t.new_commitments@, t2.new_commitments@);
    lemma_canonical_seq_injective(t.signatures@, t2.signatures@);
    lemma_canonical_seq_injective(t.encrypted_records@, t2.encrypted_records@);
    lemma_lowering_deterministic(t2, t, w2, w);
}

} // verus!
