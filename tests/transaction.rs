use std::mem::size_of;
use snarkos_storage::{
    AleoAmount, CodecError, Components, Digest, Network, SerialTransaction, Transaction, TransactionId,
    VMTransaction,
};

/// A parameter set in which every field is a plain byte string.
struct Raw;

impl Components for Raw {
    type LedgerDigest = Digest;
    type SerialNumber = Digest;
    type Commitment = Digest;
    type ProgramCommitment = Digest;
    type LocalDataRoot = Digest;
    type Signature = Digest;
    type EncryptedRecord = Digest;
    type Proof = Digest;
    type Memorandum = [u8; 32];
    type InnerCircuitId = Digest;
}

fn blake2s(b: &[u8]) -> TransactionId {
    let h = <blake2::Blake2s as blake2::Digest>::digest(b);
    let mut id = [0u8; 32];
    id.copy_from_slice(&h);
    id
}

type RawTransaction = Transaction<Raw>;

fn d(bytes: &[u8]) -> Digest {
    Digest::from_slice(bytes)
}

fn base_transaction() -> SerialTransaction {
    // one fp256 + length and selector flags
    let mut record = vec![0u8; 1 + 1 + 32];
    record[0] = 1u8;
    let test_serial = vec![9u8; 32];
    SerialTransaction {
        id: [0u8; 32],
        network: Network::Testnet1,
        ledger_digest: d(&[0u8; 32]),
        old_serial_numbers: vec![d(&test_serial), d(&test_serial)],
        new_commitments: vec![d(&[3u8; 32]), d(&[5u8; 32])],
        new_records: vec![record.clone(), record],
        program_commitment: d(&[7u8; 32]),
        local_data_root: d(&[8u8; 32]),
        value_balance: AleoAmount(1000),
        signatures: vec![d(&[0u8; 64])],
        transaction_proof: vec![1u8; 579],
        memorandum: d(&[10u8; 32]),
        inner_circuit_id: d(&[1u8; 48]),
    }
}

fn empty_transaction() -> SerialTransaction {
    SerialTransaction {
        id: [0u8; 32],
        network: Network::Mainnet,
        ledger_digest: d(&[1u8; 4]),
        old_serial_numbers: vec![],
        new_commitments: vec![],
        new_records: vec![],
        program_commitment: d(&[2u8; 4]),
        local_data_root: d(&[3u8; 4]),
        value_balance: AleoAmount(0),
        signatures: vec![],
        transaction_proof: vec![],
        memorandum: d(&[4u8; 32]),
        inner_circuit_id: d(&[5u8; 4]),
    }
}

fn to_bytes(tx: &SerialTransaction) -> Vec<u8> {
    let mut out = vec![];
    tx.write_le(&mut out);
    out
}

#[test]
fn transaction_round_trip() {
    let mut base_transaction = base_transaction();

    let deserialized = RawTransaction::deserialize(&base_transaction).unwrap();
    let reserialized = deserialized.serialize().unwrap();
    base_transaction.id = reserialized.id;

    assert_eq!(base_transaction, reserialized);

    assert_eq!(to_bytes(&base_transaction), to_bytes(&reserialized));
}

#[test]
fn identifier_is_derived_from_serials_commitments_and_memorandum() {
    let tx = base_transaction();
    let domain = RawTransaction::lift(&tx).unwrap();
    let first = domain.lower().unwrap();
    let second = domain.lower().unwrap();
    assert_eq!(first.id, second.id);

    let mut pre_image = vec![];
    for s in &tx.old_serial_numbers {
        pre_image.extend_from_slice(s.as_slice());
    }
    for c in &tx.new_commitments {
        pre_image.extend_from_slice(c.as_slice());
    }
    pre_image.extend_from_slice(tx.memorandum.as_slice());
    assert_eq!(first.id, blake2s(&pre_image));
    assert_ne!(first.id, [0u8; 32]);

    // the proof takes no part in the identifier
    let mut other = tx.clone();
    other.transaction_proof = vec![2u8; 579];
    let other_id = RawTransaction::lift(&other).unwrap().lower().unwrap().id;
    assert_eq!(other_id, first.id);

    // the memorandum does
    let mut other = tx.clone();
    other.memorandum = d(&[11u8; 32]);
    let other_id = RawTransaction::lift(&other).unwrap().lower().unwrap().id;
    assert_ne!(other_id, first.id);
}

#[test]
fn lower_lift_lower_is_stable() {
    let tx = base_transaction();
    let domain = RawTransaction::lift(&tx).unwrap();
    assert_eq!(domain.old_serial_numbers.len(), 2);
    assert_eq!(domain.new_commitments.len(), 2);
    assert_eq!(domain.transaction_proof.len(), 579);
    assert_eq!(domain.value_balance, AleoAmount(1000));
    let second = domain.lower().unwrap();
    let third = RawTransaction::lift(&second).unwrap().lower().unwrap();
    assert_eq!(second, third);
    assert_eq!(to_bytes(&second), to_bytes(&third));
}

#[test]
fn empty_transaction_round_trips() {
    let tx = empty_transaction();
    let domain = RawTransaction::lift(&tx).unwrap();
    let lowered = domain.lower().unwrap();
    let mut expected = tx.clone();
    expected.id = lowered.id;
    assert_eq!(lowered, expected);
    // memorandum, ledger digest, inner circuit id, program commitment and
    // local data root, then eight amount bytes and the network byte
    let mut expected_bytes = vec![4u8; 32];
    expected_bytes.extend_from_slice(&[1, 1, 1, 1, 5, 5, 5, 5, 2, 2, 2, 2, 3, 3, 3, 3, 0, 0, 0, 0, 0, 0, 0, 0, 0]);
    assert_eq!(to_bytes(&lowered), expected_bytes);
}

#[test]
fn negative_value_balance_round_trips() {
    let mut tx = base_transaction();
    tx.value_balance = AleoAmount(-123_456_789);
    let lowered = RawTransaction::lift(&tx).unwrap().lower().unwrap();
    assert_eq!(lowered.value_balance, AleoAmount(-123_456_789));
    let bytes = to_bytes(&lowered);
    let start = 2 * 32 + 2 * 32 + 32 + 32 + 48 + 579 + 32 + 32;
    assert_eq!(&bytes[start..start + 8], &(-123_456_789i64).to_le_bytes()[..]);
    assert_eq!(AleoAmount::from_le_bytes(&bytes[start..start + 8]), AleoAmount(-123_456_789));
}

#[test]
fn records_and_commitments_must_match_in_number() {
    let mut tx = base_transaction();
    tx.new_records.pop();
    assert_eq!(RawTransaction::lift(&tx).err(), Some(CodecError::Decode));

    let mut domain = RawTransaction::lift(&base_transaction()).unwrap();
    domain.encrypted_records.push(d(&[1u8; 34]));
    assert_eq!(domain.lower().err(), Some(CodecError::Encode));
}

#[test]
fn malformed_field_fails_to_decode() {
    let mut tx = base_transaction();
    tx.memorandum = d(&[10u8; 31]);
    assert_eq!(RawTransaction::lift(&tx).err(), Some(CodecError::Decode));
    assert!(RawTransaction::lift(&base_transaction()).is_ok());
}

#[test]
fn lowered_records_match_commitments() {
    let lowered = RawTransaction::lift(&base_transaction()).unwrap().lower().unwrap();
    assert_eq!(lowered.new_records.len(), lowered.new_commitments.len());
}

#[test]
fn canonical_layout_order() {
    let tx = SerialTransaction {
        id: [0xffu8; 32],
        network: Network::Custom(9),
        ledger_digest: d(&[4]),
        old_serial_numbers: vec![d(&[1]), d(&[2, 2])],
        new_commitments: vec![d(&[3])],
        new_records: vec![vec![12, 12]],
        program_commitment: d(&[7]),
        local_data_root: d(&[8]),
        value_balance: AleoAmount(258),
        signatures: vec![d(&[11]), d(&[13])],
        transaction_proof: vec![6, 6, 6],
        memorandum: d(&[5]),
        inner_circuit_id: d(&[0]),
    };
    assert_eq!(
        to_bytes(&tx),
        vec![1, 2, 2, 3, 5, 4, 0, 6, 6, 6, 7, 8, 2, 1, 0, 0, 0, 0, 0, 0, 9, 11, 13, 12, 12]
    );
    // appending keeps what was there
    let mut out = vec![42u8];
    tx.write_le(&mut out);
    assert_eq!(out[0], 42);
    assert_eq!(out.len(), 26);
    assert_eq!(tx.to_bytes_le(), to_bytes(&tx));
}

#[test]
fn size_follows_its_formula() {
    let tx = base_transaction();
    let expected = size_of::<SerialTransaction>() + size_of::<Digest>() * (2 + 2 + 1) + 2 * 34 + 579;
    assert_eq!(tx.size(), expected);

    let empty = empty_transaction();
    assert_eq!(empty.size(), size_of::<SerialTransaction>());
}

#[test]
fn size_never_decreases_as_the_transaction_grows() {
    let mut tx = base_transaction();
    let before = tx.size();
    tx.transaction_proof.push(0);
    assert_eq!(tx.size(), before + 1);
    let before = tx.size();
    tx.new_records[0].extend_from_slice(&[1, 2, 3]);
    assert_eq!(tx.size(), before + 3);
    let before = tx.size();
    tx.old_serial_numbers.push(d(&[0u8; 32]));
    assert!(tx.size() > before);
    let before = tx.size();
    tx.new_commitments.push(d(&[0u8; 32]));
    tx.new_records.push(vec![]);
    assert!(tx.size() > before);
}

#[test]
fn network_identifiers() {
    assert_eq!(Network::Mainnet.id(), 0);
    assert_eq!(Network::Testnet1.id(), 1);
    assert_eq!(Network::Testnet2.id(), 2);
    assert_eq!(Network::Custom(7).id(), 7);
    assert_eq!(Network::from_id(1), Network::Testnet1);
    assert_eq!(Network::from_id(200), Network::Custom(200));
}

#[test]
fn amount_bytes_are_little_endian() {
    assert_eq!(AleoAmount(1000).to_le_bytes(), vec![0xe8, 0x03, 0, 0, 0, 0, 0, 0]);
    assert_eq!(AleoAmount(-1).to_le_bytes(), vec![0xff; 8]);
    assert_eq!(AleoAmount::from_le_bytes(&[0xfe, 0xff, 0xff, 0xff, 0xff, 0xff, 0xff, 0xff]), AleoAmount(-2));
    assert_eq!(AleoAmount::from_le_bytes(&AleoAmount(i64::MIN).to_le_bytes()), AleoAmount(i64::MIN));
}

#[test]
fn network_and_amount_encodings_agree_with_the_ledger_library() {
    for id in 0..=255u8 {
        assert_eq!(Network::from_id(id).id(), snarkvm_dpc::Network::from_id(id).id());
    }
    for v in [0i64, 1000, -1000, i64::MIN, i64::MAX] {
        let mut out = vec![];
        snarkvm_utilities::ToBytes::write_le(&snarkvm_dpc::AleoAmount(v), &mut out).unwrap();
        assert_eq!(out, AleoAmount(v).to_le_bytes());
    }
}
