use alloy::consensus::{BlobTransactionSidecar, EnvKzgSettings};
use alloy::eips::eip4844::utils::bytes_to_blob;
use alloy::primitives::B256;
use blob_codec::blob::{
    commitment_outcome, create_blob_from_data, create_blob_sidecar_from_data_blocking,
    create_blobs_from_data, BlobError,
};
use blob_codec::layout::{BYTES_PER_BLOB, MAX_BLOB_DATA_SIZE};

fn payload(len: usize) -> Vec<u8> {
    (0..len).map(|i| (i * 29 + 3) as u8).collect()
}

/// Whether the commitments and proofs of `sidecar` belong to its blobs.
fn proofs_hold(sidecar: &BlobTransactionSidecar) -> bool {
    let hashes: Vec<B256> = sidecar.versioned_hashes().collect();
    sidecar.validate(&hashes, EnvKzgSettings::Default.get()).is_ok()
}

#[test]
fn sidecar_of_a_short_payload_holds_its_one_blob() {
    let data = payload(1000);
    let sidecar = create_blob_sidecar_from_data_blocking(&data).unwrap();
    assert_eq!(sidecar.blobs.len(), 1);
    assert_eq!(sidecar.commitments.len(), 1);
    assert_eq!(sidecar.proofs.len(), 1);
    let blob = create_blob_from_data(&data).unwrap();
    assert_eq!(sidecar.blobs[0].len(), BYTES_PER_BLOB);
    assert!(sidecar.blobs[0].as_slice() == &blob[..]);
    assert!(proofs_hold(&sidecar));
}

#[test]
fn sidecar_of_two_chunks_keeps_their_order() {
    let data = payload(MAX_BLOB_DATA_SIZE + 5);
    let sidecar = create_blob_sidecar_from_data_blocking(&data).unwrap();
    let blobs = create_blobs_from_data(&data).unwrap();
    assert_eq!(sidecar.blobs.len(), 2);
    assert_eq!(sidecar.commitments.len(), 2);
    assert_eq!(sidecar.proofs.len(), 2);
    assert!(sidecar.blobs[0].as_slice() == &blobs[0][..]);
    assert!(sidecar.blobs[1].as_slice() == &blobs[1][..]);
    assert_ne!(sidecar.commitments[0], sidecar.commitments[1]);
    assert!(proofs_hold(&sidecar));
}

#[test]
fn sidecar_of_the_empty_payload_is_empty() {
    let sidecar = create_blob_sidecar_from_data_blocking(&[]).unwrap();
    assert!(sidecar.blobs.is_empty());
    assert!(sidecar.commitments.is_empty());
    assert!(sidecar.proofs.is_empty());
}

#[test]
fn all_ones_payload_is_accepted_by_the_commitment_engine() {
    let data = vec![0xFFu8; MAX_BLOB_DATA_SIZE];
    let sidecar = create_blob_sidecar_from_data_blocking(&data).unwrap();
    assert_eq!(sidecar.blobs.len(), 1);
    assert!(proofs_hold(&sidecar));
}

#[test]
fn same_payload_gives_the_same_sidecar() {
    let data = payload(4321);
    let first = create_blob_sidecar_from_data_blocking(&data).unwrap();
    let second = create_blob_sidecar_from_data_blocking(&data).unwrap();
    assert_eq!(first, second);
    let other = create_blob_sidecar_from_data_blocking(&payload(4322)).unwrap();
    assert_ne!(first.commitments, other.commitments);
}

#[test]
fn commitment_outcome_passes_a_sidecar_through() {
    let sidecar = create_blob_sidecar_from_data_blocking(&payload(10)).unwrap();
    let out = commitment_outcome(Ok(sidecar.clone())).unwrap();
    assert_eq!(out, sidecar);
}

#[test]
fn commitment_outcome_wraps_the_engine_error() {
    // three bytes are no blob
    let refused = bytes_to_blob([1u8, 2, 3]).unwrap_err();
    let message = refused.to_string();
    match commitment_outcome(Err(refused)) {
        Err(BlobError::KZGError(e)) => assert_eq!(e.to_string(), message),
        other => panic!("expected KZGError, got {other:?}"),
    }
}
