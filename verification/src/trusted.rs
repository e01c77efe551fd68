//! What this library believes of `alloy`, `flate2`, `tokio` and `std::io`
//! without proof.
//!
//! The types below are opaque to the verifier. What such a value holds is named
//! by a spec function without a body, and the few calls that the library makes
//! into `alloy` and `flate2` stand in small functions whose contracts say, over
//! those names, what the called code does.

use crate::layout::BYTES_PER_BLOB;
use alloy::consensus::{Blob, BlobTransactionSidecar, EnvKzgSettings};
use alloy::eips::eip4844::c_kzg;
use alloy::eips::eip4844::utils::bytes_to_blob;
use alloy::primitives::Bytes;
use flate2::write::ZlibEncoder;
use flate2::Compression;
use std::io::Write;
use vstd::prelude::*;

verus! {

/// `alloy::primitives::Bytes`: a cheaply cloneable byte buffer.
#[verifier::external_type_specification]
#[verifier::external_body]
pub struct ExBytes(alloy::primitives::Bytes);

/// `alloy::primitives::FixedBytes`: a byte array of fixed length. A blob in the
/// form that the commitment engine takes is a `FixedBytes<131072>`.
#[verifier::external_type_specification]
#[verifier::external_body]
pub struct ExFixedBytes<const N: usize>(alloy::primitives::FixedBytes<N>);

/// `alloy::consensus::BlobTransactionSidecar`: blobs with one commitment and
/// one proof for each.
#[verifier::external_type_specification]
#[verifier::external_body]
pub struct ExBlobTransactionSidecar(alloy::consensus::BlobTransactionSidecar);

/// `c_kzg::Error`, as `alloy` hands it on: why the commitment engine refused.
#[verifier::external_type_specification]
#[verifier::external_body]
pub struct ExKzgError(alloy::eips::eip4844::c_kzg::Error);

/// `tokio::task::JoinError`: a task that did not run to its end.
#[verifier::external_type_specification]
#[verifier::external_body]
pub struct ExJoinError(tokio::task::JoinError);

/// `std::io::Error`: why a reader or writer gave up.
#[verifier::external_type_specification]
#[verifier::external_body]
pub struct ExIoError(std::io::Error);

/// The bytes that `b` holds, in order.
pub uninterp spec fn bytes_view(b: Bytes) -> Seq<u8>;

/// The 131072 bytes of `blob`, in order.
pub uninterp spec fn blob_view(blob: Blob) -> Seq<u8>;

/// The blobs of `sidecar`, each as its bytes, in order.
pub uninterp spec fn sidecar_blobs(sidecar: BlobTransactionSidecar) -> Seq<Seq<u8>>;

/// The commitments of `sidecar`, each as its 48 bytes, in order.
pub uninterp spec fn sidecar_commitments(sidecar: BlobTransactionSidecar) -> Seq<Seq<u8>>;

/// The proofs of `sidecar`, each as its 48 bytes, in order.
pub uninterp spec fn sidecar_proofs(sidecar: BlobTransactionSidecar) -> Seq<Seq<u8>>;

/// What the commitment engine answers for `blobs` under the main network's
/// trusted setup: the commitments and the proofs, one of each for every blob,
/// or nothing where it refuses the blobs.
pub uninterp spec fn kzg_commitments_and_proofs(blobs: Seq<Seq<u8>>) -> Option<
    (Seq<Seq<u8>>, Seq<Seq<u8>>),
>;

/// The zlib stream that the encoder of `flate2` makes of `input` at its default
/// level, or nothing where the encoder gives up.
pub uninterp spec fn zlib_stream(input: Seq<u8>) -> Option<Seq<u8>>;

/// The buffers of `buffers`, each as its bytes.
pub open spec fn bytes_views(buffers: Seq<Bytes>) -> Seq<Seq<u8>> {
    Seq::new(buffers.len(), |i: int| bytes_view(buffers[i]))
}

/// The blobs of `blobs`, each as its bytes.
pub open spec fn blob_views(blobs: Seq<Blob>) -> Seq<Seq<u8>> {
    Seq::new(blobs.len(), |i: int| blob_view(blobs[i]))
}

/// Calls `Bytes::from` on an array. The buffer that comes back holds the
/// array's bytes: the source copies them into a vector and wraps it.
#[verifier::external_body]
pub(crate) fn bytes_from_array(bytes: [u8; BYTES_PER_BLOB]) -> (b: Bytes)
    ensures
        bytes_view(b) == bytes@,
{
    Bytes::from(bytes)
}

/// Calls `Bytes::from` on a vector. The buffer that comes back holds the
/// vector's bytes: the source wraps the vector as it is.
#[verifier::external_body]
pub(crate) fn bytes_from_vec(bytes: Vec<u8>) -> (b: Bytes)
    ensures
        bytes_view(b) == bytes@,
{
    Bytes::from(bytes)
}

/// Makes a `flate2::write::ZlibEncoder` over an empty vector at
/// `Compression::default()`, writes all of `input` to it and calls `finish`.
/// The vector that comes back holds the finished zlib stream. What the stream
/// is, and whether the encoder gives up, rests on `input` alone.
#[verifier::external_body]
pub(crate) fn zlib_encode(input: &[u8]) -> (r: Result<Vec<u8>, std::io::Error>)
    ensures
        r is Ok <==> zlib_stream(input@) is Some,
        r matches Ok(stream) ==> zlib_stream(input@) == Some(stream@),
{
    let mut encoder = ZlibEncoder::new(Vec::new(), Compression::default());
    encoder.write_all(input)?;
    encoder.finish()
}

/// Calls `alloy::eips::eip4844::utils::bytes_to_blob`. The source copies the
/// bytes into a blob when there are exactly 131072 of them, and answers
/// `InvalidBytesLength` for any other count.
#[verifier::external_body]
pub(crate) fn blob_from_bytes(bytes: &Bytes) -> (r: Result<Blob, c_kzg::Error>)
    ensures
        r is Ok <==> bytes_view(*bytes).len() == BYTES_PER_BLOB,
        r matches Ok(blob) ==> blob_view(blob) == bytes_view(*bytes),
{
    bytes_to_blob(bytes)
}

/// Calls `BlobTransactionSidecar::try_from_blobs_with_settings` with the
/// settings of `EnvKzgSettings::Default`, the main network's trusted setup.
/// For each blob the source computes a commitment and a proof, and gives up
/// with the engine's error at the first blob for which either fails. Whether
/// the engine accepts, and what it computes, rests on the blobs alone. A
/// sidecar that comes back holds the blobs as they were given, with the
/// engine's commitment and proof for each: as many of either as there are
/// blobs. With no blob there is nothing for the engine to refuse. The engine
/// also gives up when it cannot get the memory it works in; that is left aside
/// here, as running out of memory is everywhere else.
#[verifier::external_body]
pub(crate) fn sidecar_from_blobs(blobs: Vec<Blob>) -> (r: Result<
    BlobTransactionSidecar,
    c_kzg::Error,
>)
    ensures
        r is Ok <==> kzg_commitments_and_proofs(blob_views(blobs@)) is Some,
        r matches Ok(sidecar) ==> {
            &&& sidecar_blobs(sidecar) == blob_views(blobs@)
            &&& kzg_commitments_and_proofs(blob_views(blobs@)) == Some(
                (sidecar_commitments(sidecar), sidecar_proofs(sidecar)),
            )
            &&& sidecar_commitments(sidecar).len() == blobs@.len()
            &&& sidecar_proofs(sidecar).len() == blobs@.len()
        },
        blobs@.len() == 0 ==> r is Ok,
{
    BlobTransactionSidecar::try_from_blobs_with_settings(blobs, EnvKzgSettings::Default.get())
}

} // verus!
