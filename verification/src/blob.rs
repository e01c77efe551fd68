//! Packing a payload into blobs.

use crate::layout::{
    blob_byte, blob_of, blobs_of, byte_or_zero, chunk_count, chunk_of, cursor_at, declared_len,
    is_canonical_blob, lemma_blob_byte_in_row, lemma_blob_is_canonical, lemma_blob_tail_is_zero,
    lemma_blobs_carry_chunks,
    lemma_header_recoverable, lemma_lead_byte_six_bits, lemma_payload_recoverable, payload_of,
    row_byte, stream_byte, BYTES_PER_BLOB, ENCODING_VERSION, MAX_BLOB_DATA_SIZE, ROUNDS,
};
use crate::trusted::{
    blob_from_bytes, blob_view, blob_views, bytes_from_array, bytes_view, bytes_views,
    kzg_commitments_and_proofs, sidecar_blobs, sidecar_commitments, sidecar_from_blobs,
    sidecar_proofs,
};
use alloy::consensus::{Blob, BlobTransactionSidecar};
use alloy::eips::eip4844::c_kzg;
use alloy::primitives::Bytes;
use tokio::task::JoinError;
use vstd::prelude::*;

verus! {

/// Worker threads that a pool for encoding jobs runs. A job that finds them all
/// busy waits.
pub const BLOB_WORKERS: usize = 2;

/// Stack size of such a worker thread in bytes, 8 MiB. The commitment engine
/// needs more than the 2 MiB that a thread gets by default.
pub const BLOB_WORKER_STACK_SIZE: usize = 8388608;

/// What can go wrong between a payload and its sidecar.
#[derive(Debug)]
pub enum BlobError {
    /// More bytes were given to one blob than it can carry.
    InputTooLarge(usize),
    /// Bytes were left over after the last row of the blob was written.
    DataDidNotFit { read_offset: usize, data_len: usize },
    /// The commitment engine refused the blobs.
    KZGError(c_kzg::Error),
    /// The worker that ran the job did not finish it.
    ThreadPanicked(JoinError),
}

/// Reads the byte under the cursor and moves the cursor past it. Past the end
/// of `data` the byte is zero and the cursor stays.
pub fn read_one_byte(data: &[u8], read_offset: &mut usize) -> (b: u8)
    ensures
        b == byte_or_zero(data@, *old(read_offset) as int),
        *final(read_offset) == if *old(read_offset) < data@.len() {
            *old(read_offset) + 1
        } else {
            *old(read_offset) as int
        },
{
    if *read_offset < data.len() {
        let b = data[*read_offset];
        *read_offset += 1;
        b
    } else {
        0
    }
}

/// Reads the 31 bytes under the cursor and moves the cursor past those that
/// `data` still has. Bytes past the end of `data` are zero.
pub fn read_31_bytes(data: &[u8], read_offset: &mut usize) -> (buf: [u8; 31])
    ensures
        forall|j: int| 0 <= j < 31 ==> #[trigger] buf[j] == byte_or_zero(data@, *old(read_offset) + j),
        *final(read_offset) == if *old(read_offset) + 31 <= data@.len() {
            *old(read_offset) + 31
        } else if *old(read_offset) < data@.len() {
            data@.len() as int
        } else {
            *old(read_offset) as int
        },
{
    let mut buf = [0u8; 31];
    if *read_offset < data.len() {
        let start: usize = *read_offset;
        let left: usize = data.len() - start;
        let n: usize = if left < 31 { left } else { 31 };
        let mut j: usize = 0;
        while j < n
            invariant
                j <= n <= 31,
                start + n <= data.len(),
                data.len() == data@.len(),
                forall|k: int| 0 <= k < j ==> #[trigger] buf[k] == data@[start + k],
                forall|k: int| j <= k < 31 ==> #[trigger] buf[k] == 0,
            decreases n - j,
        {
            buf[j] = data[start + j];
            j += 1;
        }
        *read_offset = start + n;
    }
    buf
}

/// Writes the lead byte of a field element and moves the cursor past it. The
/// cursor has to stand at the start of a field element, and the byte has to
/// leave its two high bits clear.
fn write_one_byte(out: &mut [u8; BYTES_PER_BLOB], write_offset: &mut usize, v: u8)
    requires
        *old(write_offset) < BYTES_PER_BLOB,
        *old(write_offset) % 32 == 0,
        v & 0xC0 == 0,
    ensures
        *final(write_offset) == *old(write_offset) + 1,
        final(out)@ == old(out)@.update(*old(write_offset) as int, v),
{
    out[*write_offset] = v;
    *write_offset += 1;
}

/// Writes the 31 carrier bytes of a field element and moves the cursor past
/// them. The cursor has to stand right behind the lead byte.
fn write_31_bytes(out: &mut [u8; BYTES_PER_BLOB], write_offset: &mut usize, buf: &[u8; 31])
    requires
        *old(write_offset) + 31 <= BYTES_PER_BLOB,
        *old(write_offset) % 32 == 1,
    ensures
        *final(write_offset) == *old(write_offset) + 31,
        forall|i: int|
            0 <= i < BYTES_PER_BLOB ==> #[trigger] final(out)[i] == if *old(write_offset) <= i
                < *old(write_offset) + 31 {
                buf[i - *old(write_offset)]
            } else {
                old(out)[i]
            },
{
    let start: usize = *write_offset;
    let mut j: usize = 0;
    while j < 31
        invariant
            j <= 31,
            start + 31 <= BYTES_PER_BLOB,
            forall|i: int|
                0 <= i < BYTES_PER_BLOB ==> #[trigger] out[i] == if start <= i < start + j {
                    buf[i - start]
                } else {
                    old(out)[i]
                },
        decreases 31 - j,
    {
        out[start + j] = buf[j];
        j += 1;
    }
    *write_offset = start + 31;
}

/// One more field element is in place: `after` is `before` with the 32 bytes
/// of element `e` of row `row` written, and those are the bytes that the layout
/// asks for.
proof fn lemma_element_written(
    data: Seq<u8>,
    before: Seq<u8>,
    after: Seq<u8>,
    row: int,
    e: int,
    lead: u8,
    buf: Seq<u8>,
)
    requires
        0 <= row < ROUNDS,
        0 <= e < 4,
        before.len() == BYTES_PER_BLOB,
        after.len() == BYTES_PER_BLOB,
        buf.len() == 31,
        forall|i: int| 0 <= i < 128 * row + 32 * e ==> #[trigger] before[i] == blob_byte(data, i),
        forall|i: int| 128 * row + 32 * e <= i < BYTES_PER_BLOB ==> #[trigger] before[i] == 0,
        after[128 * row + 32 * e] == lead,
        forall|j: int| 0 <= j < 31 ==> after[128 * row + 32 * e + 1 + j] == #[trigger] buf[j],
        forall|i: int|
            0 <= i < BYTES_PER_BLOB && !(128 * row + 32 * e <= i < 128 * row + 32 * e + 32)
                ==> #[trigger] after[i] == before[i],
        lead == row_byte(data, row, e, 0),
        forall|j: int| 0 <= j < 31 ==> #[trigger] buf[j] == row_byte(data, row, e, j + 1),
    ensures
        forall|i: int|
            0 <= i < 128 * row + 32 * e + 32 ==> #[trigger] after[i] == blob_byte(data, i),
        forall|i: int|
            128 * row + 32 * e + 32 <= i < BYTES_PER_BLOB ==> #[trigger] after[i] == 0,
{
    let at = 128 * row + 32 * e;
    assert forall|i: int| 0 <= i < at + 32 implies #[trigger] after[i] == blob_byte(data, i) by {
        if i >= at {
            let j = i - at;
            lemma_blob_byte_in_row(data, row, e, j);
            if j > 0 {
                assert(after[at + 1 + (j - 1)] == buf[j - 1]);
            }
        }
    }
}

/// Packs `data` into one blob.
///
/// The blob is written in 1024 rounds of four field elements. A round reads up
/// to 127 bytes: 31 for each of the four carriers, and three more, `x`, `y` and
/// `z`, whose bits go into the four lead bytes. In the first round the first
/// carrier starts with the version and the length of `data`. Reads past the end
/// of `data` give zero.
///
/// Fails with `InputTooLarge` when `data` has more than `MAX_BLOB_DATA_SIZE`
/// bytes, and on no other input.
pub fn create_blob_from_data(data: &[u8]) -> (r: Result<Bytes, BlobError>)
    ensures
        data@.len() <= MAX_BLOB_DATA_SIZE ==> (r matches Ok(blob) && bytes_view(blob) == blob_of(
            data@,
        )),
        data@.len() > MAX_BLOB_DATA_SIZE ==> (r matches Err(BlobError::InputTooLarge(len)) && len
            == data@.len()),
        r matches Ok(blob) ==> {
            &&& bytes_view(blob).len() == BYTES_PER_BLOB
            &&& is_canonical_blob(bytes_view(blob))
            &&& bytes_view(blob)[1] == ENCODING_VERSION
            &&& declared_len(bytes_view(blob)) == data@.len()
            &&& payload_of(bytes_view(blob)) == data@
        },
{
    let mut out = [0u8; BYTES_PER_BLOB];

    if data.len() > MAX_BLOB_DATA_SIZE {
        return Err(BlobError::InputTooLarge(data.len()));
    }
    let mut read_offset: usize = 0;
    let mut write_offset: usize = 0;
    let mut round: usize = 0;

    // Process the input data in rounds.
    while round < ROUNDS && read_offset < data.len()
        invariant
            round <= ROUNDS,
            data.len() == data@.len(),
            data@.len() <= MAX_BLOB_DATA_SIZE,
            write_offset == 128 * round,
            read_offset == cursor_at(data@.len(), 127 * round),
            forall|i: int| 0 <= i < write_offset ==> #[trigger] out[i] == blob_byte(data@, i),
            forall|i: int| write_offset <= i < BYTES_PER_BLOB ==> #[trigger] out[i] == 0,
        decreases ROUNDS - round,
    {
        let ghost row = round as int;
        let ghost base = 127 * row;
        let ghost before = out@;

        // First field element: the low six bits of x.
        let buf = if round == 0 {
            first_carrier(data, &mut read_offset)
        } else {
            read_31_bytes(data, &mut read_offset)
        };
        let x = read_one_byte(data, &mut read_offset);
        let six_bits_of_x = x & 0b0011_1111;
        proof {
            assert(x == stream_byte(data@, base + 31));
            lemma_lead_byte_six_bits(0, x, 0, 0);
        }
        write_one_byte(&mut out, &mut write_offset, six_bits_of_x);
        write_31_bytes(&mut out, &mut write_offset, &buf);
        proof {
            lemma_element_written(data@, before, out@, row, 0, six_bits_of_x, buf@);
        }

        // Second field element: the low nibble of y and the two high bits of x.
        let ghost before = out@;
        let buf = read_31_bytes(data, &mut read_offset);
        let y = read_one_byte(data, &mut read_offset);
        let b = (y & 0b0000_1111) | ((x & 0b1100_0000) >> 2);
        proof {
            assert(y == stream_byte(data@, base + 63));
            lemma_lead_byte_six_bits(1, x, y, 0);
        }
        write_one_byte(&mut out, &mut write_offset, b);
        write_31_bytes(&mut out, &mut write_offset, &buf);
        proof {
            lemma_element_written(data@, before, out@, row, 1, b, buf@);
        }

        // Third field element: the low six bits of z.
        let ghost before = out@;
        let buf = read_31_bytes(data, &mut read_offset);
        let z = read_one_byte(data, &mut read_offset);
        let six_bits_of_z = z & 0b0011_1111;
        proof {
            assert(z == stream_byte(data@, base + 95));
            lemma_lead_byte_six_bits(2, 0, 0, z);
        }
        write_one_byte(&mut out, &mut write_offset, six_bits_of_z);
        write_31_bytes(&mut out, &mut write_offset, &buf);
        proof {
            lemma_element_written(data@, before, out@, row, 2, six_bits_of_z, buf@);
        }

        // Fourth field element: the two high bits of z and the high nibble of y.
        let ghost before = out@;
        let buf = read_31_bytes(data, &mut read_offset);
        let d = ((z & 0b1100_0000) >> 2) | ((y & 0b1111_0000) >> 4);
        proof {
            lemma_lead_byte_six_bits(3, 0, y, z);
        }
        write_one_byte(&mut out, &mut write_offset, d);
        write_31_bytes(&mut out, &mut write_offset, &buf);
        proof {
            lemma_element_written(data@, before, out@, row, 3, d, buf@);
        }

        round += 1;
    }

    if read_offset < data.len() {
        return Err(BlobError::DataDidNotFit { read_offset, data_len: data.len() });
    }
    proof {
        assert forall|i: int| 0 <= i < BYTES_PER_BLOB implies #[trigger] out[i] == blob_byte(
            data@,
            i,
        ) by {
            if i >= write_offset {
                lemma_blob_tail_is_zero(data@, round as int, i);
            }
        }
        assert(out@ =~= blob_of(data@));
        lemma_blob_is_canonical(data@);
        lemma_header_recoverable(data@);
        lemma_payload_recoverable(data@);
    }
    Ok(bytes_from_array(out))
}

/// The first carrier of a blob: the version, the length of `data` in three
/// bytes, and the first 27 bytes of `data`.
fn first_carrier(data: &[u8], read_offset: &mut usize) -> (buf: [u8; 31])
    requires
        *old(read_offset) == 0,
        data@.len() <= MAX_BLOB_DATA_SIZE,
    ensures
        forall|j: int| 0 <= j < 31 ==> #[trigger] buf[j] == stream_byte(data@, j),
        *final(read_offset) == cursor_at(data@.len(), 31),
{
    let mut buf = [0u8; 31];
    buf[0] = ENCODING_VERSION;
    let ilen = data.len() as u32;
    buf[1] = ((ilen >> 16) & 0xFF) as u8;
    buf[2] = ((ilen >> 8) & 0xFF) as u8;
    buf[3] = (ilen & 0xFF) as u8;
    proof {
        assert(((ilen >> 16) & 0xFF) == (ilen / 65536) % 256) by (bit_vector);
        assert(((ilen >> 8) & 0xFF) == (ilen / 256) % 256) by (bit_vector);
        assert((ilen & 0xFF) == ilen % 256) by (bit_vector);
    }

    // Copy as many bytes as possible into buf starting at index 4.
    let available: usize = 31 - 4;
    let left: usize = data.len() - *read_offset;
    let n: usize = if left < available { left } else { available };
    let mut j: usize = 0;
    while j < n
        invariant
            j <= n <= 27,
            n <= data.len(),
            data.len() == data@.len(),
            forall|k: int| 0 <= k < 4 ==> #[trigger] buf[k] == stream_byte(data@, k),
            forall|k: int| 4 <= k < 4 + j ==> #[trigger] buf[k] == data@[k - 4],
            forall|k: int| 4 + j <= k < 31 ==> #[trigger] buf[k] == 0,
        decreases n - j,
    {
        buf[4 + j] = data[j];
        j += 1;
    }
    *read_offset += n;
    buf
}

/// Cuts `data` into chunks of `MAX_BLOB_DATA_SIZE` bytes, the last one as long
/// as what is left, and packs each chunk into a blob. The blobs stand in the
/// order of the chunks. No payload is refused: the empty one gives no blob.
pub fn create_blobs_from_data(data: &[u8]) -> (r: Result<Vec<Bytes>, BlobError>)
    ensures
        r matches Ok(blobs) && bytes_views(blobs@) == blobs_of(data@),
        r matches Ok(blobs) ==> {
            &&& blobs@.len() == chunk_count(data@.len())
            &&& forall|i: int|
                0 <= i < blobs@.len() ==> bytes_view(#[trigger] blobs@[i]) == blob_of(
                    chunk_of(data@, i),
                )
        },
{
    let mut blobs: Vec<Bytes> = Vec::new();
    let mut start: usize = 0;
    while start < data.len()
        invariant
            data.len() == data@.len(),
            start <= data.len(),
            start == data.len() || start == blobs@.len() * MAX_BLOB_DATA_SIZE,
            blobs@.len() == chunk_count(start as nat),
            forall|i: int|
                0 <= i < blobs@.len() ==> bytes_view(#[trigger] blobs@[i]) == blob_of(
                    chunk_of(data@, i),
                ),
        decreases data.len() - start,
    {
        let left: usize = data.len() - start;
        let n: usize = if left < MAX_BLOB_DATA_SIZE { left } else { MAX_BLOB_DATA_SIZE };
        let chunk = &data[start..start + n];
        assert(chunk@ == chunk_of(data@, blobs@.len() as int));
        match create_blob_from_data(chunk) {
            Ok(blob) => blobs.push(blob),
            Err(e) => return Err(e),
        }
        start += n;
    }
    assert(bytes_views(blobs@) =~= blobs_of(data@));
    Ok(blobs)
}

/// What the caller gets once the commitment engine has answered: the sidecar
/// as it came, or the engine's error as a `KZGError`.
pub fn commitment_outcome(outcome: Result<BlobTransactionSidecar, c_kzg::Error>) -> (r: Result<
    BlobTransactionSidecar,
    BlobError,
>)
    ensures
        r == match outcome {
            Ok(sidecar) => Ok::<BlobTransactionSidecar, BlobError>(sidecar),
            Err(e) => Err(BlobError::KZGError(e)),
        },
{
    match outcome {
        Ok(sidecar) => Ok(sidecar),
        Err(e) => Err(BlobError::KZGError(e)),
    }
}

/// What the caller gets once the worker has let go of a job: the job's own
/// result, or `ThreadPanicked` where the worker did not finish it.
pub fn job_outcome(joined: Result<Result<BlobTransactionSidecar, BlobError>, JoinError>) -> (r:
    Result<BlobTransactionSidecar, BlobError>)
    ensures
        r == match joined {
            Ok(result) => result,
            Err(e) => Err(BlobError::ThreadPanicked(e)),
        },
{
    match joined {
        Ok(result) => result,
        Err(e) => Err(BlobError::ThreadPanicked(e)),
    }
}

/// Packs `data` into blobs and has the commitment engine make a sidecar of
/// them. The call returns when the sidecar is made.
///
/// The engine is handed the blobs of `data`, one for each chunk and in their
/// order, every one of them canonical. The call succeeds exactly when the
/// engine accepts these blobs, and the sidecar then holds them with the
/// engine's commitment and proof for each. The only error is the engine's. The
/// empty payload gives the empty sidecar.
pub fn create_blob_sidecar_from_data_blocking(data: &[u8]) -> (r: Result<
    BlobTransactionSidecar,
    BlobError,
>)
    ensures
        r is Ok <==> kzg_commitments_and_proofs(blobs_of(data@)) is Some,
        r matches Ok(sidecar) ==> {
            &&& sidecar_blobs(sidecar) == blobs_of(data@)
            &&& kzg_commitments_and_proofs(blobs_of(data@)) == Some(
                (sidecar_commitments(sidecar), sidecar_proofs(sidecar)),
            )
            &&& sidecar_commitments(sidecar).len() == chunk_count(data@.len())
            &&& sidecar_proofs(sidecar).len() == chunk_count(data@.len())
        },
        r matches Err(e) ==> e is KZGError,
        data@.len() == 0 ==> r is Ok,
        forall|i: int|
            0 <= i < chunk_count(data@.len()) ==> is_canonical_blob(#[trigger] blobs_of(data@)[i]),
{
    // Split the input data into chunks of `MAX_BLOB_DATA_SIZE` and encode each chunk into a blob
    let blobs = match create_blobs_from_data(data) {
        Ok(blobs) => blobs,
        Err(e) => return Err(e),
    };

    let mut converted: Vec<Blob> = Vec::new();
    let mut i: usize = 0;
    while i < blobs.len()
        invariant
            i <= blobs@.len(),
            blobs@.len() == chunk_count(data@.len()),
            forall|k: int|
                0 <= k < blobs@.len() ==> bytes_view(#[trigger] blobs@[k]) == blob_of(
                    chunk_of(data@, k),
                ),
            converted@.len() == i,
            forall|k: int| 0 <= k < i ==> blob_view(#[trigger] converted@[k]) == blobs_of(data@)[k],
        decreases blobs@.len() - i,
    {
        // every blob has the size that the engine asks for, so none is refused here
        assert(bytes_view(blobs@[i as int]).len() == BYTES_PER_BLOB);
        match blob_from_bytes(&blobs[i]) {
            Ok(blob) => converted.push(blob),
            Err(e) => {
                assert(false);
                return Err(BlobError::KZGError(e));
            },
        }
        i += 1;
    }
    proof {
        assert(blob_views(converted@) =~= blobs_of(data@));
        lemma_blobs_carry_chunks(data@);
    }

    // Create a sidecar from the blobs (blocking)
    commitment_outcome(sidecar_from_blobs(converted))
}

} // verus!
