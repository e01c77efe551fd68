//! The byte layout of a blob, stated as mathematics.
//!
//! A blob is 4096 field elements of 32 bytes. Each field element is a big-endian
//! integer that has to stay below the scalar-field modulus, so its first byte
//! (the *lead byte*) may only use its low six bits. The other 31 bytes (the
//! *carrier*) are free.
//!
//! The payload is laid out over 1024 rows of four field elements. A row takes
//! 127 bytes of the *stream* (a four-byte header, the payload, then zeros):
//! 4 x 31 bytes fill the four carriers, and the remaining three bytes `x`, `y`,
//! `z` are cut into 6 + 6 + 6 + 6 bits and spread over the four lead bytes.

use vstd::prelude::*;

verus! {

/// The only encoding version there is.
pub const ENCODING_VERSION: u8 = 0;

/// Rows of four field elements in one blob.
pub const ROUNDS: usize = 1024;

/// Size of a blob in bytes: 4096 field elements of 32 bytes.
pub const BYTES_PER_BLOB: usize = 131072;

/// The largest payload one blob can carry, `(4 * 31 + 3) * 1024 - 4`:
/// - 4 carriers of 31 bytes per row, and 3 more bytes in the lead bytes,
/// - times 1024 rows,
/// - less 1 byte for the version and 3 bytes for the length.
pub const MAX_BLOB_DATA_SIZE: usize = 130044;

/// `data[n]`, or zero where `n` is past the end.
pub open spec fn byte_or_zero(data: Seq<u8>, n: int) -> u8 {
    if 0 <= n < data.len() {
        data[n]
    } else {
        0
    }
}

/// Header byte `n` (of 4) for a payload of `len` bytes: the version, then the
/// length as a 24-bit big-endian number.
pub open spec fn header_byte(len: nat, n: int) -> u8 {
    if n == 0 {
        ENCODING_VERSION
    } else if n == 1 {
        ((len / 65536) % 256) as u8
    } else if n == 2 {
        ((len / 256) % 256) as u8
    } else {
        (len % 256) as u8
    }
}

/// Byte `n` of the stream that is packed into the blob: the header, the payload,
/// and zeros without end.
pub open spec fn stream_byte(data: Seq<u8>, n: int) -> u8 {
    if 0 <= n < 4 {
        header_byte(data.len(), n)
    } else {
        byte_or_zero(data, n - 4)
    }
}

/// The lead byte of field element `e` (0 to 3) of a row whose three spread
/// bytes are `x`, `y` and `z`.
///
/// Elements 0 and 2 keep the low six bits of `x` and `z`. Element 1 keeps the
/// low nibble of `y` and takes the two high bits of `x`; element 3 takes the two
/// high bits of `z` and the high nibble of `y`.
pub open spec fn lead_byte(e: int, x: u8, y: u8, z: u8) -> u8 {
    if e == 0 {
        x & 0x3F
    } else if e == 1 {
        (y & 0x0F) | ((x & 0xC0) >> 2)
    } else if e == 2 {
        z & 0x3F
    } else {
        ((z & 0xC0) >> 2) | ((y & 0xF0) >> 4)
    }
}

/// Byte `j` (0 to 31) of field element `e` (0 to 3) of row `row`.
pub open spec fn row_byte(data: Seq<u8>, row: int, e: int, j: int) -> u8 {
    let base = 127 * row;
    if j == 0 {
        lead_byte(
            e,
            stream_byte(data, base + 31),
            stream_byte(data, base + 63),
            stream_byte(data, base + 95),
        )
    } else {
        stream_byte(data, base + 32 * e + j - 1)
    }
}

/// Byte `i` of the blob that carries `data`.
pub open spec fn blob_byte(data: Seq<u8>, i: int) -> u8 {
    row_byte(data, i / 128, (i % 128) / 32, i % 32)
}

/// The blob that carries `data`.
pub open spec fn blob_of(data: Seq<u8>) -> Seq<u8> {
    Seq::new(BYTES_PER_BLOB as nat, |i: int| blob_byte(data, i))
}

/// How many chunks a payload of `len` bytes is cut into: as many full chunks
/// as fit, and one more for what is left.
pub open spec fn chunk_count(len: nat) -> nat {
    ((len + MAX_BLOB_DATA_SIZE - 1) / (MAX_BLOB_DATA_SIZE as int)) as nat
}

/// Chunk `i` of `data`: the bytes from `i * MAX_BLOB_DATA_SIZE` on, up to the
/// next chunk or the end of `data`.
pub open spec fn chunk_of(data: Seq<u8>, i: int) -> Seq<u8> {
    let start = i * MAX_BLOB_DATA_SIZE;
    let end = if start + MAX_BLOB_DATA_SIZE <= data.len() {
        start + MAX_BLOB_DATA_SIZE
    } else {
        data.len() as int
    };
    data.subrange(start, end)
}

/// The blobs that carry `data`: one for each chunk, in the order of the chunks.
pub open spec fn blobs_of(data: Seq<u8>) -> Seq<Seq<u8>> {
    Seq::new(chunk_count(data.len()), |i: int| blob_of(chunk_of(data, i)))
}

/// Whether `blob` has the size of a blob and every one of its field elements
/// leaves the two high bits of its first byte clear.
pub open spec fn is_canonical_blob(blob: Seq<u8>) -> bool {
    &&& blob.len() == BYTES_PER_BLOB
    &&& forall|i: int| 0 <= i < blob.len() && i % 32 == 0 ==> (#[trigger] blob[i]) & 0xC0 == 0
}

/// The payload length that the header of `blob` declares.
pub open spec fn declared_len(blob: Seq<u8>) -> int {
    blob[2] * 65536 + blob[3] * 256 + blob[4]
}

/// Byte `m` (0 to 126) of the 127 stream bytes that row `row` of `blob`
/// carries. The three spread bytes are put together again from the lead bytes;
/// every other byte is read from its carrier.
pub open spec fn carried_byte(blob: Seq<u8>, row: int, m: int) -> u8 {
    let at = 128 * row;
    if m == 31 {
        (blob[at] & 0x3F) | ((blob[at + 32] & 0x30) << 2)
    } else if m == 63 {
        (blob[at + 32] & 0x0F) | ((blob[at + 96] & 0x0F) << 4)
    } else if m == 95 {
        (blob[at + 64] & 0x3F) | ((blob[at + 96] & 0x30) << 2)
    } else {
        blob[at + m + 1]
    }
}

/// The payload that `blob` carries: as many bytes as its header declares, read
/// from behind the header.
pub open spec fn payload_of(blob: Seq<u8>) -> Seq<u8> {
    Seq::new(declared_len(blob) as nat, |k: int| carried_byte(blob, (k + 4) / 127, (k + 4) % 127))
}

/// Where the read cursor stands once `n` bytes of the stream are consumed: the
/// header is not part of the payload, and the cursor never passes the end.
pub open spec fn cursor_at(len: nat, n: int) -> int {
    if n <= 4 {
        0
    } else if n - 4 < len {
        n - 4
    } else {
        len as int
    }
}

/// A lead byte never uses its two high bits.
pub proof fn lemma_lead_byte_six_bits(e: int, x: u8, y: u8, z: u8)
    ensures
        lead_byte(e, x, y, z) & 0xC0 == 0,
{
    assert((x & 0x3F) & 0xC0 == 0) by (bit_vector);
    assert(((y & 0x0F) | ((x & 0xC0) >> 2)) & 0xC0 == 0) by (bit_vector);
    assert((z & 0x3F) & 0xC0 == 0) by (bit_vector);
    assert((((z & 0xC0) >> 2) | ((y & 0xF0) >> 4)) & 0xC0 == 0) by (bit_vector);
}

/// The lead bytes of a row of zeros are zero.
pub proof fn lemma_lead_byte_of_zeros(e: int)
    ensures
        lead_byte(e, 0, 0, 0) == 0,
{
    assert((0u8 & 0x3F) == 0) by (bit_vector);
    assert(((0u8 & 0x0F) | ((0u8 & 0xC0) >> 2)) == 0) by (bit_vector);
    assert((((0u8 & 0xC0) >> 2) | ((0u8 & 0xF0) >> 4)) == 0) by (bit_vector);
}

/// Byte `32 * e + j` of row `row` of the blob is `row_byte(data, row, e, j)`.
pub proof fn lemma_blob_byte_in_row(data: Seq<u8>, row: int, e: int, j: int)
    requires
        0 <= row,
        0 <= e < 4,
        0 <= j < 32,
    ensures
        blob_byte(data, 128 * row + 32 * e + j) == row_byte(data, row, e, j),
{
    let i = 128 * row + 32 * e + j;
    assert(i / 128 == row && i % 128 == 32 * e + j);
    assert((32 * e + j) / 32 == e && i % 32 == j);
}

/// Once the payload has ended before row `row` begins, the rest of the blob is
/// zero.
pub proof fn lemma_blob_tail_is_zero(data: Seq<u8>, row: int, i: int)
    requires
        0 <= row,
        data.len() + 4 <= 127 * row || data.len() == 0,
        128 * row <= i,
    ensures
        blob_byte(data, i) == 0,
{
    let r = i / 128;
    let e = (i % 128) / 32;
    let j = i % 32;
    assert(r >= row);
    assert(0 <= e < 4);
    lemma_lead_byte_of_zeros(e);
    if data.len() == 0 {
        assert(forall|n: int| 0 <= n ==> stream_byte(data, n) == 0);
    } else {
        assert(forall|n: int| 127 * r <= n ==> stream_byte(data, n) == 0);
    }
}

/// Every blob has the size of a blob, and each of its 4096 field elements
/// starts with a byte below `0x40`.
pub proof fn lemma_blob_is_canonical(data: Seq<u8>)
    ensures
        is_canonical_blob(blob_of(data)),
{
    let blob = blob_of(data);
    assert forall|i: int| 0 <= i < blob.len() && i % 32 == 0 implies (#[trigger] blob[i]) & 0xC0 == 0 by {
        let row = i / 128;
        let e = (i % 128) / 32;
        lemma_lead_byte_six_bits(
            e,
            stream_byte(data, 127 * row + 31),
            stream_byte(data, 127 * row + 63),
            stream_byte(data, 127 * row + 95),
        );
    }
}

/// The header can be read back from the blob. It stands behind the lead byte
/// of the first field element: byte 1 is the version, and bytes 2 to 4 are the
/// payload's length as a big-endian number. The lead byte before it holds the
/// low six bits of payload byte 27, so it is zero as long as the payload ends
/// before that byte.
pub proof fn lemma_header_recoverable(data: Seq<u8>)
    requires
        data.len() <= MAX_BLOB_DATA_SIZE,
    ensures
        blob_of(data)[1] == ENCODING_VERSION,
        declared_len(blob_of(data)) == data.len(),
        blob_of(data)[0] == byte_or_zero(data, 27) & 0x3F,
        data.len() <= 27 ==> blob_of(data)[0] == 0,
{
    let blob = blob_of(data);
    assert(blob[0] == lead_byte(
        0,
        stream_byte(data, 31),
        stream_byte(data, 63),
        stream_byte(data, 95),
    ));
    assert(blob[1] == stream_byte(data, 0));
    assert(blob[2] == stream_byte(data, 1));
    assert(blob[3] == stream_byte(data, 2));
    assert(blob[4] == stream_byte(data, 3));
    assert((0u8 & 0x3F) == 0) by (bit_vector);
}

/// The blob of the empty payload is all zeros.
pub proof fn lemma_empty_blob_is_zero(data: Seq<u8>)
    requires
        data.len() == 0,
    ensures
        blob_of(data) == Seq::new(BYTES_PER_BLOB as nat, |i: int| 0u8),
{
    assert forall|i: int| 0 <= i < BYTES_PER_BLOB implies blob_byte(data, i) == 0 by {
        lemma_blob_tail_is_zero(data, 0, i);
    }
}

/// The three spread bytes of a row can be put together again from its four
/// lead bytes.
pub proof fn lemma_spread_bytes_recoverable(x: u8, y: u8, z: u8)
    ensures
        (lead_byte(0, x, y, z) & 0x3F) | ((lead_byte(1, x, y, z) & 0x30) << 2) == x,
        (lead_byte(1, x, y, z) & 0x0F) | ((lead_byte(3, x, y, z) & 0x0F) << 4) == y,
        (lead_byte(2, x, y, z) & 0x3F) | ((lead_byte(3, x, y, z) & 0x30) << 2) == z,
{
    assert(((x & 0x3F) & 0x3F) | ((((y & 0x0F) | ((x & 0xC0) >> 2)) & 0x30) << 2) == x)
        by (bit_vector);
    assert((((y & 0x0F) | ((x & 0xC0) >> 2)) & 0x0F) | (((((z & 0xC0) >> 2) | ((y & 0xF0) >> 4))
        & 0x0F) << 4) == y) by (bit_vector);
    assert(((z & 0x3F) & 0x3F) | (((((z & 0xC0) >> 2) | ((y & 0xF0) >> 4)) & 0x30) << 2) == z)
        by (bit_vector);
}

/// Every byte of the stream can be read back from the blob.
pub proof fn lemma_stream_recoverable(data: Seq<u8>, n: int)
    requires
        0 <= n < 127 * ROUNDS,
    ensures
        carried_byte(blob_of(data), n / 127, n % 127) == stream_byte(data, n),
{
    let blob = blob_of(data);
    let row = n / 127;
    let m = n % 127;
    let at = 128 * row;
    let x = stream_byte(data, 127 * row + 31);
    let y = stream_byte(data, 127 * row + 63);
    let z = stream_byte(data, 127 * row + 95);
    lemma_blob_byte_in_row(data, row, 0, 0);
    lemma_blob_byte_in_row(data, row, 1, 0);
    lemma_blob_byte_in_row(data, row, 2, 0);
    lemma_blob_byte_in_row(data, row, 3, 0);
    lemma_spread_bytes_recoverable(x, y, z);
    if m != 31 && m != 63 && m != 95 {
        let e = m / 32;
        let j = m % 32;
        lemma_blob_byte_in_row(data, row, e, j + 1);
        assert(at + m + 1 == 128 * row + 32 * e + (j + 1));
    }
}

/// Packing loses nothing: the payload can be read back from its blob.
pub proof fn lemma_payload_recoverable(data: Seq<u8>)
    requires
        data.len() <= MAX_BLOB_DATA_SIZE,
    ensures
        payload_of(blob_of(data)) == data,
{
    lemma_header_recoverable(data);
    let blob = blob_of(data);
    assert forall|k: int| 0 <= k < data.len() implies #[trigger] payload_of(blob)[k] == data[k] by {
        lemma_stream_recoverable(data, k + 4);
    }
    assert(payload_of(blob) =~= data);
}

/// Two payloads with the same blob are the same payload.
pub proof fn lemma_blob_determines_payload(a: Seq<u8>, b: Seq<u8>)
    requires
        a.len() <= MAX_BLOB_DATA_SIZE,
        b.len() <= MAX_BLOB_DATA_SIZE,
        blob_of(a) == blob_of(b),
    ensures
        a == b,
{
    lemma_payload_recoverable(a);
    lemma_payload_recoverable(b);
}

/// Every blob of a payload is canonical and carries its own chunk, length and
/// all, so the blobs together lose nothing of the payload.
pub proof fn lemma_blobs_carry_chunks(data: Seq<u8>)
    ensures
        blobs_of(data).len() == chunk_count(data.len()),
        forall|i: int|
            0 <= i < chunk_count(data.len()) ==> {
                &&& is_canonical_blob(#[trigger] blobs_of(data)[i])
                &&& declared_len(blobs_of(data)[i]) == chunk_of(data, i).len()
                &&& payload_of(blobs_of(data)[i]) == chunk_of(data, i)
            },
{
    assert forall|i: int| 0 <= i < chunk_count(data.len()) implies {
        &&& is_canonical_blob(#[trigger] blobs_of(data)[i])
        &&& declared_len(blobs_of(data)[i]) == chunk_of(data, i).len()
        &&& payload_of(blobs_of(data)[i]) == chunk_of(data, i)
    } by {
        let chunk = chunk_of(data, i);
        lemma_blob_is_canonical(chunk);
        lemma_header_recoverable(chunk);
        lemma_payload_recoverable(chunk);
    }
}

/// The chunks lie end to end over the payload: each has between 1 and
/// `MAX_BLOB_DATA_SIZE` bytes, all but the last have `MAX_BLOB_DATA_SIZE`, and
/// byte `k` of the payload is byte `k % MAX_BLOB_DATA_SIZE` of chunk
/// `k / MAX_BLOB_DATA_SIZE`.
pub proof fn lemma_chunks_tile_payload(data: Seq<u8>)
    ensures
        forall|i: int|
            0 <= i < chunk_count(data.len()) ==> 1 <= (#[trigger] chunk_of(data, i)).len()
                <= MAX_BLOB_DATA_SIZE,
        forall|i: int|
            0 <= i < chunk_count(data.len()) - 1 ==> (#[trigger] chunk_of(data, i)).len()
                == MAX_BLOB_DATA_SIZE,
        forall|k: int|
            0 <= k < data.len() ==> {
                &&& 0 <= k / (MAX_BLOB_DATA_SIZE as int) < chunk_count(data.len())
                &&& chunk_of(data, k / (MAX_BLOB_DATA_SIZE as int))[k % (MAX_BLOB_DATA_SIZE as int)]
                    == #[trigger] data[k]
            },
{
}

} // verus!
