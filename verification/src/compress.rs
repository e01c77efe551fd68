//! Compression of a payload before it is packed into blobs.

use crate::trusted::{bytes_from_vec, bytes_view, zlib_encode, zlib_stream};
use alloy::primitives::Bytes;
use vstd::prelude::*;

verus! {

/// Compress the input bytes using `zlib`.
///
/// The buffer that comes back holds the zlib stream of `input`. The call fails
/// exactly when the encoder gives up, and then with the encoder's error.
pub fn zlib_compress(input: &[u8]) -> (r: Result<Bytes, std::io::Error>)
    ensures
        r is Ok <==> zlib_stream(input@) is Some,
        r matches Ok(compressed) ==> zlib_stream(input@) == Some(bytes_view(compressed)),
{
    match zlib_encode(input) {
        Ok(stream) => Ok(bytes_from_vec(stream)),
        Err(e) => Err(e),
    }
}

} // verus!
