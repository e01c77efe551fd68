use blob_codec::blob::create_blob_sidecar_from_data_blocking;
use blob_codec::compress::zlib_compress;
use flate2::read::ZlibDecoder;
use std::io::Read;

fn inflate(stream: &[u8]) -> Vec<u8> {
    let mut out = Vec::new();
    ZlibDecoder::new(stream).read_to_end(&mut out).unwrap();
    out
}

fn payload(len: usize) -> Vec<u8> {
    (0..len).map(|i| ((i * i) % 251) as u8).collect()
}

#[test]
fn zlib_stream_of_hello() {
    let compressed = zlib_compress(b"hello").unwrap();
    assert_eq!(&compressed[..], &[120, 156, 203, 72, 205, 201, 201, 7, 0, 6, 44, 2, 21]);
}

#[test]
fn zlib_stream_of_nothing() {
    let compressed = zlib_compress(&[]).unwrap();
    assert_eq!(&compressed[..], &[120, 156, 3, 0, 0, 0, 0, 1]);
    assert!(inflate(&compressed).is_empty());
}

#[test]
fn zlib_stream_starts_with_the_default_level_header() {
    for len in [1usize, 100, 70000] {
        let compressed = zlib_compress(&payload(len)).unwrap();
        assert_eq!(&compressed[..2], &[0x78, 0x9C], "input of {len} bytes");
    }
}

#[test]
fn compressed_input_can_be_inflated_again() {
    for len in [0usize, 1, 5, 1000, 200000] {
        let input = payload(len);
        let compressed = zlib_compress(&input).unwrap();
        assert!(inflate(&compressed) == input, "input of {len} bytes");
    }
}

#[test]
fn repetitive_input_shrinks() {
    let input = vec![7u8; 100000];
    let compressed = zlib_compress(&input).unwrap();
    assert!(compressed.len() < 1000);
    assert!(inflate(&compressed) == input);
}

#[test]
fn same_input_gives_the_same_stream() {
    let input = payload(5000);
    assert_eq!(zlib_compress(&input).unwrap(), zlib_compress(&input).unwrap());
}

#[test]
fn compressed_payload_goes_into_a_sidecar() {
    let input = payload(3000);
    let compressed = zlib_compress(&input).unwrap();
    let sidecar = create_blob_sidecar_from_data_blocking(&compressed).unwrap();
    assert_eq!(sidecar.blobs.len(), 1);
    let blob = sidecar.blobs[0].as_slice();
    let declared = ((blob[2] as usize) << 16) | ((blob[3] as usize) << 8) | blob[4] as usize;
    assert_eq!(declared, compressed.len());
    assert_eq!(&blob[5..7], &[0x78, 0x9C]);
}
