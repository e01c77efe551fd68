//! Packing of byte payloads into data-availability blobs.
//!
//! A blob is a buffer of 131072 bytes, read as 4096 big-endian field elements
//! that each have to stay below the scalar-field modulus. [`layout`] says which
//! byte of a payload goes where in a blob, and proves that every blob is made
//! of valid field elements and that the payload can be read back from it.
//! [`blob`] holds the code that writes blobs: one blob from one chunk, a list of
//! blobs from a payload of any length, and a sidecar from those blobs through
//! the commitment engine of `alloy`. [`compress`] compresses a payload before it
//! is packed. [`trusted`] states what is taken on trust of `alloy`, `flate2`,
//! `tokio` and `std::io`. [`cli`] holds the commands of the toolbox that sends
//! such sidecars.

pub mod blob;
pub mod cli;
pub mod compress;
pub mod layout;
pub mod trusted;
