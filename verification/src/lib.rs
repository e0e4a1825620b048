//! The disk header of a TFS disk image: its byte layout, a verified decoder and encoder, and the
//! decisions a driver makes on the header when a disk is opened and closed.
//!
//! - `header`: the header's types, the format (as spec functions), `DiskHeader::decode` and
//!   `DiskHeader::encode`.
//! - `driver`: what opening and closing a disk does to its header.
//! - `outcomes`: what each outcome of decoding says of the sector's bytes.
//! - `le`: little-endian integers as byte strings, and byte-wise negation.
//! - `laws`: what holds across these functions (decoding inverts encoding, corruption of a
//!   single byte is caught, a closed disk reopens).
use vstd::prelude::*;

pub mod driver;
pub mod le;
pub mod outcomes;
pub mod header;
pub mod laws;
