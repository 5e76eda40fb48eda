//! Conversion of glTF 2.0 documents into the binary GLB container.
//!
//! The library holds the verified core of the converter: the check that a
//! document declares glTF version 2.0, the extraction of base64 data-URI
//! buffer payloads, and the byte-exact construction of the GLB file
//! (header, JSON chunk, optional BIN chunk, each padded to a four-byte
//! boundary).  Reading the input file, parsing its JSON and writing the
//! output belong to the surrounding program.

pub mod document;
pub mod extract;
pub mod glb;
