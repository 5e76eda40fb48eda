//! The parts of a glTF document that the converter reads, as plain values,
//! together with the conversion errors.
//!
//! A parsed JSON document carries far more than the converter looks at; of
//! it only two paths matter: the string at `asset.version`, and the
//! `buffers` array with each element's `uri` string.  The surrounding
//! program maps its parsed document onto this model one field at a time.

use vstd::prelude::*;

verus! {

/// One element of a document's `buffers` array, as far as the converter
/// reads it.
#[derive(Debug)]
pub enum BufferEntry {
    /// The element is not a JSON object.
    NotObject,
    /// The element is an object whose `uri` field is absent or not a string.
    NoUri,
    /// The element is an object with a string `uri`; the bytes are the
    /// string's UTF-8 content.
    Uri(Vec<u8>),
}

/// What the converter reads of a glTF document.
#[derive(Debug)]
pub struct Document {
    /// The string at path `asset.version`, if that path holds a string.
    pub version: Option<Vec<u8>>,
    /// The elements of the `buffers` array, if the document has a `buffers`
    /// field holding an array.
    pub buffers: Option<Vec<BufferEntry>>,
}

/// A reason the conversion refused a document.
#[derive(Debug)]
pub enum FormatError {
    /// `asset.version` is absent or is not the string `"2.0"`.
    NotGltf,
    /// An element of `buffers` is not an object.
    BufferNotObject,
    /// A buffer object's `uri` is absent or not a string.
    BufferUriNotString,
    /// A buffer's URI (carried here) is too short to start with the
    /// expected mime prefix.
    NotBase64Uri(Vec<u8>),
    /// A buffer's URI starts with the wrong mime prefix (carried here).
    InvalidMimeType(Vec<u8>),
    /// A buffer URI's payload is not well-formed base64.
    Base64Decode,
}

/// The UTF-8 bytes of the only accepted version string, `"2.0"`.
pub open spec fn version_bytes() -> Seq<u8> {
    seq![50u8, 46u8, 48u8]
}

/// The document declares itself a glTF 2.0 asset.
pub open spec fn is_gltf2(doc: Document) -> bool {
    doc.version matches Some(v) && v@ == version_bytes()
}

/// Accepts exactly the documents whose `asset.version` is the string
/// `"2.0"`; anything else is refused with `NotGltf`.
pub fn check_is_gltf(doc: &Document) -> (r: Result<(), FormatError>)
    ensures
        r is Ok <==> is_gltf2(*doc),
        r is Err ==> (r matches Err(e) && e == FormatError::NotGltf),
{
    match &doc.version {
        Option::Some(v) => {
            if v.len() == 3 && v[0] == 50 && v[1] == 46 && v[2] == 48 {
                assert(v@ =~= version_bytes());
                Result::Ok(())
            } else {
                assert(v@ != version_bytes());
                Result::Err(FormatError::NotGltf)
            }
        },
        Option::None => Result::Err(FormatError::NotGltf),
    }
}

} // verus!
