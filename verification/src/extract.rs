//! Extraction of the embedded binary payload from a document's `buffers`
//! array: each buffer's `uri` must be a base64 data-URI, whose decoded
//! bytes are concatenated in array order into one payload while the `uri`
//! fields are stripped from the document.

use vstd::prelude::*;

use crate::document::{BufferEntry, Document, FormatError};

verus! {

/// Byte length of the required mime prefix
/// `data:application/octet-stream;base64,`.
pub const MIME_PREFIX_LEN: usize = 37;

/// `s` is exactly the 37 UTF-8 bytes of the required mime prefix
/// `data:application/octet-stream;base64,`.
pub open spec fn is_mime_prefix(s: Seq<u8>) -> bool {
    s.len() == 37
    && s[0] == 100 && s[1] == 97 && s[2] == 116 && s[3] == 97 && s[4] == 58
    && s[5] == 97 && s[6] == 112 && s[7] == 112 && s[8] == 108 && s[9] == 105
    && s[10] == 99 && s[11] == 97 && s[12] == 116 && s[13] == 105 && s[14] == 111
    && s[15] == 110 && s[16] == 47 && s[17] == 111 && s[18] == 99 && s[19] == 116
    && s[20] == 101 && s[21] == 116 && s[22] == 45 && s[23] == 115 && s[24] == 116
    && s[25] == 114 && s[26] == 101 && s[27] == 97 && s[28] == 109 && s[29] == 59
    && s[30] == 98 && s[31] == 97 && s[32] == 115 && s[33] == 101 && s[34] == 54
    && s[35] == 52 && s[36] == 44
}

/// What `base64::decode` returns on the given bytes: the decoded payload,
/// or nothing where the input is not well-formed base64.  The result is a
/// function of the input alone.
pub uninterp spec fn base64_decoded(s: Seq<u8>) -> Option<Seq<u8>>;

/// Relies on `base64::decode` (the standard alphabet, padding required):
/// a deterministic function of its input, here given the name
/// `base64_decoded`; it fails exactly where the input is malformed.
#[verifier::external_body]
fn decode_base64(data: &Vec<u8>) -> (r: Option<Vec<u8>>)
    ensures
        match r {
            Some(v) => base64_decoded(data@) == Some(v@),
            None => base64_decoded(data@) is None,
        },
{
    base64::decode(data).ok()
}

/// The bytes of `v` from `start` (inclusive) to `end` (exclusive).
fn sub_vec(v: &Vec<u8>, start: usize, end: usize) -> (r: Vec<u8>)
    requires
        start <= end <= v@.len(),
    ensures
        r@ == v@.subrange(start as int, end as int),
{
    let mut r: Vec<u8> = Vec::new();
    let mut j: usize = start;
    while j < end
        invariant
            start <= j <= end <= v@.len(),
            r@ == v@.subrange(start as int, j as int),
        decreases end - j,
    {
        r.push(v[j]);
        assert(r@ =~= v@.subrange(start as int, j + 1));
        j = j + 1;
    }
    r
}

/// The URI starts with the required mime prefix.
fn has_mime_prefix(u: &Vec<u8>) -> (b: bool)
    requires
        u@.len() >= 37,
    ensures
        b == is_mime_prefix(u@.subrange(0, 37)),
{
    let b = u[0] == 100 && u[1] == 97 && u[2] == 116 && u[3] == 97 && u[4] == 58
        && u[5] == 97 && u[6] == 112 && u[7] == 112 && u[8] == 108 && u[9] == 105
        && u[10] == 99 && u[11] == 97 && u[12] == 116 && u[13] == 105 && u[14] == 111
        && u[15] == 110 && u[16] == 47 && u[17] == 111 && u[18] == 99 && u[19] == 116
        && u[20] == 101 && u[21] == 116 && u[22] == 45 && u[23] == 115 && u[24] == 116
        && u[25] == 114 && u[26] == 101 && u[27] == 97 && u[28] == 109 && u[29] == 59
        && u[30] == 98 && u[31] == 97 && u[32] == 115 && u[33] == 101 && u[34] == 54
        && u[35] == 52 && u[36] == 44;
    proof {
        let s = u@.subrange(0, 37);
        assert(forall|k: int| 0 <= k < 37 ==> s[k] == u@[k]);
    }
    b
}

/// The entry is a buffer whose URI carries a well-formed base64 data-URI
/// of the required mime type.
pub open spec fn entry_ok(e: BufferEntry) -> bool {
    &&& e matches BufferEntry::Uri(u)
    &&& u@.len() >= 37
    &&& is_mime_prefix(u@.subrange(0, 37))
    &&& base64_decoded(u@.skip(37)) is Some
}

/// The decoded bytes an entry contributes to the payload (empty for an
/// entry that is not well-formed).
pub open spec fn entry_payload(e: BufferEntry) -> Seq<u8> {
    match e {
        BufferEntry::Uri(u) => match base64_decoded(u@.skip(37)) {
            Option::Some(d) => d,
            Option::None => Seq::empty(),
        },
        _ => Seq::empty(),
    }
}

/// The concatenation, in order, of the payloads of the first `n` entries.
pub open spec fn concat_payloads(entries: Seq<BufferEntry>, n: int) -> Seq<u8>
    decreases n,
{
    if n <= 0 {
        Seq::empty()
    } else {
        concat_payloads(entries, n - 1) + entry_payload(entries[n - 1])
    }
}

/// The error that refusing `entry` produces.
pub open spec fn entry_error_matches(e: FormatError, entry: BufferEntry) -> bool {
    match entry {
        BufferEntry::NotObject => e == FormatError::BufferNotObject,
        BufferEntry::NoUri => e == FormatError::BufferUriNotString,
        BufferEntry::Uri(u) => if u@.len() < 37 {
            e matches FormatError::NotBase64Uri(b) && b@ == u@
        } else if !is_mime_prefix(u@.subrange(0, 37)) {
            e matches FormatError::InvalidMimeType(m) && m@ == u@.subrange(0, 37)
        } else {
            e == FormatError::Base64Decode && base64_decoded(u@.skip(37)) is None
        },
    }
}

/// The walk over `entries` stops at index `i` with error `e`: every
/// earlier entry is well-formed, the one at `i` is not, and `e` is its
/// error.
pub open spec fn err_at(entries: Seq<BufferEntry>, e: FormatError, i: int) -> bool {
    &&& 0 <= i < entries.len()
    &&& forall|j: int| 0 <= j < i ==> entry_ok(#[trigger] entries[j])
    &&& !entry_ok(entries[i])
    &&& entry_error_matches(e, entries[i])
}

/// A successful walk turned `doc` into `out` with payload `payload`:
/// a document without a `buffers` array passed through unchanged with no
/// payload; otherwise every entry was well-formed, every buffer lost its
/// `uri`, and the payload concatenates every entry's decoded bytes in
/// array order.
pub open spec fn extraction_ok(doc: Document, out: Document, payload: Option<Vec<u8>>) -> bool {
    match doc.buffers {
        Option::None => out == doc && payload is None,
        Option::Some(entries) => {
            &&& all_ok(entries@)
            &&& out.version == doc.version
            &&& (out.buffers matches Option::Some(bs)
                && bs@ == Seq::new(entries@.len(), |k: int| BufferEntry::NoUri))
            &&& (payload matches Option::Some(p)
                && p@ == concat_payloads(entries@, entries@.len() as int))
        },
    }
}

/// A failed walk over `entries` stopped at the first ill-formed entry,
/// whose error is `e`.
pub open spec fn extraction_err(entries: Seq<BufferEntry>, e: FormatError) -> bool {
    exists|i: int| #[trigger] err_at(entries, e, i)
}

/// Every entry of the array is well-formed.
pub open spec fn all_ok(entries: Seq<BufferEntry>) -> bool {
    forall|j: int| 0 <= j < entries.len() ==> entry_ok(#[trigger] entries[j])
}

/// Extraction succeeds on the document: it has no `buffers` array, or
/// every entry of the array is well-formed.
pub open spec fn extraction_succeeds(doc: Document) -> bool {
    doc.buffers is None || all_ok((doc.buffers->0)@)
}

/// A well-formed glTF 2.0 document without a `buffers` array converts:
/// extraction succeeds and yields no payload, and the produced file has
/// no BIN chunk — it is exactly 20 bytes plus the declared JSON chunk
/// length, which is the padded JSON size.
pub proof fn lemma_no_buffers_conversion(doc: Document, json: Seq<u8>)
    requires
        crate::document::is_gltf2(doc),
        doc.buffers is None,
        20 + crate::glb::padded_len(json.len() as int) <= 0xFFFF_FFFF,
    ensures
        extraction_succeeds(doc),
        crate::glb::glb_bytes(json, Option::None).len() == 20 + crate::glb::le32_val(
            crate::glb::glb_bytes(json, Option::None).subrange(12, 16),
        ),
        crate::glb::le32_val(crate::glb::glb_bytes(json, Option::None).subrange(12, 16))
            == crate::glb::padded_len(json.len() as int),
{
    crate::glb::lemma_no_payload_layout(json);
}

/// A document whose `buffers` array holds a single well-formed entry
/// extracts to exactly that entry's decoded bytes, and the buffer object
/// handed back carries no `uri` any more.
pub proof fn lemma_single_buffer_round_trip(doc: Document, out: Document, payload: Option<Vec<u8>>)
    requires
        doc.buffers matches Option::Some(entries) && entries@.len() == 1,
        extraction_ok(doc, out, payload),
    ensures
        (payload matches Option::Some(p) && p@ == entry_payload((doc.buffers->0)@[0])),
        (out.buffers matches Option::Some(bs) && bs@.len() == 1 && !(bs@[0] matches
        BufferEntry::Uri(_))),
{
    let entries = (doc.buffers->0)@;
    assert(concat_payloads(entries, 0) == Seq::<u8>::empty());
    assert(concat_payloads(entries, 1) =~= entry_payload(entries[0]));
}

/// Walks the `buffers` array: decodes every buffer's base64 data-URI,
/// concatenates the decoded bytes in array order into one payload, and
/// strips the `uri` field from every buffer.  A document without a
/// `buffers` array passes through unchanged, with no payload.  The first
/// ill-formed buffer aborts the walk with its error.
pub fn prepare_chunks(doc: Document) -> (r: Result<(Document, Option<Vec<u8>>), FormatError>)
    ensures
        r is Ok <==> extraction_succeeds(doc),
        (r matches Result::Ok(out) ==> extraction_ok(doc, out.0, out.1)),
        (r matches Result::Err(e) ==> doc.buffers is Some && extraction_err((doc.buffers->0)@, e)),
{
    let Document { version, buffers } = doc;
    let entries = match buffers {
        Option::Some(entries) => entries,
        Option::None => {
            return Result::Ok((Document { version, buffers: Option::None }, Option::None));
        },
    };
    let mut acc: Vec<u8> = Vec::new();
    let mut stripped: Vec<BufferEntry> = Vec::new();
    let mut i: usize = 0;
    while i < entries.len()
        invariant
            i <= entries@.len(),
            forall|j: int| 0 <= j < i ==> entry_ok(#[trigger] entries@[j]),
            acc@ == concat_payloads(entries@, i as int),
            stripped@ == Seq::new(i as nat, |k: int| BufferEntry::NoUri),
            doc.buffers == Option::Some(entries),
            version == doc.version,
        decreases entries@.len() - i,
    {
        match &entries[i] {
            BufferEntry::NotObject => {
                assert(err_at(entries@, FormatError::BufferNotObject, i as int));
                assert(!all_ok(entries@));
                assert(extraction_err(entries@, FormatError::BufferNotObject));
                return Result::Err(FormatError::BufferNotObject);
            },
            BufferEntry::NoUri => {
                assert(err_at(entries@, FormatError::BufferUriNotString, i as int));
                assert(!all_ok(entries@));
                assert(extraction_err(entries@, FormatError::BufferUriNotString));
                return Result::Err(FormatError::BufferUriNotString);
            },
            BufferEntry::Uri(u) => {
                if u.len() < MIME_PREFIX_LEN {
                    let uri = sub_vec(u, 0, u.len());
                    assert(uri@ =~= u@);
                    assert(err_at(entries@, FormatError::NotBase64Uri(uri), i as int));
                    assert(!all_ok(entries@));
                    assert(extraction_err(entries@, FormatError::NotBase64Uri(uri)));
                    return Result::Err(FormatError::NotBase64Uri(uri));
                }
                if !has_mime_prefix(u) {
                    let m = sub_vec(u, 0, MIME_PREFIX_LEN);
                    assert(err_at(entries@, FormatError::InvalidMimeType(m), i as int));
                    assert(!all_ok(entries@));
                    assert(extraction_err(entries@, FormatError::InvalidMimeType(m)));
                    return Result::Err(FormatError::InvalidMimeType(m));
                }
                let b64 = sub_vec(u, MIME_PREFIX_LEN, u.len());
                assert(b64@ =~= u@.skip(37));
                match decode_base64(&b64) {
                    Option::Some(data) => {
                        crate::glb::push_all(&mut acc, &data);
                        stripped.push(BufferEntry::NoUri);
                        proof {
                            assert(entry_ok(entries@[i as int]));
                            assert(acc@ =~= concat_payloads(entries@, i + 1));
                            assert(stripped@ =~= Seq::new(
                                (i + 1) as nat,
                                |k: int| BufferEntry::NoUri,
                            ));
                        }
                    },
                    Option::None => {
                        assert(err_at(entries@, FormatError::Base64Decode, i as int));
                        assert(!all_ok(entries@));
                        assert(extraction_err(entries@, FormatError::Base64Decode));
                        return Result::Err(FormatError::Base64Decode);
                    },
                }
            },
        }
        i = i + 1;
    }
    Result::Ok((Document { version, buffers: Option::Some(stripped) }, Option::Some(acc)))
}

} // verus!
