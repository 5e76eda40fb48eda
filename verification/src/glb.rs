//! The GLB container layout: header and chunk records, four-byte padding,
//! and the byte-exact assembly of a whole file.

use vstd::prelude::*;

verus! {

/// Magic number at offset 0 of every GLB file ("glTF").
pub const GLB_MAGIC: u32 = 0x46546C67;

/// Container version written into the header.
pub const GLB_VERSION: u32 = 2;

/// Chunk type tag of the JSON chunk ("JSON").
pub const JSON_CHUNK_TYPE: u32 = 0x4E4F534A;

/// Chunk type tag of the binary chunk ("BIN\0").
pub const BIN_CHUNK_TYPE: u32 = 0x004E4942;

/// Number of filler bytes that take a body of `n` bytes to the next
/// multiple of four.
pub open spec fn pad_len(n: int) -> int {
    (4 - n % 4) % 4
}

/// Length of a body of `n` bytes once padded to a multiple of four.
pub open spec fn padded_len(n: int) -> int {
    n + pad_len(n)
}

/// The filler bytes appended to a body of `n` bytes: `pad_len(n)` copies
/// of the pad byte.
pub open spec fn pad_seq(n: int, pad: u8) -> Seq<u8> {
    Seq::new(pad_len(n) as nat, |i: int| pad)
}

/// The four bytes of `x` in little-endian order.
pub open spec fn le32(x: int) -> Seq<u8> {
    seq![
        (x % 256) as u8,
        ((x / 256) % 256) as u8,
        ((x / 65536) % 256) as u8,
        ((x / 16777216) % 256) as u8,
    ]
}

/// The value encoded by four bytes in little-endian order.
pub open spec fn le32_val(s: Seq<u8>) -> int {
    s[0] + 256 * s[1] + 65536 * s[2] + 16777216 * s[3]
}

/// Appends every byte of `src` to `dst`.
pub fn push_all(dst: &mut Vec<u8>, src: &Vec<u8>)
    ensures
        final(dst)@ == old(dst)@ + src@,
{
    let mut i: usize = 0;
    while i < src.len()
        invariant
            i <= src@.len(),
            dst@ == old(dst)@ + src@.subrange(0, i as int),
        decreases src@.len() - i,
    {
        dst.push(src[i]);
        assert(dst@ =~= old(dst)@ + src@.subrange(0, i + 1));
        i = i + 1;
    }
    assert(src@.subrange(0, src@.len() as int) =~= src@);
}

/// The four little-endian bytes of `x`.
pub fn le32_bytes(x: u32) -> (b: Vec<u8>)
    ensures
        b@ == le32(x as int),
{
    let mut b: Vec<u8> = Vec::new();
    b.push((x % 256) as u8);
    b.push(((x / 256) % 256) as u8);
    b.push(((x / 65536) % 256) as u8);
    b.push(((x / 16777216) % 256) as u8);
    assert(b@ =~= le32(x as int));
    b
}

/// The 12-byte record at the start of every GLB file.
pub struct GlbHeader {
    pub magic: u32,
    pub version: u32,
    pub length: u32,
}

impl GlbHeader {
    /// A header declaring a total file length of `len` bytes.
    pub fn new(len: u32) -> (h: GlbHeader)
        ensures
            h.magic == GLB_MAGIC,
            h.version == GLB_VERSION,
            h.length == len,
    {
        GlbHeader {
            magic: GLB_MAGIC,
            version: GLB_VERSION,
            length: len,
        }
    }

    /// The header's 12 bytes, each field little-endian.
    pub fn to_bytes(&self) -> (b: Vec<u8>)
        ensures
            b@ == le32(self.magic as int) + le32(self.version as int) + le32(self.length as int),
    {
        let mut b = le32_bytes(self.magic);
        let v = le32_bytes(self.version);
        let l = le32_bytes(self.length);
        push_all(&mut b, &v);
        push_all(&mut b, &l);
        b
    }
}

/// The 8-byte record that precedes each chunk body.
pub struct GlbChunk {
    pub chunk_length: u32,
    pub chunk_type: u32,
}

impl GlbChunk {
    /// The chunk record of a JSON chunk of `len` declared bytes.
    pub fn json(len: u32) -> (c: GlbChunk)
        ensures
            c.chunk_length == len,
            c.chunk_type == JSON_CHUNK_TYPE,
    {
        GlbChunk {
            chunk_length: len,
            chunk_type: JSON_CHUNK_TYPE,
        }
    }

    /// The chunk record of a binary chunk of `len` declared bytes.
    pub fn binary(len: u32) -> (c: GlbChunk)
        ensures
            c.chunk_length == len,
            c.chunk_type == BIN_CHUNK_TYPE,
    {
        GlbChunk {
            chunk_length: len,
            chunk_type: BIN_CHUNK_TYPE,
        }
    }

    /// The record's 8 bytes, each field little-endian.
    pub fn to_bytes(&self) -> (b: Vec<u8>)
        ensures
            b@ == le32(self.chunk_length as int) + le32(self.chunk_type as int),
    {
        let mut b = le32_bytes(self.chunk_length);
        let t = le32_bytes(self.chunk_type);
        push_all(&mut b, &t);
        b
    }
}

/// Appends `body` to `out` and then, if its length is not a multiple of
/// four, enough copies of `pad` to reach one; returns the padded length.
pub fn padded(out: &mut Vec<u8>, body: &Vec<u8>, pad: u8) -> (size: usize)
    requires
        old(out)@.len() + padded_len(body@.len() as int) <= usize::MAX,
    ensures
        final(out)@ == old(out)@ + body@ + pad_seq(body@.len() as int, pad),
        size == padded_len(body@.len() as int),
{
    push_all(out, body);
    let padding: usize = (4 - body.len() % 4) % 4;
    let mut k: usize = 0;
    while k < padding
        invariant
            k <= padding,
            padding == pad_len(body@.len() as int),
            out@ == old(out)@ + body@ + Seq::new(k as nat, |i: int| pad),
        decreases padding - k,
    {
        out.push(pad);
        assert(out@ =~= old(out)@ + body@ + Seq::new((k + 1) as nat, |i: int| pad));
        k = k + 1;
    }
    assert(Seq::new(padding as nat, |i: int| pad) =~= pad_seq(body@.len() as int, pad));
    body.len() + padding
}

/// The views of an optional payload's bytes.
pub open spec fn payload_view(p: Option<Vec<u8>>) -> Option<Seq<u8>> {
    match p {
        Option::Some(v) => Option::Some(v@),
        Option::None => Option::None,
    }
}

/// Total byte length of a GLB file with a JSON body of `json_len` bytes
/// and the given optional binary payload: header, JSON chunk record and
/// padded JSON body, and, with a payload, the BIN chunk record and the
/// padded payload.
pub open spec fn glb_total_len(json_len: int, payload: Option<Seq<u8>>) -> int {
    match payload {
        Option::None => 20 + padded_len(json_len),
        Option::Some(p) => 28 + padded_len(json_len) + padded_len(p.len() as int),
    }
}

/// The bytes of the BIN chunk: its record declares the unpadded payload
/// length, while the body is zero-padded to a multiple of four.
pub open spec fn bin_chunk_bytes(payload: Option<Seq<u8>>) -> Seq<u8> {
    match payload {
        Option::None => Seq::empty(),
        Option::Some(p) => le32(p.len() as int) + le32(BIN_CHUNK_TYPE as int) + p + pad_seq(
            p.len() as int,
            0x00,
        ),
    }
}

/// Every byte of the GLB file holding the given JSON body and optional
/// binary payload.  The JSON chunk record declares the space-padded JSON
/// length; the BIN chunk record declares the unpadded payload length.
pub open spec fn glb_bytes(json: Seq<u8>, payload: Option<Seq<u8>>) -> Seq<u8> {
    le32(GLB_MAGIC as int) + le32(GLB_VERSION as int) + le32(
        glb_total_len(json.len() as int, payload),
    ) + le32(padded_len(json.len() as int)) + le32(JSON_CHUNK_TYPE as int) + json + pad_seq(
        json.len() as int,
        0x20,
    ) + bin_chunk_bytes(payload)
}

/// The length of the produced file is exactly the declared total.
pub proof fn lemma_glb_bytes_len(json: Seq<u8>, payload: Option<Seq<u8>>)
    ensures
        glb_bytes(json, payload).len() == glb_total_len(json.len() as int, payload),
{
    assert(0 <= pad_len(json.len() as int) < 4);
    match payload {
        Option::Some(p) => {
            assert(0 <= pad_len(p.len() as int) < 4);
        },
        Option::None => {},
    }
}

/// Reading four little-endian bytes gives back the encoded value.
pub proof fn lemma_le32_roundtrip(x: u32)
    ensures
        le32_val(le32(x as int)) == x,
{
    assert(x % 256 + 256 * ((x / 256) % 256) + 65536 * ((x / 65536) % 256) + 16777216 * ((x
        / 16777216) % 256) == x) by (bit_vector);
}

/// The word at offsets 8..12 of a GLB file — the header's `length`
/// field — equals the byte length of the whole file.
pub proof fn lemma_header_length_is_file_length(json: Seq<u8>, payload: Option<Seq<u8>>)
    requires
        glb_total_len(json.len() as int, payload) <= 0xFFFF_FFFF,
    ensures
        le32_val(glb_bytes(json, payload).subrange(8, 12)) == glb_bytes(json, payload).len(),
{
    let total = glb_total_len(json.len() as int, payload);
    lemma_glb_bytes_len(json, payload);
    assert(glb_bytes(json, payload).subrange(8, 12) =~= le32(total));
    lemma_le32_roundtrip(total as u32);
}

/// A file built with no binary payload is the 12-byte header followed by
/// the JSON chunk alone: the declared JSON chunk length (the word at
/// offsets 12..16) is the padded JSON size, and the whole file is 20
/// bytes plus that length.
pub proof fn lemma_no_payload_layout(json: Seq<u8>)
    requires
        20 + padded_len(json.len() as int) <= 0xFFFF_FFFF,
    ensures
        le32_val(glb_bytes(json, Option::None).subrange(12, 16)) == padded_len(
            json.len() as int,
        ),
        glb_bytes(json, Option::None).len() == 20 + le32_val(
            glb_bytes(json, Option::None).subrange(12, 16),
        ),
{
    lemma_glb_bytes_len(json, Option::None);
    assert(glb_bytes(json, Option::None).subrange(12, 16) =~= le32(padded_len(
        json.len() as int,
    )));
    lemma_le32_roundtrip(padded_len(json.len() as int) as u32);
}

/// In a file with an embedded payload, the BIN chunk record declares the
/// unpadded payload length, and the chunk body (once the trailing zero
/// padding is ignored) reads back as exactly the payload bytes.
pub proof fn lemma_bin_chunk_round_trip(json: Seq<u8>, p: Seq<u8>)
    requires
        28 + padded_len(json.len() as int) + padded_len(p.len() as int) <= 0xFFFF_FFFF,
    ensures
        le32_val(glb_bytes(json, Option::Some(p)).subrange(
            20 + padded_len(json.len() as int),
            24 + padded_len(json.len() as int),
        )) == p.len(),
        glb_bytes(json, Option::Some(p)).subrange(
            28 + padded_len(json.len() as int),
            28 + padded_len(json.len() as int) + p.len() as int,
        ) == p,
        forall|i: int|
            28 + padded_len(json.len() as int) + p.len() <= i < 28 + padded_len(
                json.len() as int,
            ) + padded_len(p.len() as int) ==> glb_bytes(json, Option::Some(p))[i] == 0x00,
{
    let jp = padded_len(json.len() as int);
    lemma_glb_bytes_len(json, Option::Some(p));
    assert(glb_bytes(json, Option::Some(p)).subrange(20 + jp, 24 + jp) =~= le32(p.len() as int));
    lemma_le32_roundtrip(p.len() as u32);
    assert(glb_bytes(json, Option::Some(p)).subrange(28 + jp, 28 + jp + p.len() as int) =~= p);
}

/// The JSON chunk body of a produced file holds the JSON bytes at
/// offsets 20 onward, completed only by space characters up to the
/// padded length.
pub proof fn lemma_json_chunk_body(json: Seq<u8>, payload: Option<Seq<u8>>)
    ensures
        glb_bytes(json, payload).subrange(20, 20 + json.len() as int) == json,
        forall|i: int|
            20 + json.len() <= i < 20 + padded_len(json.len() as int) ==> glb_bytes(
                json,
                payload,
            )[i] == 0x20,
{
    assert(0 <= pad_len(json.len() as int) < 4);
    assert(glb_bytes(json, payload).subrange(20, 20 + json.len() as int) =~= json);
}

/// Padding law: a body of `l` bytes is written as `l + ((4 - l % 4) % 4)`
/// bytes — a multiple of four — and consists of the body followed only
/// by copies of the pad byte.
pub proof fn lemma_padding_law(body: Seq<u8>, pad: u8)
    ensures
        (body + pad_seq(body.len() as int, pad)).len() == body.len() + ((4 - body.len() as int % 4)
            % 4),
        padded_len(body.len() as int) % 4 == 0,
        (body + pad_seq(body.len() as int, pad)).subrange(0, body.len() as int) == body,
        forall|i: int|
            body.len() <= i < padded_len(body.len() as int) ==> (body + pad_seq(
                body.len() as int,
                pad,
            ))[i] == pad,
{
    assert(0 <= pad_len(body.len() as int) < 4);
    assert((body + pad_seq(body.len() as int, pad)).subrange(0, body.len() as int) =~= body);
}

/// Assembles the whole GLB file: the 12-byte header, the JSON chunk
/// record and space-padded JSON body, and, where a payload is given, the
/// BIN chunk record and zero-padded payload.
pub fn build_glb(json: &Vec<u8>, payload: &Option<Vec<u8>>) -> (out: Vec<u8>)
    requires
        glb_total_len(json@.len() as int, payload_view(*payload)) <= 0xFFFF_FFFF,
    ensures
        out@ == glb_bytes(json@, payload_view(*payload)),
        out@.len() == glb_total_len(json@.len() as int, payload_view(*payload)),
{
    let jlen = json.len();
    let jpad: usize = (4 - jlen % 4) % 4;
    let jsize: usize = jlen + jpad;
    let total: usize = match payload {
        Option::Some(p) => {
            let ppad: usize = (4 - p.len() % 4) % 4;
            28 + jsize + p.len() + ppad
        },
        Option::None => 20 + jsize,
    };
    let header = GlbHeader::new(total as u32);
    let mut out = header.to_bytes();
    let jchunk = GlbChunk::json(jsize as u32);
    let jbytes = jchunk.to_bytes();
    push_all(&mut out, &jbytes);
    padded(&mut out, json, 0x20);
    match payload {
        Option::Some(p) => {
            let bchunk = GlbChunk::binary(p.len() as u32);
            let bbytes = bchunk.to_bytes();
            push_all(&mut out, &bbytes);
            padded(&mut out, p, 0x00);
        },
        Option::None => {},
    }
    proof {
        lemma_glb_bytes_len(json@, payload_view(*payload));
        assert(out@ =~= glb_bytes(json@, payload_view(*payload)));
    }
    out
}

} // verus!
