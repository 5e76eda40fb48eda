//! End-to-end checks of the converter: validation, payload extraction,
//! and the byte layout of built GLB files.

use gltf2glb::document::{check_is_gltf, BufferEntry, Document, FormatError};
use gltf2glb::extract::prepare_chunks;
use gltf2glb::glb::{build_glb, le32_bytes, padded, GlbChunk, GlbHeader};

fn le32_at(bytes: &[u8], off: usize) -> u32 {
    bytes[off] as u32
        + 256 * bytes[off + 1] as u32
        + 65536 * bytes[off + 2] as u32
        + 16777216 * bytes[off + 3] as u32
}

fn doc(version: Option<&[u8]>, buffers: Option<Vec<BufferEntry>>) -> Document {
    Document {
        version: version.map(|v| v.to_vec()),
        buffers,
    }
}

#[test]
fn version_2_0_is_accepted() {
    let d = doc(Some(b"2.0"), None);
    assert!(check_is_gltf(&d).is_ok());
}

#[test]
fn wrong_version_is_refused() {
    let d = doc(Some(b"1.0"), None);
    assert!(matches!(check_is_gltf(&d), Err(FormatError::NotGltf)));
    let d = doc(Some(b"2.00"), None);
    assert!(matches!(check_is_gltf(&d), Err(FormatError::NotGltf)));
    let d = doc(None, None);
    assert!(matches!(check_is_gltf(&d), Err(FormatError::NotGltf)));
}

#[test]
fn no_buffers_passes_through() {
    let d = doc(Some(b"2.0"), None);
    let (out, payload) = prepare_chunks(d).unwrap();
    assert!(out.buffers.is_none());
    assert_eq!(out.version, Some(b"2.0".to_vec()));
    assert!(payload.is_none());
}

#[test]
fn no_buffers_file_has_no_bin_chunk() {
    // 27 bytes of JSON, space-padded to 28; no BIN chunk follows.
    let json = b"{\"asset\":{\"version\":\"2.0\"}}".to_vec();
    assert_eq!(json.len(), 27);
    let out = build_glb(&json, &None);
    assert_eq!(out.len(), 48);
    assert_eq!(le32_at(&out, 0), 0x46546C67); // magic "glTF"
    assert_eq!(le32_at(&out, 4), 2); // container version
    assert_eq!(le32_at(&out, 8), 48); // total length == file size
    assert_eq!(le32_at(&out, 12), 28); // declared JSON chunk length (padded)
    assert_eq!(le32_at(&out, 16), 0x4E4F534A); // "JSON"
    assert_eq!(&out[20..47], json.as_slice());
    assert_eq!(out[47], 0x20); // space padding
    assert_eq!(out.len(), 20 + le32_at(&out, 12) as usize);
}

#[test]
fn single_buffer_of_four_zero_bytes() {
    // The data-URI decodes to four zero bytes; 4 % 4 == 0, so the BIN
    // body needs no padding.
    let uri = b"data:application/octet-stream;base64,AAAAAA==".to_vec();
    let d = doc(Some(b"2.0"), Some(vec![BufferEntry::Uri(uri)]));
    let (out_doc, payload) = prepare_chunks(d).unwrap();
    let payload = payload.unwrap();
    assert_eq!(payload, vec![0u8, 0, 0, 0]);
    let entries = out_doc.buffers.unwrap();
    assert_eq!(entries.len(), 1);
    assert!(matches!(entries[0], BufferEntry::NoUri));

    // The buffer object in the serialized document has lost its uri key.
    let json = b"{\"asset\":{\"version\":\"2.0\"},\"buffers\":[{\"byteLength\":4}]}".to_vec();
    let out = build_glb(&json, &Some(payload));
    let jsize = json.len() + (4 - json.len() % 4) % 4;
    assert_eq!(le32_at(&out, 0), 0x46546C67);
    assert_eq!(le32_at(&out, 4), 2);
    assert_eq!(le32_at(&out, 8) as usize, out.len());
    let bin_off = 20 + jsize;
    assert_eq!(le32_at(&out, bin_off), 4); // unpadded payload length
    assert_eq!(le32_at(&out, bin_off + 4), 0x004E4942); // "BIN\0"
    assert_eq!(&out[bin_off + 8..bin_off + 12], &[0u8, 0, 0, 0]);
    assert_eq!(out.len(), bin_off + 12);
}

#[test]
fn bin_chunk_declares_unpadded_length_and_zero_pads() {
    // "aGVsbG8=" decodes to the five bytes of "hello": the chunk header
    // declares 5 while the body is zero-padded to 8.
    let uri = b"data:application/octet-stream;base64,aGVsbG8=".to_vec();
    let d = doc(Some(b"2.0"), Some(vec![BufferEntry::Uri(uri)]));
    let (_, payload) = prepare_chunks(d).unwrap();
    let payload = payload.unwrap();
    assert_eq!(payload, b"hello".to_vec());

    let json = b"{}".to_vec();
    let out = build_glb(&json, &Some(payload));
    // JSON "{}" is padded from 2 to 4 bytes with spaces.
    assert_eq!(le32_at(&out, 12), 4);
    assert_eq!(&out[20..22], b"{}");
    assert_eq!(&out[22..24], &[0x20, 0x20]);
    let bin_off = 24;
    assert_eq!(le32_at(&out, bin_off), 5);
    assert_eq!(le32_at(&out, bin_off + 4), 0x004E4942);
    assert_eq!(&out[bin_off + 8..bin_off + 13], b"hello");
    assert_eq!(&out[bin_off + 13..bin_off + 16], &[0u8, 0, 0]);
    assert_eq!(out.len(), bin_off + 16);
    assert_eq!(le32_at(&out, 8) as usize, out.len());
}

#[test]
fn buffers_concatenate_in_order() {
    // "AAAA" decodes to three zero bytes, "aGVsbG8=" to "hello".
    let uri_a = b"data:application/octet-stream;base64,AAAA".to_vec();
    let uri_b = b"data:application/octet-stream;base64,aGVsbG8=".to_vec();
    let d = doc(
        Some(b"2.0"),
        Some(vec![BufferEntry::Uri(uri_a), BufferEntry::Uri(uri_b)]),
    );
    let (out_doc, payload) = prepare_chunks(d).unwrap();
    assert_eq!(payload.unwrap(), vec![0u8, 0, 0, 104, 101, 108, 108, 111]);
    let entries = out_doc.buffers.unwrap();
    assert_eq!(entries.len(), 2);
    assert!(matches!(entries[0], BufferEntry::NoUri));
    assert!(matches!(entries[1], BufferEntry::NoUri));
}

#[test]
fn short_uri_is_not_base64() {
    let uri = b"data:text/plain,hi".to_vec();
    let d = doc(Some(b"2.0"), Some(vec![BufferEntry::Uri(uri.clone())]));
    match prepare_chunks(d) {
        Err(FormatError::NotBase64Uri(u)) => assert_eq!(u, uri),
        r => panic!("expected NotBase64Uri, got {:?}", r),
    }
}

#[test]
fn wrong_mime_prefix_is_refused() {
    // Long enough to carry a 37-byte prefix, but of the wrong mime type.
    let uri = b"data:image/png;base64,AAAAAAAAAAAAAAAAAAAA".to_vec();
    assert!(uri.len() >= 37);
    let d = doc(Some(b"2.0"), Some(vec![BufferEntry::Uri(uri.clone())]));
    match prepare_chunks(d) {
        Err(FormatError::InvalidMimeType(m)) => assert_eq!(m, uri[..37].to_vec()),
        r => panic!("expected InvalidMimeType, got {:?}", r),
    }
}

#[test]
fn malformed_base64_is_refused() {
    let uri = b"data:application/octet-stream;base64,!!!!".to_vec();
    let d = doc(Some(b"2.0"), Some(vec![BufferEntry::Uri(uri)]));
    assert!(matches!(prepare_chunks(d), Err(FormatError::Base64Decode)));
}

#[test]
fn non_object_buffer_is_refused() {
    let d = doc(Some(b"2.0"), Some(vec![BufferEntry::NotObject]));
    assert!(matches!(prepare_chunks(d), Err(FormatError::BufferNotObject)));
}

#[test]
fn buffer_without_string_uri_is_refused() {
    let d = doc(Some(b"2.0"), Some(vec![BufferEntry::NoUri]));
    assert!(matches!(
        prepare_chunks(d),
        Err(FormatError::BufferUriNotString)
    ));
}

#[test]
fn first_bad_buffer_aborts_the_walk() {
    let uri = b"data:application/octet-stream;base64,AAAA".to_vec();
    let d = doc(
        Some(b"2.0"),
        Some(vec![BufferEntry::Uri(uri), BufferEntry::NotObject]),
    );
    assert!(matches!(prepare_chunks(d), Err(FormatError::BufferNotObject)));
}

#[test]
fn uri_of_bare_prefix_decodes_to_nothing() {
    // Exactly the 37 prefix bytes: an empty base64 payload is valid and
    // contributes no bytes.
    let uri = b"data:application/octet-stream;base64,".to_vec();
    assert_eq!(uri.len(), 37);
    let d = doc(Some(b"2.0"), Some(vec![BufferEntry::Uri(uri)]));
    let (_, payload) = prepare_chunks(d).unwrap();
    assert_eq!(payload.unwrap(), Vec::<u8>::new());
}

#[test]
fn empty_buffers_array_gives_empty_payload() {
    let d = doc(Some(b"2.0"), Some(vec![]));
    let (out, payload) = prepare_chunks(d).unwrap();
    assert_eq!(payload.unwrap(), Vec::<u8>::new());
    assert_eq!(out.buffers.unwrap().len(), 0);
}

#[test]
fn little_endian_encoding() {
    assert_eq!(le32_bytes(0x46546C67), vec![0x67, 0x6C, 0x54, 0x46]);
    assert_eq!(le32_bytes(0), vec![0, 0, 0, 0]);
    assert_eq!(le32_bytes(0xFFFFFFFF), vec![0xFF, 0xFF, 0xFF, 0xFF]);
}

#[test]
fn header_and_chunk_records() {
    let h = GlbHeader::new(48);
    assert_eq!(h.to_bytes(), vec![0x67, 0x6C, 0x54, 0x46, 2, 0, 0, 0, 48, 0, 0, 0]);
    let j = GlbChunk::json(28);
    assert_eq!(j.to_bytes(), vec![28, 0, 0, 0, 0x4A, 0x53, 0x4F, 0x4E]);
    let b = GlbChunk::binary(5);
    assert_eq!(b.to_bytes(), vec![5, 0, 0, 0, 0x42, 0x49, 0x4E, 0x00]);
}

#[test]
fn padded_writes_body_then_filler() {
    let mut out = vec![9u8];
    let size = padded(&mut out, &vec![1u8, 2, 3, 4, 5], 0x20);
    assert_eq!(size, 8);
    assert_eq!(out, vec![9u8, 1, 2, 3, 4, 5, 0x20, 0x20, 0x20]);

    let mut out = Vec::new();
    let size = padded(&mut out, &vec![1u8, 2, 3, 4], 0x00);
    assert_eq!(size, 4);
    assert_eq!(out, vec![1u8, 2, 3, 4]);

    let mut out = Vec::new();
    let size = padded(&mut out, &Vec::new(), 0x00);
    assert_eq!(size, 0);
    assert_eq!(out, Vec::<u8>::new());
}
