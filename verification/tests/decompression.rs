use oproxy::decompression::decoded_response_body;
use oproxy::wire::{contains_key, HeaderMap};
use std::io::Write as _;

fn encoded_headers(encoding: &str, len: usize) -> HeaderMap {
    let mut headers = HeaderMap::new();
    headers.insert("Content-Encoding".to_string(), encoding.to_string());
    headers.insert("Content-Length".to_string(), len.to_string());
    headers
}

fn zlib(data: &[u8]) -> Vec<u8> {
    let mut encoder = flate2::write::ZlibEncoder::new(Vec::new(), flate2::Compression::default());
    encoder.write_all(data).unwrap();
    encoder.finish().unwrap()
}

#[test]
fn engine_decoded_response_body_decodes_zlib_wrapped_deflate() {
    let compressed = zlib(b"hello-deflate-body");
    let mut headers = encoded_headers("deflate", compressed.len());
    let bytes = decoded_response_body(&mut headers, &compressed);
    assert_eq!(&bytes[..], b"hello-deflate-body");
    assert!(!contains_key(&headers, "Content-Encoding"));
    assert!(!contains_key(&headers, "Content-Length"));
}

#[test]
fn mod_decoded_response_body_decodes_zlib_wrapped_deflate() {
    let compressed = zlib(b"hello-deflate-body");
    let mut headers = encoded_headers("deflate", compressed.len());
    let bytes = decoded_response_body(&mut headers, &compressed);
    assert_eq!(&bytes[..], b"hello-deflate-body");
    assert!(!contains_key(&headers, "Content-Encoding"));
    assert!(!contains_key(&headers, "Content-Length"));
}

#[test]
fn decoded_response_body_decodes_zstd() {
    let compressed = zstd::stream::encode_all(&b"hello-zstd-body"[..], 0).unwrap();
    let mut headers = encoded_headers("zstd", compressed.len());
    let bytes = decoded_response_body(&mut headers, &compressed);
    assert_eq!(&bytes[..], b"hello-zstd-body");
    assert!(!contains_key(&headers, "Content-Encoding"));
    assert!(!contains_key(&headers, "Content-Length"));
}

#[test]
fn decoded_response_body_strips_stale_zstd_header_for_plain_body() {
    let mut headers = encoded_headers("zstd", 15);
    let bytes = decoded_response_body(&mut headers, &b"already decoded".to_vec());
    assert_eq!(&bytes[..], b"already decoded");
    assert!(!contains_key(&headers, "Content-Encoding"));
    assert!(!contains_key(&headers, "Content-Length"));
}

#[test]
fn decoded_response_body_decodes_gzip_and_raw_deflate() {
    let mut gz = flate2::write::GzEncoder::new(Vec::new(), flate2::Compression::default());
    gz.write_all(b"gzip body").unwrap();
    let gz = gz.finish().unwrap();
    let mut headers = encoded_headers("GZIP", gz.len());
    assert_eq!(decoded_response_body(&mut headers, &gz), b"gzip body".to_vec());

    let mut raw = flate2::write::DeflateEncoder::new(Vec::new(), flate2::Compression::default());
    raw.write_all(b"raw deflate").unwrap();
    let raw = raw.finish().unwrap();
    let mut headers = encoded_headers("deflate", raw.len());
    assert_eq!(decoded_response_body(&mut headers, &raw), b"raw deflate".to_vec());
    assert!(!contains_key(&headers, "Content-Encoding"));
}

#[test]
fn decoded_response_body_decodes_brotli() {
    let mut out = Vec::new();
    {
        let mut w = brotli::CompressorWriter::new(&mut out, 4096, 5, 22);
        w.write_all(b"brotli body").unwrap();
    }
    let mut headers = encoded_headers("br", out.len());
    assert_eq!(decoded_response_body(&mut headers, &out), b"brotli body".to_vec());
    assert!(!contains_key(&headers, "Content-Length"));
}

#[test]
fn undecodable_or_plain_bodies_keep_their_headers() {
    let mut headers = encoded_headers("gzip", 5);
    assert_eq!(decoded_response_body(&mut headers, &b"plain".to_vec()), b"plain".to_vec());
    assert!(contains_key(&headers, "Content-Encoding"));
    let mut headers = encoded_headers("identity", 5);
    assert_eq!(decoded_response_body(&mut headers, &b"plain".to_vec()), b"plain".to_vec());
    assert!(contains_key(&headers, "Content-Length"));
}
