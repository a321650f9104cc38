//! The canonical body of a response: a body sent with a `gzip`, `deflate`,
//! `br` or `zstd` content encoding is decoded, and the encoding and length
//! headers that described the encoded form are dropped.
use vstd::prelude::*;
use std::io::Read;
use crate::text::{chars_of, lower, lower_str, contains, contains_str};
use crate::wire::{HeaderMap, entry_view, header_value, header_value_spec};

verus! {

/// What `flate2`'s gzip reader makes of some bytes: the decoded bytes, or
/// `None` where it reports an error.
pub uninterp spec fn gzip_decoded(bytes: Seq<u8>) -> Option<Seq<u8>>;

/// What `flate2`'s zlib reader makes of some bytes.
pub uninterp spec fn zlib_decoded(bytes: Seq<u8>) -> Option<Seq<u8>>;

/// What `flate2`'s raw deflate reader makes of some bytes.
pub uninterp spec fn deflate_decoded(bytes: Seq<u8>) -> Option<Seq<u8>>;

/// What `brotli`'s decompressor makes of some bytes.
pub uninterp spec fn brotli_decoded(bytes: Seq<u8>) -> Option<Seq<u8>>;

/// What `zstd`'s stream decoder makes of some bytes.
pub uninterp spec fn zstd_decoded(bytes: Seq<u8>) -> Option<Seq<u8>>;

pub open spec fn opt_bytes(o: Option<Vec<u8>>) -> Option<Seq<u8>> {
    match o {
        Some(v) => Some(v@),
        None => None,
    }
}

/// `flate2::read::GzDecoder` read to the end: the decoded bytes, or `None`
/// on a read error. The contract names the outcome and claims nothing more.
#[verifier::external_body]
fn gunzip(bytes: &[u8]) -> (r: Option<Vec<u8>>)
    ensures
        opt_bytes(r) == gzip_decoded(bytes@),
{
    let mut out = Vec::new();
    flate2::read::GzDecoder::new(bytes).read_to_end(&mut out).ok().map(|_| out)
}

/// `flate2::read::ZlibDecoder` read to the end.
#[verifier::external_body]
fn unzlib(bytes: &[u8]) -> (r: Option<Vec<u8>>)
    ensures
        opt_bytes(r) == zlib_decoded(bytes@),
{
    let mut out = Vec::new();
    flate2::read::ZlibDecoder::new(bytes).read_to_end(&mut out).ok().map(|_| out)
}

/// `flate2::read::DeflateDecoder` read to the end.
#[verifier::external_body]
fn undeflate(bytes: &[u8]) -> (r: Option<Vec<u8>>)
    ensures
        opt_bytes(r) == deflate_decoded(bytes@),
{
    let mut out = Vec::new();
    flate2::read::DeflateDecoder::new(bytes).read_to_end(&mut out).ok().map(|_| out)
}

/// `brotli::BrotliDecompress` into a buffer.
#[verifier::external_body]
fn unbrotli(bytes: &[u8]) -> (r: Option<Vec<u8>>)
    ensures
        opt_bytes(r) == brotli_decoded(bytes@),
{
    let mut out = Vec::new();
    let mut input = bytes;
    brotli::BrotliDecompress(&mut input, &mut out).ok().map(|_| out)
}

/// `zstd::stream::decode_all`.
#[verifier::external_body]
fn unzstd(bytes: &[u8]) -> (r: Option<Vec<u8>>)
    ensures
        opt_bytes(r) == zstd_decoded(bytes@),
{
    zstd::stream::decode_all(bytes).ok()
}

/// The content encoding, lower-cased (empty when there is none).
pub open spec fn encoding_of(entries: Seq<(Seq<char>, Seq<char>)>) -> Seq<char> {
    match header_value_spec(entries, "content-encoding"@) {
        Some(v) => lower(v),
        None => Seq::empty(),
    }
}

/// The decoded body for an encoding: gzip, else deflate (zlib-wrapped, or
/// raw where that fails), else brotli, else zstd, as the encoding names
/// them; `None` when none is named or decoding fails.
pub open spec fn decoded_for(encoding: Seq<char>, body: Seq<u8>) -> Option<Seq<u8>> {
    if contains(encoding, "gzip"@) {
        gzip_decoded(body)
    } else if contains(encoding, "deflate"@) {
        match zlib_decoded(body) {
            Some(b) => Some(b),
            None => deflate_decoded(body),
        }
    } else if contains(encoding, "br"@) {
        brotli_decoded(body)
    } else if contains(encoding, "zstd"@) {
        zstd_decoded(body)
    } else {
        None
    }
}

/// The entries, in order, not named `name` (ignoring ASCII case).
pub open spec fn without_header(entries: Seq<(Seq<char>, Seq<char>)>, name: Seq<char>) -> Seq<
    (Seq<char>, Seq<char>),
> {
    entries.filter(|e: (Seq<char>, Seq<char>)| lower(e.0) != lower(name))
}

/// Removes every header named `name`, ignoring ASCII case.
pub fn remove_header(headers: &mut HeaderMap, name: &str)
    ensures
        final(headers).view_entries() == without_header(old(headers).view_entries(), name@),
{
    let ghost orig = headers.view_entries();
    let target = lower_str(name);
    let mut kept: Vec<(String, String)> = Vec::new();
    let mut i: usize = 0;
    while i < headers.entries.len()
        invariant
            i <= headers.entries.len(),
            headers.view_entries() == orig,
            orig.len() == headers.entries.len(),
            target@ == lower(name@),
            kept@.map_values(|e: (String, String)| entry_view(e)) == without_header(
                orig.subrange(0, i as int),
                name@,
            ),
        decreases headers.entries.len() - i,
    {
        proof {
            assert(orig.subrange(0, i + 1).drop_last() =~= orig.subrange(0, i as int));
            assert(orig[i as int] == entry_view(headers.entries@[i as int]));
            reveal(Seq::filter);
        }
        let key = lower_str(headers.entries[i].0.as_str());
        if !crate::text::eq_chars(&key, &target) {
            kept.push((headers.entries[i].0.clone(), headers.entries[i].1.clone()));
        }
        proof {
            assert(kept@.map_values(|e: (String, String)| entry_view(e)) =~= without_header(
                orig.subrange(0, i + 1),
                name@,
            ));
        }
        i = i + 1;
    }
    proof {
        assert(orig.subrange(0, i as int) =~= orig);
    }
    headers.entries = kept;
}

/// The canonical body of a response (see `decoded_for`). When the body was
/// decoded, or the encoding names zstd, the `content-encoding` and
/// `content-length` headers are removed; otherwise the headers stay as they
/// were.
pub fn decoded_response_body(res_headers: &mut HeaderMap, res_bytes: &Vec<u8>) -> (r: Vec<u8>)
    ensures
        ({
            let enc = encoding_of(old(res_headers).view_entries());
            let decoded = decoded_for(enc, res_bytes@);
            &&& r@ == match decoded {
                Some(b) => b,
                None => res_bytes@,
            }
            &&& final(res_headers).view_entries() == if decoded is Some || contains(enc, "zstd"@) {
                without_header(
                    without_header(old(res_headers).view_entries(), "content-encoding"@),
                    "content-length"@,
                )
            } else {
                old(res_headers).view_entries()
            }
        }),
{
    let encoding: Vec<char> = match header_value(res_headers, "content-encoding") {
        Some(v) => crate::text::lower_vec(&chars_of(v.as_str())),
        None => Vec::new(),
    };
    let body = res_bytes.as_slice();
    let decoded = if contains_str(&encoding, "gzip") {
        gunzip(body)
    } else if contains_str(&encoding, "deflate") {
        match unzlib(body) {
            Some(b) => Some(b),
            None => undeflate(body),
        }
    } else if contains_str(&encoding, "br") {
        unbrotli(body)
    } else if contains_str(&encoding, "zstd") {
        unzstd(body)
    } else {
        None
    };
    if decoded.is_some() || contains_str(&encoding, "zstd") {
        remove_header(res_headers, "content-encoding");
        remove_header(res_headers, "content-length");
    }
    match decoded {
        Some(b) => b,
        None => res_bytes.clone(),
    }
}

} // verus!
