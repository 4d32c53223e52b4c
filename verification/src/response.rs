//! The response encoder: exact wire framing of a 200 response —
//! status line, optional `Content-Encoding`, `Content-Type`,
//! `Content-Length` of the (possibly compressed) payload, a blank line,
//! the payload, and a trailing CRLF — together with the fixed response
//! lines for 201, 404 and the bare 200. Compression itself is flate2's
//! work, behind trusted wrappers.
use std::io::Write;

use vstd::prelude::*;
use vstd::slice::slice_to_vec;
use vstd::string::StringSliceAdditionalSpecFns;

use crate::bytes_util::{bytes_eq, dec_digits, push_decimal};

verus! {

/// The bytes flate2's gzip encoder writes for `data` at the default level.
pub uninterp spec fn gzip_of(data: Seq<u8>) -> Seq<u8>;

/// The bytes flate2's deflate encoder writes for `data` at the default level.
pub uninterp spec fn deflate_of(data: Seq<u8>) -> Seq<u8>;

/// Relies on flate2::write::GzEncoder at the default compression level:
/// the stream it writes is a function of the input bytes alone (the gzip
/// header's mtime is fixed at 0 and its operating-system byte at 255),
/// and writing into a Vec cannot fail.
#[verifier::external_body]
fn gzip_compress(data: &Vec<u8>) -> (r: Vec<u8>)
    ensures
        r@ == gzip_of(data@),
{
    let mut e = flate2::write::GzEncoder::new(Vec::new(), flate2::Compression::default());
    let _ = e.write_all(data.as_slice());
    e.finish().unwrap()
}

/// Relies on flate2::write::DeflateEncoder at the default compression
/// level: the raw deflate stream is a function of the input bytes alone,
/// and writing into a Vec cannot fail.
#[verifier::external_body]
fn deflate_compress(data: &Vec<u8>) -> (r: Vec<u8>)
    ensures
        r@ == deflate_of(data@),
{
    let mut e = flate2::write::DeflateEncoder::new(Vec::new(), flate2::Compression::default());
    let _ = e.write_all(data.as_slice());
    e.finish().unwrap()
}

/// The exact wire bytes of a 200 response carrying `payload`: when `enc`
/// is non-empty a `Content-Encoding: <enc>` line follows the status line;
/// `Content-Length` is the decimal length of `payload`; the payload is
/// followed by one trailing CRLF.
pub open spec fn spec_framed(enc: Seq<u8>, ct: Seq<u8>, payload: Seq<u8>) -> Seq<u8> {
    "HTTP/1.1 200 OK\r\n".spec_bytes() + (if enc.len() > 0 {
        "Content-Encoding: ".spec_bytes() + enc + "\r\n".spec_bytes()
    } else {
        Seq::<u8>::empty()
    }) + "Content-Type: ".spec_bytes() + ct + "\r\nContent-Length: ".spec_bytes() + dec_digits(
        payload.len(),
    ) + "\r\n\r\n".spec_bytes() + payload + "\r\n".spec_bytes()
}

fn build_framed(enc: &[u8], ct: &[u8], payload: &[u8]) -> (r: Vec<u8>)
    ensures
        r@ == spec_framed(enc@, ct@, payload@),
{
    let mut out: Vec<u8> = Vec::new();
    out.extend_from_slice("HTTP/1.1 200 OK\r\n".as_bytes());
    if enc.len() > 0 {
        out.extend_from_slice("Content-Encoding: ".as_bytes());
        out.extend_from_slice(enc);
        out.extend_from_slice("\r\n".as_bytes());
    }
    out.extend_from_slice("Content-Type: ".as_bytes());
    out.extend_from_slice(ct);
    out.extend_from_slice("\r\nContent-Length: ".as_bytes());
    push_decimal(&mut out, payload.len());
    out.extend_from_slice("\r\n\r\n".as_bytes());
    out.extend_from_slice(payload);
    out.extend_from_slice("\r\n".as_bytes());
    proof {
        assert(out@ =~= spec_framed(enc@, ct@, payload@));
    }
    out
}

/// The response for body `text` under the negotiated encoding `enc`:
/// `gzip` or `deflate` compresses the body and names itself in
/// `Content-Encoding`; any other value (the empty one included) passes
/// the body through with no `Content-Encoding` line at all.
pub open spec fn spec_response(text: Seq<u8>, ct: Seq<u8>, enc: Seq<u8>) -> Seq<u8> {
    if enc == "gzip".spec_bytes() {
        spec_framed("gzip".spec_bytes(), ct, gzip_of(text))
    } else if enc == "deflate".spec_bytes() {
        spec_framed("deflate".spec_bytes(), ct, deflate_of(text))
    } else {
        spec_framed(Seq::<u8>::empty(), ct, text)
    }
}

/// Encodes a 200 response for `text`, compressing when `content_encoding`
/// names a supported algorithm and passing the body through otherwise.
pub fn generate_response(text: &Vec<u8>, content_type: &Vec<u8>, content_encoding: &Vec<u8>) -> (r:
    Vec<u8>)
    ensures
        r@ == spec_response(text@, content_type@, content_encoding@),
{
    if bytes_eq(content_encoding.as_slice(), "gzip".as_bytes()) {
        let compressed = gzip_compress(text);
        build_framed("gzip".as_bytes(), content_type.as_slice(), compressed.as_slice())
    } else if bytes_eq(content_encoding.as_slice(), "deflate".as_bytes()) {
        let compressed = deflate_compress(text);
        build_framed("deflate".as_bytes(), content_type.as_slice(), compressed.as_slice())
    } else {
        let none: Vec<u8> = Vec::new();
        build_framed(none.as_slice(), content_type.as_slice(), text.as_slice())
    }
}

/// The whole 400 response a malformed request line is answered with:
/// status line and terminating CRLF, nothing else.
pub open spec fn spec_res_400() -> Seq<u8> {
    "HTTP/1.1 400 Bad Request\r\n\r\n".spec_bytes()
}

pub fn res_400() -> (r: Vec<u8>)
    ensures
        r@ == spec_res_400(),
{
    slice_to_vec("HTTP/1.1 400 Bad Request\r\n\r\n".as_bytes())
}

/// The whole 404 response: status line and terminating CRLF, nothing else.
pub open spec fn spec_res_404() -> Seq<u8> {
    "HTTP/1.1 404 Not Found\r\n\r\n".spec_bytes()
}

pub fn res_404() -> (r: Vec<u8>)
    ensures
        r@ == spec_res_404(),
{
    slice_to_vec("HTTP/1.1 404 Not Found\r\n\r\n".as_bytes())
}

/// The whole 201 response: status line and terminating CRLF, nothing else.
pub open spec fn spec_res_201() -> Seq<u8> {
    "HTTP/1.1 201 Created\r\n\r\n".spec_bytes()
}

pub fn res_201() -> (r: Vec<u8>)
    ensures
        r@ == spec_res_201(),
{
    slice_to_vec("HTTP/1.1 201 Created\r\n\r\n".as_bytes())
}

/// The bare 200 response of the root route: no body, no extra headers.
pub open spec fn spec_res_200_empty() -> Seq<u8> {
    "HTTP/1.1 200 OK\r\n\r\n".spec_bytes()
}

pub fn res_200_empty() -> (r: Vec<u8>)
    ensures
        r@ == spec_res_200_empty(),
{
    slice_to_vec("HTTP/1.1 200 OK\r\n\r\n".as_bytes())
}

} // verus!
