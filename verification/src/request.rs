//! The request parser. Line 0 of the CRLF-split buffer is the request
//! line: the method token (`GET` or `POST`) up to the first space, then
//! the path token; a request line without two such tokens, or with a
//! method the engine does not know, is malformed and parsing fails. The
//! following lines, up to the blank separator line, are scanned for the
//! recognized headers (`Host`, `User-Agent`, `Accept`, `Accept-Encoding`);
//! the first line whose key is not recognized stops the scan, and lines
//! past the blank separator — the body — are never read as headers.
use vstd::prelude::*;
use vstd::slice::{slice_subrange, slice_to_vec};
use vstd::string::StringSliceAdditionalSpecFns;

use crate::bytes_util::{bytes_eq, find_byte, find_byte_in, split_on, split_on_exec};

verus! {

/// The ASCII space that separates the request-line tokens and a header
/// key from its value.
pub const SPACE: u8 = 32;

#[derive(Clone, Copy, Debug, PartialEq, Eq, Structural)]
pub enum RequestMethod {
    GET,
    POST,
}

/// Mathematical model of a parsed request header.
#[verifier::ext_equal]
pub struct HeaderModel {
    pub method: RequestMethod,
    pub host: Seq<u8>,
    pub user_agent: Seq<u8>,
    pub accept_encoding: Seq<u8>,
    pub accept: Seq<u8>,
    pub path: Seq<u8>,
}

/// The header every parse starts from: GET with every field empty.
pub open spec fn init_header_model() -> HeaderModel {
    HeaderModel {
        method: RequestMethod::GET,
        host: Seq::<u8>::empty(),
        user_agent: Seq::<u8>::empty(),
        accept_encoding: Seq::<u8>::empty(),
        accept: Seq::<u8>::empty(),
        path: Seq::<u8>::empty(),
    }
}

/// A parsed request header. Absence of a recognized header leaves the
/// field at its default (empty) value, never an error.
#[derive(Debug, Clone)]
pub struct RequestHeader {
    pub method: RequestMethod,
    pub host: Vec<u8>,
    pub user_agent: Vec<u8>,
    pub accept_encoding: Vec<u8>,
    pub accept: Vec<u8>,
    pub path: Vec<u8>,
}

impl View for RequestHeader {
    type V = HeaderModel;

    open spec fn view(&self) -> HeaderModel {
        HeaderModel {
            method: self.method,
            host: self.host@,
            user_agent: self.user_agent@,
            accept_encoding: self.accept_encoding@,
            accept: self.accept@,
            path: self.path@,
        }
    }
}

impl Default for RequestHeader {
    fn default() -> (r: Self)
        ensures
            r@ == init_header_model(),
    {
        let r = RequestHeader {
            method: RequestMethod::GET,
            host: Vec::new(),
            user_agent: Vec::new(),
            accept_encoding: Vec::new(),
            accept: Vec::new(),
            path: Vec::new(),
        };
        proof {
            assert(r@ =~= init_header_model());
        }
        r
    }
}

/// The value up to (not including) its first space: what taking the first
/// token of a space-split value yields.
pub open spec fn first_token(v: Seq<u8>) -> Seq<u8> {
    let i = find_byte(v, SPACE);
    if i < 0 {
        v
    } else {
        v.take(i)
    }
}

pub fn first_token_exec(v: &[u8]) -> (r: Vec<u8>)
    ensures
        r@ == first_token(v@),
{
    match find_byte_in(v, SPACE) {
        Some(i) => {
            let r = slice_to_vec(slice_subrange(v, 0, i));
            proof {
                assert(r@ =~= first_token(v@));
            }
            r
        },
        None => slice_to_vec(v),
    }
}

/// The encoding that scanning `tokens` leaves negotiated, starting from
/// `current`: each supported token (`gzip` or `deflate`) overwrites the
/// choice, so the last supported token wins; unsupported tokens change
/// nothing.
pub open spec fn negotiate(tokens: Seq<Seq<u8>>, current: Seq<u8>) -> Seq<u8>
    decreases tokens.len(),
{
    if tokens.len() == 0 {
        current
    } else {
        let next = if tokens[0] == "gzip".spec_bytes() {
            "gzip".spec_bytes()
        } else if tokens[0] == "deflate".spec_bytes() {
            "deflate".spec_bytes()
        } else {
            current
        };
        negotiate(tokens.skip(1), next)
    }
}

/// Scans the `Accept-Encoding` value, split on `", "`, and returns the
/// negotiated encoding starting from `current`.
pub fn negotiate_exec(value: &[u8], current: Vec<u8>) -> (r: Vec<u8>)
    ensures
        r@ == negotiate(split_on(value@, ", ".spec_bytes()), current@),
{
    let ghost current0: Seq<u8> = current@;
    let tokens = split_on_exec(value, ", ".as_bytes());
    let ghost toks: Seq<Seq<u8>> = split_on(value@, ", ".spec_bytes());
    proof {
        assert(tokens.deep_view() == toks);
        assert(toks.skip(0) =~= toks);
    }
    let mut cur = current;
    let mut i: usize = 0;
    while i < tokens.len()
        invariant
            0 <= i <= tokens@.len(),
            toks == tokens.deep_view(),
            toks.len() == tokens@.len(),
            negotiate(toks, current0) == negotiate(toks.skip(i as int), cur@),
        decreases tokens@.len() - i,
    {
        let t: &Vec<u8> = &tokens[i];
        proof {
            assert(toks.skip(i as int)[0] == t@);
            assert(toks.skip(i as int).skip(1) =~= toks.skip(i as int + 1));
        }
        if bytes_eq(t.as_slice(), "gzip".as_bytes()) {
            cur = slice_to_vec("gzip".as_bytes());
        } else if bytes_eq(t.as_slice(), "deflate".as_bytes()) {
            cur = slice_to_vec("deflate".as_bytes());
        }
        i = i + 1;
    }
    proof {
        assert(toks.skip(toks.len() as int) =~= Seq::<Seq<u8>>::empty());
    }
    cur
}

/// What scanning the header lines from the accumulated header `acc`
/// yields. The blank separator line ends the scan: lines past it — the
/// body — are not headers. Before it, each line is split at its first
/// space into a key and a value; recognized keys update one field, a
/// non-empty line without a space is skipped, and the first unrecognized
/// key ends the scan with the header as it stands.
pub open spec fn scan_headers(lines: Seq<Seq<u8>>, acc: HeaderModel) -> HeaderModel
    decreases lines.len(),
{
    if lines.len() == 0 {
        acc
    } else {
        let line = lines[0];
        if line.len() == 0 {
            acc
        } else {
            let i = find_byte(line, SPACE);
            if i < 0 {
                scan_headers(lines.skip(1), acc)
            } else {
                let key = line.take(i);
                let value = line.skip(i + 1);
                if key == "Host:".spec_bytes() {
                    scan_headers(lines.skip(1), HeaderModel { host: value, ..acc })
                } else if key == "User-Agent:".spec_bytes() {
                    scan_headers(lines.skip(1), HeaderModel { user_agent: value, ..acc })
                } else if key == "Accept:".spec_bytes() {
                    scan_headers(lines.skip(1), HeaderModel { accept: value, ..acc })
                } else if key == "Accept-Encoding:".spec_bytes() {
                    scan_headers(
                        lines.skip(1),
                        HeaderModel {
                            accept_encoding: negotiate(
                                split_on(value, ", ".spec_bytes()),
                                acc.accept_encoding,
                            ),
                            ..acc
                        },
                    )
                } else {
                    acc
                }
            }
        }
    }
}

/// A malformed request line: one that cannot be split at a space into a
/// method token and a remainder holding the path, or whose method token
/// is neither `GET` nor `POST`.
pub open spec fn request_line_malformed(line: Seq<u8>) -> bool {
    let i = find_byte(line, SPACE);
    i < 0 || (line.take(i) != "GET".spec_bytes() && line.take(i) != "POST".spec_bytes())
}

/// The request line's contribution: the method and the first token of
/// the remainder as the path, over the otherwise-empty header.
pub open spec fn request_line_model(line: Seq<u8>) -> HeaderModel {
    let i = find_byte(line, SPACE);
    let method = if line.take(i) == "POST".spec_bytes() {
        RequestMethod::POST
    } else {
        RequestMethod::GET
    };
    HeaderModel { method, path: first_token(line.skip(i + 1)), ..init_header_model() }
}

/// The header that parsing the CRLF-split lines yields, or `None` exactly
/// when there is no request line or it is malformed.
pub open spec fn spec_parse_request_header(lines: Seq<Seq<u8>>) -> Option<HeaderModel> {
    if lines.len() == 0 || request_line_malformed(lines[0]) {
        None
    } else {
        Some(scan_headers(lines.skip(1), request_line_model(lines[0])))
    }
}

/// Parses the CRLF-split lines of a request buffer: `None` exactly on a
/// malformed request line, otherwise the parsed header.
pub fn parse_request_header(lines: &Vec<Vec<u8>>) -> (r: Option<RequestHeader>)
    ensures
        match r {
            Some(h) => spec_parse_request_header(lines.deep_view()) == Some(h@),
            None => spec_parse_request_header(lines.deep_view()) is None,
        },
{
    let ghost all: Seq<Seq<u8>> = lines.deep_view();
    if lines.len() == 0 {
        return None;
    }
    let line0: &Vec<u8> = &lines[0];
    proof {
        assert(all[0] == line0@);
    }
    let i = match find_byte_in(line0.as_slice(), SPACE) {
        Some(i) => i,
        None => {
            return None;
        },
    };
    let n0 = line0.len();
    assert(i < n0);
    let method_token = slice_subrange(line0.as_slice(), 0, i);
    let rest = slice_subrange(line0.as_slice(), i + 1, n0);
    proof {
        assert(method_token@ =~= all[0].take(i as int));
        assert(rest@ =~= all[0].skip(i as int + 1));
    }
    let mut h = RequestHeader::default();
    if bytes_eq(method_token, "GET".as_bytes()) {
        h.method = RequestMethod::GET;
    } else if bytes_eq(method_token, "POST".as_bytes()) {
        h.method = RequestMethod::POST;
    } else {
        return None;
    }
    h.path = first_token_exec(rest);
    proof {
        reveal_strlit("GET");
        reveal_strlit("POST");
        assert(vstd::string::is_ascii("GET"));
        assert(vstd::string::is_ascii("POST"));
        vstd::string::is_ascii_spec_bytes("GET");
        vstd::string::is_ascii_spec_bytes("POST");
        assert("GET".spec_bytes().len() == 3);
        assert("POST".spec_bytes().len() == 4);
        assert(h@ =~= request_line_model(all[0]));
    }
    let mut idx: usize = 1;
    while idx < lines.len()
        invariant
            1 <= idx <= lines@.len(),
            all == lines.deep_view(),
            all.len() == lines@.len(),
            all.len() >= 1,
            !request_line_malformed(all[0]),
            scan_headers(all.skip(1), request_line_model(all[0])) == scan_headers(
                all.skip(idx as int),
                h@,
            ),
        decreases lines@.len() - idx,
    {
        let line: &Vec<u8> = &lines[idx];
        proof {
            assert(all.skip(idx as int)[0] == line@);
            assert(all.skip(idx as int).skip(1) =~= all.skip(idx as int + 1));
        }
        if line.len() == 0 {
            return Some(h);
        }
        match find_byte_in(line.as_slice(), SPACE) {
            None => {},
            Some(i) => {
                let n = line.len();
                assert(i < n);
                let key = slice_subrange(line.as_slice(), 0, i);
                let value = slice_subrange(line.as_slice(), i + 1, n);
                proof {
                    assert(key@ =~= line@.take(i as int));
                    assert(value@ =~= line@.skip(i as int + 1));
                }
                if bytes_eq(key, "Host:".as_bytes()) {
                    h.host = slice_to_vec(value);
                } else if bytes_eq(key, "User-Agent:".as_bytes()) {
                    h.user_agent = slice_to_vec(value);
                } else if bytes_eq(key, "Accept:".as_bytes()) {
                    h.accept = slice_to_vec(value);
                } else if bytes_eq(key, "Accept-Encoding:".as_bytes()) {
                    let prev = h.accept_encoding;
                    h.accept_encoding = negotiate_exec(value, prev);
                } else {
                    return Some(h);
                }
            },
        }
        idx = idx + 1;
    }
    proof {
        assert(all.skip(all.len() as int) =~= Seq::<Seq<u8>>::empty());
    }
    Some(h)
}

} // verus!
