//! The router: matches the parsed method and path against the fixed rule
//! set — root, echo, user-agent, file read, file write, in that order,
//! first match wins — and produces either finished response bytes or the
//! filesystem action the surroundings must perform. The outcomes of those
//! actions come back through `file_read_response` / `file_write_response`.
use vstd::prelude::*;
use vstd::slice::{slice_subrange, slice_to_vec};
use vstd::string::StringSliceAdditionalSpecFns;

use crate::bytes_util::{bytes_eq, is_prefix, split_on, split_on_exec, starts_with};
use crate::request::{
    parse_request_header, spec_parse_request_header, HeaderModel, RequestHeader, RequestMethod,
};
use crate::response::{
    generate_response, res_200_empty, res_201, res_400, res_404, spec_res_200_empty, spec_res_201,
    spec_res_400, spec_res_404, spec_response,
};

verus! {

/// What one request asks of the engine's surroundings: finished response
/// bytes to put on the wire, a file to read or to write under the served
/// directory, or — for a method+path pair no rule covers — nothing at all.
#[derive(Debug)]
pub enum Action {
    Respond(Vec<u8>),
    ReadFile { name: Vec<u8>, accept_encoding: Vec<u8> },
    WriteFile { name: Vec<u8>, contents: Vec<u8> },
    NoResponse,
}

/// Mathematical model of an `Action`.
#[verifier::ext_equal]
pub enum ActionModel {
    Respond(Seq<u8>),
    ReadFile { name: Seq<u8>, accept_encoding: Seq<u8> },
    WriteFile { name: Seq<u8>, contents: Seq<u8> },
    NoResponse,
}

impl View for Action {
    type V = ActionModel;

    open spec fn view(&self) -> ActionModel {
        match self {
            Action::Respond(bytes) => ActionModel::Respond(bytes@),
            Action::ReadFile { name, accept_encoding } => ActionModel::ReadFile {
                name: name@,
                accept_encoding: accept_encoding@,
            },
            Action::WriteFile { name, contents } => ActionModel::WriteFile {
                name: name@,
                contents: contents@,
            },
            Action::NoResponse => ActionModel::NoResponse,
        }
    }
}

/// The route table. GET: `/` answers the bare 200; a `/echo/` prefix
/// answers the suffix as a text/plain body; `/user-agent` answers the
/// parsed `User-Agent` value; a `/files/` prefix asks for a file read;
/// anything else answers 404. POST: a `/files/` prefix asks for a file
/// write of `body`; anything else is silently dropped.
pub open spec fn spec_dispatch(h: HeaderModel, body: Seq<u8>) -> ActionModel {
    match h.method {
        RequestMethod::POST => {
            if is_prefix("/files/".spec_bytes(), h.path) {
                ActionModel::WriteFile {
                    name: h.path.skip("/files/".spec_bytes().len() as int),
                    contents: body,
                }
            } else {
                ActionModel::NoResponse
            }
        },
        RequestMethod::GET => {
            if h.path == "/".spec_bytes() {
                ActionModel::Respond(spec_res_200_empty())
            } else if is_prefix("/echo/".spec_bytes(), h.path) {
                ActionModel::Respond(
                    spec_response(
                        h.path.skip("/echo/".spec_bytes().len() as int),
                        "text/plain".spec_bytes(),
                        h.accept_encoding,
                    ),
                )
            } else if h.path == "/user-agent".spec_bytes() {
                ActionModel::Respond(
                    spec_response(h.user_agent, "text/plain".spec_bytes(), h.accept_encoding),
                )
            } else if is_prefix("/files/".spec_bytes(), h.path) {
                ActionModel::ReadFile {
                    name: h.path.skip("/files/".spec_bytes().len() as int),
                    accept_encoding: h.accept_encoding,
                }
            } else {
                ActionModel::Respond(spec_res_404())
            }
        },
    }
}

/// The suffix of `path` after the prefix `pre`, as a fresh vector.
fn path_suffix(path: &Vec<u8>, pre: &[u8]) -> (r: Vec<u8>)
    requires
        is_prefix(pre@, path@),
    ensures
        r@ == path@.skip(pre@.len() as int),
{
    let r = slice_to_vec(slice_subrange(path.as_slice(), pre.len(), path.len()));
    proof {
        assert(r@ =~= path@.skip(pre@.len() as int));
    }
    r
}

/// Matches the parsed header against the route table; `body` is the
/// request body a POST carries.
pub fn dispatch(h: &RequestHeader, body: &Vec<u8>) -> (r: Action)
    ensures
        r@ == spec_dispatch(h@, body@),
{
    match h.method {
        RequestMethod::POST => {
            if starts_with(h.path.as_slice(), "/files/".as_bytes()) {
                let name = path_suffix(&h.path, "/files/".as_bytes());
                Action::WriteFile { name, contents: slice_to_vec(body.as_slice()) }
            } else {
                Action::NoResponse
            }
        },
        RequestMethod::GET => {
            if bytes_eq(h.path.as_slice(), "/".as_bytes()) {
                Action::Respond(res_200_empty())
            } else if starts_with(h.path.as_slice(), "/echo/".as_bytes()) {
                let suffix = path_suffix(&h.path, "/echo/".as_bytes());
                let ct = slice_to_vec("text/plain".as_bytes());
                Action::Respond(generate_response(&suffix, &ct, &h.accept_encoding))
            } else if bytes_eq(h.path.as_slice(), "/user-agent".as_bytes()) {
                let ct = slice_to_vec("text/plain".as_bytes());
                Action::Respond(generate_response(&h.user_agent, &ct, &h.accept_encoding))
            } else if starts_with(h.path.as_slice(), "/files/".as_bytes()) {
                let name = path_suffix(&h.path, "/files/".as_bytes());
                Action::ReadFile { name, accept_encoding: slice_to_vec(h.accept_encoding.as_slice()) }
            } else {
                Action::Respond(res_404())
            }
        },
    }
}

/// The response owed once the surroundings report the file-read outcome:
/// the file's bytes as an application/octet-stream body under the
/// negotiated encoding, or the whole 404 response when the read failed.
pub open spec fn spec_file_read_response(contents: Option<Seq<u8>>, enc: Seq<u8>) -> Seq<u8> {
    match contents {
        Some(c) => spec_response(c, "application/octet-stream".spec_bytes(), enc),
        None => spec_res_404(),
    }
}

pub fn file_read_response(contents: Option<Vec<u8>>, accept_encoding: &Vec<u8>) -> (r: Vec<u8>)
    ensures
        r@ == spec_file_read_response(
            match contents {
                Some(c) => Some(c@),
                None => None,
            },
            accept_encoding@,
        ),
{
    match contents {
        Some(c) => {
            let ct = slice_to_vec("application/octet-stream".as_bytes());
            generate_response(&c, &ct, accept_encoding)
        },
        None => res_404(),
    }
}

/// The response owed once the surroundings report the file-write outcome:
/// the whole 201 response on success, the whole 404 response on failure.
pub open spec fn spec_file_write_response(ok: bool) -> Seq<u8> {
    if ok {
        spec_res_201()
    } else {
        spec_res_404()
    }
}

pub fn file_write_response(ok: bool) -> (r: Vec<u8>)
    ensures
        r@ == spec_file_write_response(ok),
{
    if ok {
        res_201()
    } else {
        res_404()
    }
}

/// The whole engine on one raw request buffer: split on CRLF, parse the
/// request line and the header lines, take the last line as the body a
/// POST carries, and dispatch; a malformed request line is answered with
/// the whole 400 response.
pub open spec fn spec_plan_request(buf: Seq<u8>) -> ActionModel {
    let lines = split_on(buf, "\r\n".spec_bytes());
    match spec_parse_request_header(lines) {
        Some(h) => spec_dispatch(h, lines.last()),
        None => ActionModel::Respond(spec_res_400()),
    }
}

pub fn plan_request(buf: &Vec<u8>) -> (r: Action)
    ensures
        r@ == spec_plan_request(buf@),
{
    let lines = split_on_exec(buf.as_slice(), "\r\n".as_bytes());
    let ghost line_views: Seq<Seq<u8>> = lines.deep_view();
    let body: &Vec<u8> = &lines[lines.len() - 1];
    proof {
        assert(body@ == line_views.last());
    }
    match parse_request_header(&lines) {
        Some(h) => dispatch(&h, body),
        None => Action::Respond(res_400()),
    }
}

} // verus!
