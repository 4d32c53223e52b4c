//! The engine's laws: what the route table and the content negotiation
//! promise, proved once and for all paths, bodies and header values.
use vstd::prelude::*;
use vstd::string::StringSliceAdditionalSpecFns;

use crate::bytes_util::is_prefix;
use crate::request::{negotiate, HeaderModel, RequestMethod};
use crate::response::{
    deflate_of, gzip_of, spec_framed, spec_res_200_empty, spec_res_201, spec_res_404,
    spec_response,
};
use crate::router::{
    spec_dispatch, spec_file_read_response, spec_file_write_response, ActionModel,
};

verus! {

/// The byte contents of the route and encoding literals.
proof fn lemma_literal_bytes()
    ensures
        "/".spec_bytes() =~= seq![47u8],
        "/echo/".spec_bytes() =~= seq![47u8, 101, 99, 104, 111, 47],
        "/user-agent".spec_bytes() =~= seq![
            47u8, 117, 115, 101, 114, 45, 97, 103, 101, 110, 116,
        ],
        "/files/".spec_bytes() =~= seq![47u8, 102, 105, 108, 101, 115, 47],
{
    reveal_strlit("/");
    reveal_strlit("/echo/");
    reveal_strlit("/user-agent");
    reveal_strlit("/files/");
    assert(vstd::string::is_ascii("/"));
    assert(vstd::string::is_ascii("/echo/"));
    assert(vstd::string::is_ascii("/user-agent"));
    assert(vstd::string::is_ascii("/files/"));
    vstd::string::is_ascii_spec_bytes("/");
    vstd::string::is_ascii_spec_bytes("/echo/");
    vstd::string::is_ascii_spec_bytes("/user-agent");
    vstd::string::is_ascii_spec_bytes("/files/");
}

/// Echo: a GET whose path is `/echo/` followed by `p` is answered with a
/// 200 response whose content-type is text/plain and whose body is
/// exactly `p`, under the header's negotiated encoding — `spec_response`
/// frames it with the Content-Length of the (possibly compressed) body.
pub proof fn lemma_echo_route(h: HeaderModel, body: Seq<u8>, p: Seq<u8>)
    requires
        h.method == RequestMethod::GET,
        h.path == "/echo/".spec_bytes() + p,
    ensures
        spec_dispatch(h, body) == ActionModel::Respond(
            spec_response(p, "text/plain".spec_bytes(), h.accept_encoding),
        ),
{
    lemma_literal_bytes();
    assert(h.path.len() >= 6);
    assert(h.path != "/".spec_bytes());
    assert(h.path.take(6) =~= "/echo/".spec_bytes());
    assert(h.path.skip(6) =~= p);
}

/// Root: a GET for `/` is answered with exactly `HTTP/1.1 200 OK` and the
/// terminating blank line — no body, no further headers.
pub proof fn lemma_root_route(h: HeaderModel, body: Seq<u8>)
    requires
        h.method == RequestMethod::GET,
        h.path == "/".spec_bytes(),
    ensures
        spec_dispatch(h, body) == ActionModel::Respond(spec_res_200_empty()),
{
}

/// Catch-all: a GET whose path no rule covers is answered with the whole
/// 404 response — status line and terminating blank line, empty body.
pub proof fn lemma_unrouted_get(h: HeaderModel, body: Seq<u8>)
    requires
        h.method == RequestMethod::GET,
        h.path != "/".spec_bytes(),
        !is_prefix("/echo/".spec_bytes(), h.path),
        h.path != "/user-agent".spec_bytes(),
        !is_prefix("/files/".spec_bytes(), h.path),
    ensures
        spec_dispatch(h, body) == ActionModel::Respond(spec_res_404()),
{
}

/// File round trip: a POST to `/files/` followed by `name` asks for a
/// write of the request body under `name` and is answered 201; a GET to
/// the same path asks for a read of `name`, and once the surroundings
/// hand back exactly the stored bytes the answer is a 200 response with
/// content-type application/octet-stream and those bytes as its body.
pub proof fn lemma_files_round_trip(
    post: HeaderModel,
    get: HeaderModel,
    name: Seq<u8>,
    body: Seq<u8>,
)
    requires
        post.method == RequestMethod::POST,
        post.path == "/files/".spec_bytes() + name,
        get.method == RequestMethod::GET,
        get.path == "/files/".spec_bytes() + name,
    ensures
        spec_dispatch(post, body) == (ActionModel::WriteFile { name, contents: body }),
        spec_file_write_response(true) == spec_res_201(),
        spec_dispatch(get, Seq::<u8>::empty()) == (ActionModel::ReadFile {
            name,
            accept_encoding: get.accept_encoding,
        }),
        spec_file_read_response(Some(body), get.accept_encoding) == spec_response(
            body,
            "application/octet-stream".spec_bytes(),
            get.accept_encoding,
        ),
{
    lemma_literal_bytes();
    assert(post.path.take(7) =~= "/files/".spec_bytes());
    assert(post.path.skip(7) =~= name);
    assert(get.path.len() >= 7);
    assert(get.path != "/".spec_bytes());
    assert(get.path[1] == 102);
    assert(!is_prefix("/echo/".spec_bytes(), get.path)) by {
        if is_prefix("/echo/".spec_bytes(), get.path) {
            assert(get.path.take(6)[1] == 101);
        }
    }
    assert(get.path != "/user-agent".spec_bytes());
    assert(get.path.take(7) =~= "/files/".spec_bytes());
    assert(get.path.skip(7) =~= name);
}

/// Negotiation keeps the current choice when no token names a supported
/// encoding.
pub proof fn lemma_negotiate_unsupported(tokens: Seq<Seq<u8>>, current: Seq<u8>)
    requires
        !tokens.contains("gzip".spec_bytes()),
        !tokens.contains("deflate".spec_bytes()),
    ensures
        negotiate(tokens, current) == current,
    decreases tokens.len(),
{
    if tokens.len() > 0 {
        assert(tokens[0] != "gzip".spec_bytes());
        assert(tokens[0] != "deflate".spec_bytes());
        assert(forall|i: int|
            0 <= i < tokens.skip(1).len() ==> tokens.skip(1)[i] == tokens[i + 1]);
        lemma_negotiate_unsupported(tokens.skip(1), current);
    }
}

/// Negotiation chooses gzip whenever some token is `gzip` and no token is
/// `deflate`, whatever the choice so far.
pub proof fn lemma_negotiate_gzip(tokens: Seq<Seq<u8>>, current: Seq<u8>)
    requires
        tokens.contains("gzip".spec_bytes()),
        !tokens.contains("deflate".spec_bytes()),
    ensures
        negotiate(tokens, current) == "gzip".spec_bytes(),
    decreases tokens.len(),
{
    assert(forall|i: int| 0 <= i < tokens.skip(1).len() ==> tokens.skip(1)[i] == tokens[i + 1]);
    if tokens[0] == "gzip".spec_bytes() {
        if tokens.skip(1).contains("gzip".spec_bytes()) {
            lemma_negotiate_gzip(tokens.skip(1), "gzip".spec_bytes());
        } else {
            lemma_negotiate_unsupported(tokens.skip(1), "gzip".spec_bytes());
        }
    } else {
        let i = choose|i: int| 0 <= i < tokens.len() && tokens[i] == "gzip".spec_bytes();
        assert(tokens.skip(1)[i - 1] == "gzip".spec_bytes());
        assert(tokens.skip(1).contains("gzip".spec_bytes()));
        lemma_negotiate_gzip(tokens.skip(1), current);
    }
}

/// Negotiation chooses deflate whenever some token is `deflate` and no
/// token is `gzip`, whatever the choice so far.
pub proof fn lemma_negotiate_deflate(tokens: Seq<Seq<u8>>, current: Seq<u8>)
    requires
        tokens.contains("deflate".spec_bytes()),
        !tokens.contains("gzip".spec_bytes()),
    ensures
        negotiate(tokens, current) == "deflate".spec_bytes(),
    decreases tokens.len(),
{
    assert(forall|i: int| 0 <= i < tokens.skip(1).len() ==> tokens.skip(1)[i] == tokens[i + 1]);
    if tokens[0] == "deflate".spec_bytes() {
        if tokens.skip(1).contains("deflate".spec_bytes()) {
            lemma_negotiate_deflate(tokens.skip(1), "deflate".spec_bytes());
        } else {
            lemma_negotiate_unsupported(tokens.skip(1), "deflate".spec_bytes());
        }
    } else {
        let i = choose|i: int| 0 <= i < tokens.len() && tokens[i] == "deflate".spec_bytes();
        assert(tokens.skip(1)[i - 1] == "deflate".spec_bytes());
        assert(tokens.skip(1).contains("deflate".spec_bytes()));
        lemma_negotiate_deflate(tokens.skip(1), current);
    }
}

/// When gzip is the negotiated encoding, the response is the gzip
/// framing: a `Content-Encoding: gzip` line, the gzip stream of the body
/// as payload, and the Content-Length of that stream; likewise for
/// deflate.
pub proof fn lemma_response_encoded(text: Seq<u8>, ct: Seq<u8>)
    ensures
        spec_response(text, ct, "gzip".spec_bytes()) == spec_framed(
            "gzip".spec_bytes(),
            ct,
            gzip_of(text),
        ),
        spec_response(text, ct, "deflate".spec_bytes()) == spec_framed(
            "deflate".spec_bytes(),
            ct,
            deflate_of(text),
        ),
{
    reveal_strlit("gzip");
    reveal_strlit("deflate");
    assert(vstd::string::is_ascii("gzip"));
    assert(vstd::string::is_ascii("deflate"));
    vstd::string::is_ascii_spec_bytes("gzip");
    vstd::string::is_ascii_spec_bytes("deflate");
    assert("gzip".spec_bytes().len() == 4);
    assert("deflate".spec_bytes().len() == 7);
}

/// When the negotiated encoding is neither gzip nor deflate, the response
/// carries no Content-Encoding line and the body passes through
/// unmodified.
pub proof fn lemma_response_identity(text: Seq<u8>, ct: Seq<u8>, enc: Seq<u8>)
    requires
        enc != "gzip".spec_bytes(),
        enc != "deflate".spec_bytes(),
    ensures
        spec_response(text, ct, enc) == spec_framed(Seq::<u8>::empty(), ct, text),
{
}

/// An absent `Accept-Encoding` header leaves the negotiated encoding
/// empty, and the empty encoding passes the body through with no
/// Content-Encoding line.
pub proof fn lemma_response_absent_encoding(text: Seq<u8>, ct: Seq<u8>)
    ensures
        spec_response(text, ct, Seq::<u8>::empty()) == spec_framed(Seq::<u8>::empty(), ct, text),
{
    reveal_strlit("gzip");
    reveal_strlit("deflate");
    assert(vstd::string::is_ascii("gzip"));
    assert(vstd::string::is_ascii("deflate"));
    vstd::string::is_ascii_spec_bytes("gzip");
    vstd::string::is_ascii_spec_bytes("deflate");
    lemma_response_identity(text, ct, Seq::<u8>::empty());
}

} // verus!
