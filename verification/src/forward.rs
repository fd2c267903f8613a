//! Construction of the forwarding target and the translation of
//! downstream outcomes into responses. The target keeps the original
//! request's path-and-query verbatim; the backend address loses any
//! scheme prefix it was registered with and gains `http://`.

use vstd::prelude::*;
use vstd::string::*;

use crate::models::{ResponseStatus, ServerResponse};
use crate::text::{strip_prefix_rec, strip_prefix_repeated};

verus! {

/// The host part of a forwarding target: the registered address with
/// every leading `http://`, and then every leading `https://`, removed.
pub open spec fn stripped_host(addr: Seq<char>) -> Seq<char> {
    strip_prefix_rec(strip_prefix_rec(addr, "http://"@), "https://"@)
}

/// The full forwarding target: `http://`, the stripped host, and the
/// original request's path-and-query, `/` when the request had none.
pub open spec fn target_uri(addr: Seq<char>, path_and_query: Seq<char>) -> Seq<char> {
    "http://"@ + stripped_host(addr) + (if path_and_query.len() == 0 {
        "/"@
    } else {
        path_and_query
    })
}

pub fn strip_scheme_prefixes<'a>(addr: &'a str) -> (r: &'a str)
    ensures
        r@ == stripped_host(addr@),
{
    proof {
        reveal_strlit("http://");
        reveal_strlit("https://");
    }
    let a = strip_prefix_repeated(addr, "http://");
    strip_prefix_repeated(a, "https://")
}

/// Builds the URI string the request is forwarded to.
pub fn build_target_uri(target_addr: &str, path_and_query: &str) -> (r: String)
    ensures
        r@ == target_uri(target_addr@, path_and_query@),
{
    let host = strip_scheme_prefixes(target_addr);
    let mut r = String::from_str("http://");
    r.append(host);
    if path_and_query.is_empty() {
        r.append("/");
    } else {
        r.append(path_and_query);
    }
    r
}

/// The response relayed when the downstream request could not be sent:
/// Bad Gateway, carrying the transport error's text.
pub fn forward_error_response(detail: &str) -> (r: (u16, ServerResponse))
    ensures
        r.0 == 502,
        r.1.status is Error,
        r.1.message@ == "Error forwarding request: "@ + detail@,
{
    let mut msg = String::from_str("Error forwarding request: ");
    msg.append(detail);
    (502, ServerResponse { status: ResponseStatus::Error, message: msg })
}

/// The response when the inbound body could not be read.
pub fn body_read_error_response() -> (r: (u16, ServerResponse))
    ensures
        r.0 == 400,
        r.1.status is Error,
        r.1.message@ == "Failed to read request body"@,
{
    (
        400,
        ServerResponse {
            status: ResponseStatus::Error,
            message: String::from_str("Failed to read request body"),
        },
    )
}

/// The response when the outbound request could not even be built:
/// an internal error carrying the caller's detail text.
pub fn internal_error_response(detail: &str) -> (r: (u16, ServerResponse))
    ensures
        r.0 == 500,
        r.1.status is Error,
        r.1.message@ == detail@,
{
    (500, ServerResponse { status: ResponseStatus::Error, message: String::from_str(detail) })
}

} // verus!
