//! The router's decision core: the per-request pipeline from registry
//! snapshot and buffered body bytes to a terminal response or a
//! forwarding target, and the management endpoints that register,
//! unregister, list and probe backends.

use vstd::prelude::*;
use vstd::string::*;

use crate::json::{extract_model_field, json_model_field};
use crate::models::{ProxyServerInfo, RegisterRequest, ResponseStatus, ServerResponse, TestRequest};
use crate::registry::{
    candidates_spec, has_addr, has_entry, lemma_candidates_exact, lemma_views_index, spec_add,
    spec_remove, valid_addr, valid_model_name, views_of, AddOutcome, Registry, RemoveOutcome,
};
use crate::select::select_candidate;
use crate::text::{dec_digits, trim_spec, trim_str, u16_to_dec};

verus! {

/// What the router does with a proxied request: answer it at once with
/// a terminal response, or forward it to the selected backend address.
#[derive(Debug)]
pub enum RouteDecision {
    Reject { code: u16, response: ServerResponse },
    Forward { target_addr: String },
}

/// Whether an extracted optional model field names a model: present and
/// non-empty once trimmed.
pub open spec fn model_present(m: Option<Seq<char>>) -> bool {
    m is Some && trim_spec(m->0).len() > 0
}

/// The model a request asks for, once present: the trimmed field value.
pub open spec fn requested_model(m: Option<Seq<char>>) -> Seq<char> {
    trim_spec(m->0)
}

fn reject(code: u16, message: String) -> (d: RouteDecision)
    ensures
        (d matches RouteDecision::Reject { code: c, response } && c == code && response.status
            is Error && response.message@ == message@),
{
    RouteDecision::Reject {
        code,
        response: ServerResponse { status: ResponseStatus::Error, message },
    }
}

/// Decides a proxied request: with an empty registry the request is
/// refused outright; otherwise the body must be JSON naming a model
/// that some backend serves, and one such backend is picked at random
/// as the forwarding target.
pub fn route_proxy(registry: &Registry, body: &Vec<u8>) -> (d: RouteDecision)
    ensures
        registry@.len() == 0 ==> (d matches RouteDecision::Reject { code, response } && code == 503
            && response.status is Error && response.message@ == "No servers registered"@),
        (registry@.len() > 0 && json_model_field(body@) is Err) ==> (d matches
        RouteDecision::Reject { code, response } && code == 400 && response.status is Error
            && response.message@ == "Invalid JSON body: "@ + json_model_field(body@)->Err_0),
        (registry@.len() > 0 && json_model_field(body@) is Ok && !model_present(
            json_model_field(body@)->Ok_0,
        )) ==> (d matches RouteDecision::Reject { code, response } && code == 400
            && response.status is Error && response.message@
            == "Model name is required in the request body"@),
        (registry@.len() > 0 && json_model_field(body@) is Ok && model_present(
            json_model_field(body@)->Ok_0,
        ) && candidates_spec(registry@, requested_model(json_model_field(body@)->Ok_0)).len()
            == 0) ==> (d matches RouteDecision::Reject { code, response } && code == 400
            && response.status is Error && response.message@
            == "No server registered for model: "@ + requested_model(
            json_model_field(body@)->Ok_0,
        )),
        (registry@.len() > 0 && json_model_field(body@) is Ok && model_present(
            json_model_field(body@)->Ok_0,
        ) && candidates_spec(registry@, requested_model(json_model_field(body@)->Ok_0)).len()
            > 0) ==> (d matches RouteDecision::Forward { target_addr } && has_entry(
            registry@,
            requested_model(json_model_field(body@)->Ok_0),
            target_addr@,
        )),
        (registry@.len() > 0 && json_model_field(body@) is Ok && model_present(
            json_model_field(body@)->Ok_0,
        ) && candidates_spec(registry@, requested_model(json_model_field(body@)->Ok_0)).len()
            == 1) ==> (d matches RouteDecision::Forward { target_addr } && target_addr@
            == candidates_spec(registry@, requested_model(json_model_field(body@)->Ok_0))[0].addr),
{
    if registry.is_empty() {
        return reject(503, String::from_str("No servers registered"));
    }
    match extract_model_field(body) {
        Err(e) => {
            let mut msg = String::from_str("Invalid JSON body: ");
            msg.append(e.as_str());
            reject(400, msg)
        },
        Ok(payload) => match payload.model {
            None => reject(400, String::from_str("Model name is required in the request body")),
            Some(m) => {
                let tm = trim_str(m.as_str());
                if tm.as_str().is_empty() {
                    reject(400, String::from_str("Model name is required in the request body"))
                } else {
                    let cands = registry.candidates_for(tm.as_str());
                    if cands.len() == 0 {
                        let mut msg = String::from_str("No server registered for model: ");
                        msg.append(tm.as_str());
                        reject(400, msg)
                    } else {
                        let sel = select_candidate(&cands);
                        proof {
                            let i = choose|i: int|
                                0 <= i < cands@.len() && sel@ == cands@[i]@;
                            lemma_views_index(cands@, i);
                            lemma_candidates_exact(registry@, tm@);
                            let c = candidates_spec(registry@, tm@);
                            assert(c[i] == sel@);
                            assert(registry@.contains(c[i]));
                            let j = choose|j: int|
                                0 <= j < registry@.len() && registry@[j] == c[i];
                            assert(registry@[j].model == tm@ && registry@[j].addr == sel@.addr);
                        }
                        RouteDecision::Forward { target_addr: sel.addr }
                    }
                }
            },
        },
    }
}

/// Handles `POST /register`: validates and registers the pair, and maps
/// the outcome onto a status code and envelope.
pub fn register_server(registry: &mut Registry, payload: &RegisterRequest) -> (r: (
    u16,
    ServerResponse,
))
    ensures
        final(registry)@ == spec_add(old(registry)@, payload.model_name@, payload.addr@),
        !valid_addr(payload.addr@) ==> (r.0 == 400 && r.1.status is Error && r.1.message@
            == "Invalid address format. Expected host:port"@),
        (valid_addr(payload.addr@) && !valid_model_name(payload.model_name@)) ==> (r.0 == 400
            && r.1.status is Error && r.1.message@ == "model_name cannot be empty"@),
        (valid_addr(payload.addr@) && valid_model_name(payload.model_name@) && has_entry(
            old(registry)@,
            trim_spec(payload.model_name@),
            trim_spec(payload.addr@),
        )) ==> (r.0 == 200 && r.1.status is Warning && r.1.message@
            == "Server already registered"@),
        (valid_addr(payload.addr@) && valid_model_name(payload.model_name@) && !has_entry(
            old(registry)@,
            trim_spec(payload.model_name@),
            trim_spec(payload.addr@),
        )) ==> (r.0 == 201 && r.1.status is Success && r.1.message@
            == "Server registered successfully"@),
{
    let o = registry.add(payload.model_name.as_str(), payload.addr.as_str());
    match o {
        AddOutcome::InvalidAddress => (
            400,
            ServerResponse {
                status: ResponseStatus::Error,
                message: String::from_str("Invalid address format. Expected host:port"),
            },
        ),
        AddOutcome::InvalidModelName => (
            400,
            ServerResponse {
                status: ResponseStatus::Error,
                message: String::from_str("model_name cannot be empty"),
            },
        ),
        AddOutcome::AlreadyExists => (
            200,
            ServerResponse {
                status: ResponseStatus::Warning,
                message: String::from_str("Server already registered"),
            },
        ),
        AddOutcome::Created => (
            201,
            ServerResponse {
                status: ResponseStatus::Success,
                message: String::from_str("Server registered successfully"),
            },
        ),
    }
}

/// Handles `POST /unregister`: validates the address (the payload's
/// model name is ignored), removes the first entry registered at it,
/// and maps the outcome onto a status code and envelope.
pub fn unregister_server(registry: &mut Registry, payload: &RegisterRequest) -> (r: (
    u16,
    ServerResponse,
))
    ensures
        final(registry)@ == spec_remove(old(registry)@, payload.addr@),
        !valid_addr(payload.addr@) ==> (r.0 == 400 && r.1.status is Error && r.1.message@
            == "Invalid address format. Expected host:port"@),
        (valid_addr(payload.addr@) && has_addr(old(registry)@, trim_spec(payload.addr@))) ==> (r.0
            == 200 && r.1.status is Success && r.1.message@
            == "Server unregistered successfully"@),
        (valid_addr(payload.addr@) && !has_addr(old(registry)@, trim_spec(payload.addr@))) ==> (r.0
            == 404 && r.1.status is Error && r.1.message@ == "Server not found"@),
{
    let o = registry.remove(payload.addr.as_str());
    match o {
        RemoveOutcome::InvalidAddress => (
            400,
            ServerResponse {
                status: ResponseStatus::Error,
                message: String::from_str("Invalid address format. Expected host:port"),
            },
        ),
        RemoveOutcome::Removed => (
            200,
            ServerResponse {
                status: ResponseStatus::Success,
                message: String::from_str("Server unregistered successfully"),
            },
        ),
        RemoveOutcome::NotFound => (
            404,
            ServerResponse {
                status: ResponseStatus::Error,
                message: String::from_str("Server not found"),
            },
        ),
    }
}

/// Handles `GET /list`: a snapshot of the registry in insertion order.
pub fn list_servers(registry: &Registry) -> (r: Vec<ProxyServerInfo>)
    ensures
        views_of(r@) == registry@,
        r@.len() == registry@.len(),
{
    registry.list()
}

/// Handles the lookup half of `POST /test`: the trimmed address, if
/// some entry is registered at it; the probe itself is the caller's.
pub fn test_server_lookup(registry: &Registry, payload: &TestRequest) -> (r: Option<String>)
    ensures
        (r is Some <==> has_addr(registry@, trim_spec(payload.addr@))),
        r matches Some(a) ==> a@ == trim_spec(payload.addr@),
{
    let ta = trim_str(payload.addr.as_str());
    if registry.contains_addr(ta.as_str()) {
        Some(ta)
    } else {
        None
    }
}

/// The downstream outcome of a health probe against a backend.
#[derive(Debug)]
pub enum ProbeOutcome {
    Responded { code: u16 },
    ConnectFailed { detail: String },
}

/// Handles the report half of `POST /test` for a found entry: either
/// probe outcome answers 200, and the envelope says whether the service
/// answered with a success status, answered with an error status, or
/// could not be reached.
pub fn test_probe_response(addr: &str, outcome: &ProbeOutcome) -> (r: (u16, ServerResponse))
    ensures
        r.0 == 200,
        outcome matches ProbeOutcome::Responded { code } ==> ((200 <= *code < 300 ==> (r.1.status
            is Success && r.1.message@ == "Service at "@ + addr@ + " is reachable"@)) && (!(200
            <= *code < 300) ==> (r.1.status is Error && r.1.message@ == "Service at "@ + addr@
            + " returned status "@ + dec_digits(*code as nat)))),
        outcome matches ProbeOutcome::ConnectFailed { detail } ==> (r.1.status is Error
            && r.1.message@ == "Failed to connect to service at "@ + addr@ + ": "@ + detail@),
{
    match outcome {
        ProbeOutcome::Responded { code } => {
            if *code >= 200 && *code < 300 {
                let mut msg = String::from_str("Service at ");
                msg.append(addr);
                msg.append(" is reachable");
                (200, ServerResponse { status: ResponseStatus::Success, message: msg })
            } else {
                let mut msg = String::from_str("Service at ");
                msg.append(addr);
                msg.append(" returned status ");
                let num = u16_to_dec(*code);
                msg.append(num.as_str());
                (200, ServerResponse { status: ResponseStatus::Error, message: msg })
            }
        },
        ProbeOutcome::ConnectFailed { detail } => {
            let mut msg = String::from_str("Failed to connect to service at ");
            msg.append(addr);
            msg.append(": ");
            msg.append(detail.as_str());
            (200, ServerResponse { status: ResponseStatus::Error, message: msg })
        },
    }
}

/// The `POST /test` response when no entry has the address.
pub fn test_not_found_response() -> (r: (u16, ServerResponse))
    ensures
        r.0 == 404,
        r.1.status is Error,
        r.1.message@ == "Service not found"@,
{
    (
        404,
        ServerResponse {
            status: ResponseStatus::Error,
            message: String::from_str("Service not found"),
        },
    )
}

} // verus!
