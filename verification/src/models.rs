//! The data types of the proxy: registration payloads, the management
//! response envelope, the extracted body view, and registry entries,
//! together with the mathematical view of an entry.

use vstd::prelude::*;

verus! {

/// The payload for registering or unregistering a model server.
#[derive(Clone, Debug)]
pub struct RegisterRequest {
    pub model_name: String,
    pub addr: String,
}

/// The tag of a management response envelope: `Warning` is used exactly
/// for an already-registered pair, `Error` for validation failures and
/// not-found, `Success` for all other completions.
#[derive(Clone, Copy, Debug, PartialEq, Eq, Structural)]
pub enum ResponseStatus {
    Success,
    Warning,
    Error,
}

/// The envelope returned by the management endpoints.
#[derive(Clone, Debug)]
pub struct ServerResponse {
    pub status: ResponseStatus,
    pub message: String,
}

/// The minimal structural view extracted from an inbound request body:
/// its optional `model` string field. No other field is inspected.
#[derive(Clone, Debug)]
pub struct ModelExtractPayload {
    pub model: Option<String>,
}

/// One registered backend: the model it serves and its `host:port`
/// address.
#[derive(Clone, Debug)]
pub struct ProxyServerInfo {
    pub model_name: String,
    pub addr: String,
}

/// The payload of a reachability test: the address to probe.
#[derive(Clone, Debug)]
pub struct TestRequest {
    pub addr: String,
}

/// The mathematical content of one registry entry.
pub struct BackendView {
    pub model: Seq<char>,
    pub addr: Seq<char>,
}

impl View for ProxyServerInfo {
    type V = BackendView;

    open spec fn view(&self) -> BackendView {
        BackendView { model: self.model_name@, addr: self.addr@ }
    }
}

} // verus!
