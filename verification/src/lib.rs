//! A registry-backed reverse proxy core: a shared list of model-serving
//! backends, validated registration and removal, model-based candidate
//! lookup with random tie-break, and the decision logic of the request
//! routing pipeline, each operation specified by an exact contract.

pub mod client;
pub mod forward;
pub mod json;
pub mod models;
pub mod registry;
pub mod route;
pub mod select;
pub mod text;
