//! A verified request-dispatch and persistence-mapping core for a small
//! library-management service: a minimal HTTP request parser, an ordered
//! path router, a JSON codec for the four entity records, and the
//! statement/outcome logic of the per-entity store operations.
//!
//! The store and the socket are collaborators. `service::start` turns a
//! request into either an immediate response or a parameterized statement
//! plus a pending operation; `service::resume` turns each store outcome
//! into the next statement or the final response, and is verified for
//! every outcome the store can hand back. An unverified driver performs
//! the I/O around this.
//!
//! Modules: `text` holds character-sequence utilities; `request` extracts
//! the body and the path identifier; `router` holds the ordered route
//! table; `encode` and `decode` are the JSON codec; `entities` the four
//! records; `store` the statement builders and row mapping; `service` the
//! session step machine; `laws` the proved service-level properties.
use vstd::prelude::*;

pub mod decode;
pub mod encode;
pub mod entities;
pub mod laws;
pub mod request;
pub mod router;
pub mod service;
pub mod store;
pub mod text;

verus! {

} // verus!
