//! VOxOV: a metered, multi-tenant API gateway core.
//!
//! The crate verifies the request pipeline and cost engine of the gateway:
//! a layered handler (Auth -> Cost -> Fed -> Gene) that resolves an access
//! token to a user, reserves a declared budget against a credit balance,
//! runs the requested operation (meme blob store, map document store,
//! messaging), and refunds the unspent budget on every termination path.
//!
//! The key/value store, the document collections and the object store are
//! modeled as in-memory state with explicit time, so every handler is a
//! verified function from state and request to state and reply. Content
//! hashing, hex rendering and randomness come from outside crates through
//! trusted wrappers.

use vstd::prelude::*;

pub mod api;
pub mod auth;
pub mod codec;
pub mod error;
pub mod fed;
pub mod id;
pub mod ir;
pub mod json;
pub mod config;
pub mod cost;
pub mod credit;
pub mod database;
pub mod docs;
pub mod gene;
pub mod gene_map;
pub mod gene_msg;
pub mod kv;
pub mod meme;
pub mod query;
pub mod reply;
pub mod ripperd;
pub mod value;

pub use error::Error;

verus! {

/// Every fallible operation of the gateway returns this result type.
pub type Result<T> = std::result::Result<T, Error>;

} // verus!
