//! Verified core of a small user-account REST backend: a listing engine
//! (conjunctive filters, single-column sort, offset pagination), a
//! token-gated registration flow, credential hashing, and session binding.
pub mod auth;
pub mod bytes;
pub mod credential;
pub mod encoding;
pub mod error;
pub mod laws;
pub mod paginate;
pub mod query;
pub mod session;
pub mod sort;
pub mod token;
pub mod user;

use vstd::prelude::*;

verus! {

/// Name and version advertised at the API root.
#[allow(non_snake_case)]
pub struct ApiDescription {
    pub apiName: String,
    pub version: String,
}

} // verus!
