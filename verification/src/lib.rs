//! Access-control core for a small API server: an ordered privilege model,
//! a signed bearer-token service, password hashing, an in-memory credential
//! store, per-request identity resolution, and declarative route guards.
//!
//! Transport concerns (TLS, CORS, rate limiting, the HTTP server itself) are
//! external collaborators and live outside this library.

pub mod context;
pub mod errors;
pub mod gate;
pub mod guard;
pub mod models;
pub mod auth;
pub mod b64;
pub mod claims;
pub mod digits;
pub mod privilege;
pub mod routes;
pub mod token;
pub mod password;
pub mod store;
pub mod strutil;
pub mod user;

pub use crate::claims::Claims;
pub use crate::routes::Routes;
pub use crate::token::validate_token;

use vstd::prelude::*;

verus! {

} // verus!
