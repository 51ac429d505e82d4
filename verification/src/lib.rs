//! A small HTTP request handling library: a token-based authentication
//! header parser, a declarative route table with first-match-wins
//! alternation, and pure handlers that build their responses as exact
//! JSON or plain text. The HTTP server itself lives outside; this crate
//! holds the decisions: which fragment a request matches, whether its
//! auth token is valid, and what the response body says.

pub mod auth;
pub mod handlers;
pub mod json;
pub mod numtext;
pub mod routes;

use vstd::prelude::*;

verus! {

} // verus!
