//! Verified client library for a generative-language HTTP API.
//!
//! The library models the API's JSON request and response schemas with its
//! own types, serializes and parses them with a verified JSON codec, and
//! keeps a conversation history whose invariants are proved: the history
//! only ever holds turns that received a successful reply.

pub mod body;
pub mod http;
pub mod json;
pub mod laws;
pub mod model;
pub mod param;
pub mod utils;

use vstd::prelude::*;

verus! {

} // verus!
