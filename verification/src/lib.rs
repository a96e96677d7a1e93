//! Core of a typed client for the OKX REST API.
//!
//! The library turns a typed request description into an authenticated,
//! rate-limited HTTP call and turns the exchange's JSON envelope back into a
//! typed result or a typed error. The pieces: request descriptors, the
//! signature computation, a per-endpoint rate limiter, and the envelope
//! decoder with its field converters. The HTTP transport itself lives outside
//! the library.
use vstd::prelude::*;

pub mod convert;
pub mod dispatch;
pub mod encode;
pub mod endpoints;
pub mod errors;
pub mod json;
pub mod limit;
pub mod sign;

verus! {

} // verus!
