//! The failure taxonomy the dispatch pipeline reports to callers.
use vstd::prelude::*;

verus! {

/// Every way a dispatched request can fail, as a typed, recoverable result.
/// None of these is ever turned into a panic by the library.
#[derive(Debug)]
pub enum ClientError {
    /// Credentials were missing or incomplete while the descriptor demanded
    /// authentication; detected before any network activity.
    Configuration,
    /// The endpoint's budget is exhausted under the fail-fast policy;
    /// `retry_at_ms` is the instant (epoch milliseconds) when the window resets.
    RateLimited { retry_at_ms: u64 },
    /// The transport layer failed (connection, TLS, timeout); the detail is
    /// whatever the transport reported, surfaced verbatim.
    Transport { detail: String },
    /// The response body could not be parsed as the exchange's envelope;
    /// carries the raw body for diagnostics.
    MalformedResponse { body: Vec<u8> },
    /// The exchange explicitly rejected the request; `code` is preserved
    /// verbatim for caller branching.
    Api { code: String, msg: String },
    /// A specific field's value did not match its converter.
    FieldDecode { field: String },
}

} // verus!
