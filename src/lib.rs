//! Per-request correlation identifiers: a middleware stage that attaches a
//! fresh random identifier to every request, and a fallible accessor that
//! reads it back further down the pipeline.

mod context;
mod middleware;
mod request_id;

pub use context::{lemma_absent_without_injection, lookup, Extensions, RequestIdError, ServiceRequest};
pub use middleware::{
    injected, lemma_pass_through, lemma_present_after_injection, lemma_requests_independent,
    RequestIDMiddleware, RequestIDWrapper,
};
pub use request_id::{
    canonical_text, digit_index, digit_position, digits_before, group, hex_char, is_hyphen_position,
    is_v4, lemma_canonical_text_injective, lemma_round_trip, nibble, parses_to, RequestID,
};
