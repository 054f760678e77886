//! Errors of the streaming protocol.

use vstd::prelude::*;

verus! {

/// A failure surfaced as one item of the output sequence; the
/// sequence itself goes on, and the consumer decides whether to stop.
#[derive(Debug)]
pub enum StreamError {
    /// The transport could not deliver the next chunk.  Terminal: no
    /// further chunk can be pulled after it.
    TransportFailure(String),
    /// A `data:` payload did not parse as an incremental completion.
    /// Carries the offending payload and a readable reason.  Not
    /// terminal: a later frame may parse successfully.
    MalformedPayload {
        /// The payload text that failed to parse.
        payload: String,
        /// Why it failed.
        reason: String,
    },
    /// Reserved for a strict text-decoding policy.  This library
    /// decodes bytes lossily, so it never raises this variant.
    InvalidEncoding,
}

impl Clone for StreamError {
    fn clone(&self) -> (r: Self)
        ensures
            r == *self,
    {
        match self {
            StreamError::TransportFailure(m) => StreamError::TransportFailure(m.clone()),
            StreamError::MalformedPayload { payload, reason } => StreamError::MalformedPayload {
                payload: payload.clone(),
                reason: reason.clone(),
            },
            StreamError::InvalidEncoding => StreamError::InvalidEncoding,
        }
    }
}

} // verus!
