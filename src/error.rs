use vstd::prelude::*;

verus! {

/// The ways a lookup can fail.
///
/// None of these is corrected or retried inside the library: they are handed
/// to the caller, which decides whether to stop or to go on with the next item.
#[derive(Debug, Clone, Copy, PartialEq, Eq, Structural)]
pub enum CheckpwnError {
    /// A query kind that no route exists for.
    InvalidQueryKind,
    /// A password-range response line that is not `SUFFIX:COUNT`.
    MalformedRangeResponse,
    /// The service rejected the API key.
    InvalidCredential,
    /// The service rejected the account identifier.
    UpstreamRejected,
    /// A status code that no rule of the account decision covers.
    UnrecognizedUpstreamStatus(u16),
    /// The request could not be sent or its answer not read.
    NetworkFailure,
    /// No API key could be loaded for the account endpoints.
    ConfigurationMissing,
}

} // verus!
