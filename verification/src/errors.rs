//! Error taxonomy shared by the whole pipeline.

use vstd::prelude::*;

verus! {

/// One error kind for every layer of the core: graph lookups, broker
/// messaging, conversions from wire documents, and internal invariants.
///
/// The broker-facing carrier variants (`Broker`, `Json`) are filled in by the
/// unverified shell when the transport fails; the remaining variants are
/// produced by the verified logic itself.
#[derive(Debug)]
pub enum Error {
    /// A record lookup matched nothing. `model` names the collection and
    /// `params` the filter that was applied, as key/value pairs.
    NotFound { model: String, params: Vec<(String, String)> },
    /// The request contradicts committed state (a follow already rejected).
    Conflict(String),
    /// A wire document lacked a field the conversion needs.
    ConversionMissingField(String),
    /// An activity document has no actor to attribute it to.
    MissingActor,
    /// An activity of a kind the inbound processor does not handle.
    UnprocessableActivity(String),
    /// The RPC reply channel closed before any reply arrived.
    NoReply,
    /// An RPC reply arrived but did not have the expected shape.
    InvalidReply(String),
    /// The broker address is not configured.
    AmqpConfigMissing,
    /// Transport-level broker failure, reported by the shell.
    Broker(String),
    /// Payload (de)serialization failure, reported by the shell.
    Json(String),
    /// A bug or an unsatisfiable internal expectation.
    InternalError(String),
}

impl Error {
    /// True exactly for the `NotFound` variant.
    pub fn is_not_found(&self) -> (r: bool)
        ensures
            r == self is NotFound,
    {
        match self {
            Error::NotFound { .. } => true,
            _ => false,
        }
    }

    /// The HTTP status this error maps to at the request boundary:
    /// missing records are 404, conflicts are 409, everything else is a 500.
    pub fn http_code(&self) -> (code: u16)
        ensures
            code == self.spec_http_code(),
            self is NotFound <==> code == 404,
            self is Conflict <==> code == 409,
    {
        match self {
            Error::NotFound { .. } => 404,
            Error::Conflict(_) => 409,
            _ => 500,
        }
    }

    /// The status mapping as a specification.
    pub open spec fn spec_http_code(&self) -> u16 {
        match self {
            Error::NotFound { .. } => 404u16,
            Error::Conflict(_) => 409u16,
            _ => 500u16,
        }
    }
}

} // verus!
