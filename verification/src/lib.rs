//! Core of a reconnaissance scanning engine: capability-based detection
//! modules (HTTP probes and subdomain enumeration), a module registry,
//! pure detection algorithms, and the planning/aggregation logic of the
//! concurrent orchestrator. Network I/O itself is left to the caller,
//! which hands status and body values to the verified classifiers.
use vstd::prelude::*;

pub mod enumeration;
pub mod heuristics;
pub mod http;
pub mod modules;
pub mod pattern;
pub mod registry;
pub mod report;
pub mod scheduler;
pub mod subdomains;
pub mod text;

verus! {

/// Failure taxonomy of the engine.
///
/// `Transport` stands for a DNS/TLS/connect/timeout failure of the HTTP
/// collaborator; `InvalidHttpResponse` for an enumeration source that
/// answered with a non-success status or an undecodable body;
/// `DuplicateModule` for a duplicate registration at startup;
/// `PatternCompilation` for a matcher that failed to compile at module
/// construction.
#[derive(Clone, Debug, PartialEq, Eq)]
pub enum Error {
    Transport(String),
    InvalidHttpResponse(String),
    DuplicateModule(crate::modules::ModuleName),
    PatternCompilation,
}

impl Error {
    /// An equal copy; written out so that the equality is verified.
    pub fn duplicate(&self) -> (r: Error)
        ensures
            r == *self,
    {
        match self {
            Error::Transport(m) => Error::Transport(m.clone()),
            Error::InvalidHttpResponse(m) => Error::InvalidHttpResponse(m.clone()),
            Error::DuplicateModule(n) => Error::DuplicateModule(*n),
            Error::PatternCompilation => Error::PatternCompilation,
        }
    }
}

} // verus!
