use vstd::prelude::*;

verus! {

/// Why a create or resolve request was refused.
#[derive(Clone, Copy, Debug, PartialEq, Eq, Structural)]
pub enum Error {
    /// The input does not parse as an absolute URL with a host.
    InvalidUrl,
    /// The URL's host is not on the configured whitelist.
    HostNotAllowed,
    /// No shortlink with the requested identifier exists.
    NotFound,
    /// The retry budget ran out: every candidate identifier collided.
    IdSpaceExhausted,
    /// The store cannot be reached.
    StoreUnavailable,
}

/// What the store reports when an operation cannot complete.
#[derive(Clone, Copy, Debug, PartialEq, Eq, Structural)]
pub enum StoreError {
    /// An entry with the given identifier already exists.
    DuplicateKey,
    /// The store cannot be reached.
    Unavailable,
}

} // verus!
