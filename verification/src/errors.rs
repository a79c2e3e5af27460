//! The error taxonomy of the core, and the per-recipient dispatch outcome.

use vstd::prelude::*;

verus! {

/// Failures of the login exchange and of authenticated requests.
#[derive(Debug, Clone, PartialEq, Eq, Structural)]
pub enum AuthError {
    /// The first login step returned no usable nonce.
    NoNonce,
    /// The nonce confirmation returned no usable `Set-Cookie` header.
    NoCookie,
    /// An authenticated request was attempted before any login succeeded.
    NoSession,
    /// A network-level failure.
    Transport,
}

/// Failures while building the roster from the paginated listing.
#[derive(Debug, Clone, PartialEq, Eq, Structural)]
pub enum ScrapeError {
    /// Listing page 1 could not be fetched or read at all.
    MissingPaginator,
    /// The expected row/link structure was absent on the given page.
    Malformed(u32),
    /// A network-level failure.
    Transport,
}

/// Failures of the persisted roster store.
#[derive(Debug, Clone, PartialEq, Eq, Structural)]
pub enum IoError {
    /// No persisted roster exists.
    NotFound,
    /// The persisted contents are not a valid roster encoding.
    Corrupt,
    /// The store could not be written.
    WriteFailed,
}

/// A failure that aborts a dispatch run.
#[derive(Debug, Clone, PartialEq, Eq, Structural)]
pub enum DispatchError {
    /// Two consecutive submits were classified as session loss; the one
    /// permitted re-login did not restore the session.
    SessionLostTwice,
    /// A network-level failure unrelated to session loss.
    Transport,
    /// The re-login attempted after a session loss itself failed.
    Failed,
}

/// The per-recipient result of one dispatch step.
#[derive(Debug, Clone, PartialEq, Eq)]
pub enum DispatchOutcome {
    /// The message was accepted on the first submit.
    Sent,
    /// The message was accepted on the single retry after a re-login.
    SentAfterReauth,
    /// The send failed for the given reason; the whole run stops.
    Failed(String),
}

} // verus!
