//! The request-scoped errors the daemon reports to a client.

use vstd::prelude::*;

verus! {

/// A recoverable, request-scoped failure, sent back to the client as the
/// request's single response line: writing the on-disk definition failed
/// (`Configuration`), or the external engine's repository initialization
/// failed (`RepoInit`). Each carries a human-readable detail string.
#[derive(Debug, PartialEq)]
pub enum ServerError {
    Configuration(String),
    RepoInit(String),
}

} // verus!
