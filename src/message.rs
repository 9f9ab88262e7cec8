//! The requests a client sends and the responses the daemon returns.

use vstd::prelude::*;

verus! {

/// A request, one per frame from client to daemon.
#[derive(Debug, Clone, PartialEq, Eq)]
pub enum Request {
    /// A liveness probe; answered with `Ok` and nothing else.
    Ping,
    /// Open `path` in the editor on the daemon's side.
    OpenVSCode { path: String },
    /// Store `data` in a file named by the base name of `filename`.
    SendFile { filename: String, data: Vec<u8> },
    /// Show `string` on the daemon's side.
    Echo { string: String },
}

/// The one response to each request.
#[derive(Debug, Clone, PartialEq, Eq)]
pub enum Response {
    /// The request was carried out.
    Success,
    /// The request failed, for the reason given.
    Failure(String),
}

} // verus!
