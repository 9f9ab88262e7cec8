//! What the daemon does for each request. The side effects (writing a file,
//! opening an editor) are carried out by the caller; this decides which one,
//! on what, and what the response is.

use vstd::prelude::*;
use crate::message::{Request, Response};

verus! {

/// The final component of a path, as `std::path::Path::file_name` gives it.
pub uninterp spec fn file_name_of(path: Seq<char>) -> Option<Seq<char>>;

/// Relies on `std::path::Path::file_name`: the final component of the path,
/// or none when the path is empty, a root, or ends in `..`. A component is
/// never empty and never holds a `/`.
#[verifier::external_body]
fn base_name(path: &str) -> (r: Option<String>)
    ensures
        match r {
            Some(n) => file_name_of(path@) == Some(n@),
            None => file_name_of(path@) is None,
        },
        r is Some ==> r->0@.len() > 0 && !r->0@.contains('/'),
{
    std::path::Path::new(path).file_name().map(|n| n.to_string_lossy().into_owned())
}

/// The work a request calls for.
#[derive(Debug)]
pub enum Action {
    /// Nothing to do but to answer.
    Reply(Response),
    /// Write `data` to the file `name` in the daemon's working directory.
    WriteFile { name: String, data: Vec<u8> },
    /// Open `path` in the editor.
    Open { path: String },
}

/// The reason given when a file to store has no name.
pub open spec fn no_filename() -> Seq<char> {
    "No filename"@
}

/// What storing `data` calls for, given the base name of the file name sent.
pub fn plan_send_file(name: Option<String>, data: Vec<u8>) -> (r: Action)
    ensures
        match name {
            Some(n) => r matches Action::WriteFile { name: m, data: d } && m@ == n@ && d@ == data@,
            None => r matches Action::Reply(Response::Failure(m)) && m@ == no_filename(),
        },
{
    match name {
        Some(n) => Action::WriteFile { name: n, data },
        None => Action::Reply(Response::Failure("No filename".to_owned())),
    }
}

/// The work `request` calls for: a probe and an echo are answered with
/// success at once; a file is stored under its base name only; a path is
/// opened.
pub fn plan_request(request: Request) -> (r: Action)
    ensures
        request is Ping ==> r matches Action::Reply(Response::Success),
        request is Echo ==> r matches Action::Reply(Response::Success),
        request is OpenVSCode ==> (r matches Action::Open { path } && path@
            == request->OpenVSCode_path@),
        request is SendFile ==> match file_name_of(request->SendFile_filename@) {
            Some(n) => r matches Action::WriteFile { name: m, data: d } && m@ == n && d@
                == request->SendFile_data@ && n.len() > 0 && !n.contains('/'),
            None => r matches Action::Reply(Response::Failure(m)) && m@ == no_filename(),
        },
{
    match request {
        Request::Ping => Action::Reply(Response::Success),
        Request::Echo { string: _ } => Action::Reply(Response::Success),
        Request::OpenVSCode { path } => Action::Open { path },
        Request::SendFile { filename, data } => {
            let name = base_name(filename.as_str());
            plan_send_file(name, data)
        },
    }
}

/// The response for a carried-out action: success, or failure with the
/// reason the action gave.
pub fn action_response(outcome: Result<(), String>) -> (r: Response)
    ensures
        outcome is Ok ==> r matches Response::Success,
        outcome is Err ==> (r matches Response::Failure(m) && m@ == outcome->Err_0@),
{
    match outcome {
        Ok(()) => Response::Success,
        Err(m) => Response::Failure(m),
    }
}

} // verus!
