//! The daemon's request/response protocol: one request per connection,
//! answered by one response.
use vstd::prelude::*;

use crate::text::owned;

verus! {

/// A request sent by the command-line client to the daemon.
#[derive(Debug, Clone)]
pub enum Request {
    Toggle,
    Status,
    SetHotkey { binding: String },
    Shutdown,
}

/// The daemon's answer: success with an optional message, or an error.
#[derive(Debug, Clone)]
pub enum Response {
    Success { message: Option<String> },
    Failure { message: String },
}

/// A response as plain values: success with an optional message, or an
/// error message.
pub open spec fn response_view(r: Response) -> Result<Option<Seq<char>>, Seq<char>> {
    match r {
        Response::Success { message: Some(m) } => Ok(Some(m@)),
        Response::Success { message: None } => Ok(None),
        Response::Failure { message } => Err(message@),
    }
}

impl Response {
    /// Success without a message.
    pub fn ok() -> (r: Response)
        ensures
            response_view(r) == Ok::<Option<Seq<char>>, Seq<char>>(None),
    {
        Response::Success { message: None }
    }

    /// Success with a message.
    pub fn ok_msg(s: &str) -> (r: Response)
        ensures
            response_view(r) == Ok::<Option<Seq<char>>, Seq<char>>(Some(s@)),
    {
        Response::Success { message: Some(owned(s)) }
    }

    /// An error with a message.
    pub fn err(s: &str) -> (r: Response)
        ensures
            response_view(r) == Err::<Option<Seq<char>>, Seq<char>>(s@),
    {
        Response::Failure { message: owned(s) }
    }
}


/// What `knightingale status` prints for a reply: the message, `ok` when
/// there is none, or the error message as a failure.
pub fn status_line(resp: &Response) -> (r: Result<String, String>)
    ensures
        match response_view(*resp) {
            Ok(Some(m)) => r is Ok && r->Ok_0@ == m,
            Ok(None) => r is Ok && r->Ok_0@ == "ok"@,
            Err(m) => r is Err && r->Err_0@ == m,
        },
{
    match resp {
        Response::Success { message: Some(m) } => Ok(m.clone()),
        Response::Success { message: None } => Ok(owned("ok")),
        Response::Failure { message } => Err(message.clone()),
    }
}

/// What `knightingale toggle` makes of a reply: nothing on success, the
/// error message on failure.
pub fn toggle_outcome(resp: &Response) -> (r: Result<(), String>)
    ensures
        match response_view(*resp) {
            Ok(_) => r is Ok,
            Err(m) => r is Err && r->Err_0@ == m,
        },
{
    match resp {
        Response::Success { .. } => Ok(()),
        Response::Failure { message } => Err(message.clone()),
    }
}

} // verus!
