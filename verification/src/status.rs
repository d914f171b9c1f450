//! Status updates shown to the user while dictating.
use vstd::prelude::*;

use crate::text::{append_str, chars_of, owned, string_from_chars};

verus! {

/// A stage of a dictation, or how it ended.
#[derive(Debug, Clone)]
pub enum Status {
    Recording,
    Transcribing,
    Done,
    Cancelled,
    Failed(String),
}

/// The microcopy shown for each status.
pub open spec fn microcopy_of(s: Status) -> Seq<char> {
    match s {
        Status::Recording => "Recording…"@,
        Status::Transcribing => "Transcribing…"@,
        Status::Done => "✓ Done"@,
        Status::Cancelled => "Cancelled"@,
        Status::Failed(reason) => "✗ Failed: "@ + reason@ + ". Run `knightingale doctor`."@,
    }
}

impl Status {
    /// The user-facing line for this status.
    pub fn microcopy(&self) -> (r: String)
        ensures
            r@ == microcopy_of(*self),
    {
        match self {
            Status::Recording => owned("Recording…"),
            Status::Transcribing => owned("Transcribing…"),
            Status::Done => owned("✓ Done"),
            Status::Cancelled => owned("Cancelled"),
            Status::Failed(reason) => {
                let mut m = chars_of("✗ Failed: ");
                append_str(&mut m, reason.as_str());
                append_str(&mut m, ". Run `knightingale doctor`.");
                string_from_chars(m)
            },
        }
    }
}

} // verus!
