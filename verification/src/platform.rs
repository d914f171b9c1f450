//! The operating system a decision is made for.
use vstd::prelude::*;

verus! {

/// The target operating system. Behaviour that differs per OS takes this as
/// an input so that every branch can be checked.
#[derive(Debug, Clone, Copy, PartialEq, Eq, Structural)]
pub enum Platform {
    Linux,
    Macos,
    Windows,
    Other,
}

impl Platform {
    /// Whether this is a Unix-like system (file modes and sockets apply).
    pub open spec fn spec_is_unix(self) -> bool {
        self != Platform::Windows
    }

    #[verifier::when_used_as_spec(spec_is_unix)]
    pub fn is_unix(self) -> (r: bool)
        ensures
            r == self.spec_is_unix(),
    {
        match self {
            Platform::Windows => false,
            _ => true,
        }
    }
}

} // verus!
