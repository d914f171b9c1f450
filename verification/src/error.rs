//! The error type shared by every fallible operation of the library.
use vstd::prelude::*;

use crate::text::{append_chars, chars_of, string_from_chars};

verus! {

/// What went wrong, with a human-readable detail message.
#[derive(Debug, Clone, PartialEq, Eq)]
pub enum KnightError {
    Auth(String),
    Network(String),
    Audio(String),
    Permission(String),
    ModelMissing(String),
    Hotkey(String),
    Config(String),
    Ipc(String),
    Other(String),
}

/// The kind of an error, without its message.
#[derive(Debug, Clone, Copy, PartialEq, Eq, Structural)]
pub enum ErrorKind {
    Auth,
    Network,
    Audio,
    Permission,
    ModelMissing,
    Hotkey,
    Config,
    Ipc,
    Other,
}

/// The kind of an error.
pub open spec fn kind_of(e: KnightError) -> ErrorKind {
    match e {
        KnightError::Auth(_) => ErrorKind::Auth,
        KnightError::Network(_) => ErrorKind::Network,
        KnightError::Audio(_) => ErrorKind::Audio,
        KnightError::Permission(_) => ErrorKind::Permission,
        KnightError::ModelMissing(_) => ErrorKind::ModelMissing,
        KnightError::Hotkey(_) => ErrorKind::Hotkey,
        KnightError::Config(_) => ErrorKind::Config,
        KnightError::Ipc(_) => ErrorKind::Ipc,
        KnightError::Other(_) => ErrorKind::Other,
    }
}

/// An error as a kind and a message.
pub open spec fn error_view(e: KnightError) -> (ErrorKind, Seq<char>) {
    (kind_of(e), detail(e))
}

/// The detail message carried by an error.
pub open spec fn detail(e: KnightError) -> Seq<char> {
    match e {
        KnightError::Auth(m) => m@,
        KnightError::Network(m) => m@,
        KnightError::Audio(m) => m@,
        KnightError::Permission(m) => m@,
        KnightError::ModelMissing(m) => m@,
        KnightError::Hotkey(m) => m@,
        KnightError::Config(m) => m@,
        KnightError::Ipc(m) => m@,
        KnightError::Other(m) => m@,
    }
}


/// The prefix that the rendered message puts before the detail.
pub open spec fn prefix_of(e: KnightError) -> Seq<char> {
    match e {
        KnightError::Auth(_) => "authentication failed: "@,
        KnightError::Network(_) => "network error: "@,
        KnightError::Audio(_) => "audio capture failed: "@,
        KnightError::Permission(_) => "permission denied: "@,
        KnightError::ModelMissing(_) => "model not found: "@,
        KnightError::Hotkey(_) => "hotkey error: "@,
        KnightError::Config(_) => "configuration error: "@,
        KnightError::Ipc(_) => "ipc error: "@,
        KnightError::Other(_) => Seq::empty(),
    }
}

/// The rendered, user-facing message of an error.
pub open spec fn rendered(e: KnightError) -> Seq<char> {
    prefix_of(e) + detail(e)
}

/// The diagnostic code of each kind of error.
pub open spec fn code_of(e: KnightError) -> Seq<char> {
    match e {
        KnightError::Auth(_) => "knightingale::auth"@,
        KnightError::Network(_) => "knightingale::network"@,
        KnightError::Audio(_) => "knightingale::audio"@,
        KnightError::Permission(_) => "knightingale::permission"@,
        KnightError::ModelMissing(_) => "knightingale::model_missing"@,
        KnightError::Hotkey(_) => "knightingale::hotkey"@,
        KnightError::Config(_) => "knightingale::config"@,
        KnightError::Ipc(_) => "knightingale::ipc"@,
        KnightError::Other(_) => "knightingale::other"@,
    }
}

/// The help line of each kind of error, if it has one.
pub open spec fn help_of(e: KnightError) -> Option<Seq<char>> {
    match e {
        KnightError::Auth(_) => Some(
            "check your API key with `knightingale config show` or rerun `knightingale config set-key <provider>`"@,
        ),
        KnightError::Network(_) => Some(
            "confirm the provider endpoint is reachable; run `knightingale doctor`"@,
        ),
        KnightError::Audio(_) => Some(
            "list mic devices with `knightingale config mic list` and confirm permissions; run `knightingale doctor`"@,
        ),
        KnightError::Permission(_) => Some(
            "on Linux confirm membership of the `input` group; on macOS grant Accessibility + Input Monitoring in System Settings"@,
        ),
        KnightError::ModelMissing(_) => Some(
            "install with `knightingale model pull <name>` or pick a different model with `knightingale config set model <name>`"@,
        ),
        KnightError::Hotkey(_) => Some(
            "set a different binding with `knightingale config set hotkey \"<binding>\"`"@,
        ),
        KnightError::Config(_) => Some(
            "inspect with `knightingale config show` or edit `~/.config/knightingale/config.toml`"@,
        ),
        KnightError::Ipc(_) => Some(
            "another daemon may already be running; check with `knightingale status`"@,
        ),
        KnightError::Other(_) => None,
    }
}

impl KnightError {
    /// The detail message carried by this error.
    pub fn detail_text(&self) -> (r: &String)
        ensures
            r@ == detail(*self),
    {
        match self {
            KnightError::Auth(m) => m,
            KnightError::Network(m) => m,
            KnightError::Audio(m) => m,
            KnightError::Permission(m) => m,
            KnightError::ModelMissing(m) => m,
            KnightError::Hotkey(m) => m,
            KnightError::Config(m) => m,
            KnightError::Ipc(m) => m,
            KnightError::Other(m) => m,
        }
    }

    /// The user-facing message: a prefix naming the kind, then the detail.
    pub fn message(&self) -> (r: String)
        ensures
            r@ == rendered(*self),
    {
        let prefix: &str = match self {
            KnightError::Auth(_) => "authentication failed: ",
            KnightError::Network(_) => "network error: ",
            KnightError::Audio(_) => "audio capture failed: ",
            KnightError::Permission(_) => "permission denied: ",
            KnightError::ModelMissing(_) => "model not found: ",
            KnightError::Hotkey(_) => "hotkey error: ",
            KnightError::Config(_) => "configuration error: ",
            KnightError::Ipc(_) => "ipc error: ",
            KnightError::Other(_) => "",
        };
        let mut out = chars_of(prefix);
        proof {
            if self is Other {
                reveal_strlit("");
            }
        }
        let d = chars_of(self.detail_text().as_str());
        append_chars(&mut out, d.as_slice());
        string_from_chars(out)
    }

    /// The diagnostic code of this kind of error.
    pub fn code(&self) -> (r: &'static str)
        ensures
            r@ == code_of(*self),
    {
        match self {
            KnightError::Auth(_) => "knightingale::auth",
            KnightError::Network(_) => "knightingale::network",
            KnightError::Audio(_) => "knightingale::audio",
            KnightError::Permission(_) => "knightingale::permission",
            KnightError::ModelMissing(_) => "knightingale::model_missing",
            KnightError::Hotkey(_) => "knightingale::hotkey",
            KnightError::Config(_) => "knightingale::config",
            KnightError::Ipc(_) => "knightingale::ipc",
            KnightError::Other(_) => "knightingale::other",
        }
    }

    /// The help line pointing at the relevant command, if any.
    pub fn help(&self) -> (r: Option<&'static str>)
        ensures
            r is Some <==> help_of(*self) is Some,
            r is Some ==> r->Some_0@ == help_of(*self)->Some_0,
    {
        match self {
            KnightError::Auth(_) => Some(
                "check your API key with `knightingale config show` or rerun `knightingale config set-key <provider>`",
            ),
            KnightError::Network(_) => Some(
                "confirm the provider endpoint is reachable; run `knightingale doctor`",
            ),
            KnightError::Audio(_) => Some(
                "list mic devices with `knightingale config mic list` and confirm permissions; run `knightingale doctor`",
            ),
            KnightError::Permission(_) => Some(
                "on Linux confirm membership of the `input` group; on macOS grant Accessibility + Input Monitoring in System Settings",
            ),
            KnightError::ModelMissing(_) => Some(
                "install with `knightingale model pull <name>` or pick a different model with `knightingale config set model <name>`",
            ),
            KnightError::Hotkey(_) => Some(
                "set a different binding with `knightingale config set hotkey \"<binding>\"`",
            ),
            KnightError::Config(_) => Some(
                "inspect with `knightingale config show` or edit `~/.config/knightingale/config.toml`",
            ),
            KnightError::Ipc(_) => Some(
                "another daemon may already be running; check with `knightingale status`",
            ),
            KnightError::Other(_) => None,
        }
    }
}

} // verus!
