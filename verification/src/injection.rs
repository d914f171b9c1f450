//! Which typing backends to use, and in what order, to insert text into
//! the focused window.
use vstd::prelude::*;

use crate::config::InjectionMethod;
use crate::error::{error_view, ErrorKind, KnightError};
use crate::platform::Platform;
use crate::text::owned;

verus! {

/// A way of inserting text into the focused window.
#[derive(Debug, Clone, Copy, PartialEq, Eq, Structural)]
pub enum Backend {
    /// Synthesised key presses.
    Enigo,
    /// Put the text on the clipboard, then press the paste shortcut.
    ClipboardPaste,
}

/// The backends to try in order, until one succeeds, for a configured
/// method. `Auto` falls back to the clipboard when typing fails; `Uinput`
/// types through synthesised key presses on Linux and is refused elsewhere.
pub open spec fn plan_of(method: InjectionMethod, platform: Platform) -> Result<
    Seq<Backend>,
    (ErrorKind, Seq<char>),
> {
    match method {
        InjectionMethod::Auto => Ok(seq![Backend::Enigo, Backend::ClipboardPaste]),
        InjectionMethod::Enigo => Ok(seq![Backend::Enigo]),
        InjectionMethod::Uinput => if platform == Platform::Linux {
            Ok(seq![Backend::Enigo])
        } else {
            Err((ErrorKind::Permission, "uinput is Linux-only"@))
        },
        InjectionMethod::ClipboardPaste => Ok(seq![Backend::ClipboardPaste]),
    }
}

/// The backends to try for `method` on `platform`. The text is typed by
/// the first backend that succeeds; when all fail, the last failure is the
/// result.
pub fn injection_plan(method: InjectionMethod, platform: Platform) -> (r: Result<
    Vec<Backend>,
    KnightError,
>)
    ensures
        match r {
            Ok(v) => plan_of(method, platform) == Ok::<Seq<Backend>, (ErrorKind, Seq<char>)>(v@),
            Err(e) => plan_of(method, platform) == Err::<Seq<Backend>, (ErrorKind, Seq<char>)>(
                error_view(e),
            ),
        },
{
    match method {
        InjectionMethod::Auto => {
            let v = vec![Backend::Enigo, Backend::ClipboardPaste];
            assert(v@ =~= seq![Backend::Enigo, Backend::ClipboardPaste]);
            Ok(v)
        },
        InjectionMethod::Enigo => {
            let v = vec![Backend::Enigo];
            assert(v@ =~= seq![Backend::Enigo]);
            Ok(v)
        },
        InjectionMethod::Uinput => {
            if platform == Platform::Linux {
                let v = vec![Backend::Enigo];
                assert(v@ =~= seq![Backend::Enigo]);
                Ok(v)
            } else {
                Err(KnightError::Permission(owned("uinput is Linux-only")))
            }
        },
        InjectionMethod::ClipboardPaste => {
            let v = vec![Backend::ClipboardPaste];
            assert(v@ =~= seq![Backend::ClipboardPaste]);
            Ok(v)
        },
    }
}

} // verus!

verus! {

/// The plan honours the configured method on every platform: each explicit
/// method is tried alone with its own backend (`Enigo` types key presses,
/// `ClipboardPaste` pastes), `Auto` types first and falls back to pasting,
/// and `Uinput` types on Linux and is refused elsewhere. Apart from
/// `Uinput`, the platform does not change the plan.
pub proof fn lemma_plan_honours_method(method: InjectionMethod, platform: Platform, other: Platform)
    ensures
        plan_of(method, platform) matches Ok(v) ==> v.len() > 0,
        method == InjectionMethod::ClipboardPaste ==> (plan_of(method, platform) matches Ok(v)
            && v.len() == 1 && v[0] == Backend::ClipboardPaste),
        method == InjectionMethod::Enigo ==> (plan_of(method, platform) matches Ok(v) && v.len()
            == 1 && v[0] == Backend::Enigo),
        method == InjectionMethod::Auto ==> (plan_of(method, platform) matches Ok(v) && v.len()
            == 2 && v[0] == Backend::Enigo && v[1] == Backend::ClipboardPaste),
        method == InjectionMethod::Uinput ==> (plan_of(method, platform) is Ok <==> platform
            == Platform::Linux),
        method == InjectionMethod::Uinput && platform == Platform::Linux ==> (plan_of(
            method,
            platform,
        ) matches Ok(v) && v.len() == 1 && v[0] == Backend::Enigo),
        method != InjectionMethod::Uinput ==> plan_of(method, platform) == plan_of(method, other),
{
}

} // verus!
