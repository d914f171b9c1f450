//! The daemon's decisions: the dictation session's state machine (idle,
//! recording, transcribing) and what each request from the client does.
//! The daemon performs the actions the machine asks for and reports back
//! how they ended.
use vstd::prelude::*;

use crate::error::{rendered, KnightError};
use crate::ipc::{response_view, Request, Response};
use crate::status::Status;
use crate::text::owned;

verus! {

/// Where the session is.
#[derive(Debug, Clone, Copy, PartialEq, Eq, Structural)]
pub enum SessionPhase {
    Idle,
    /// Capturing since `started` (seconds on the daemon's clock).
    Recording { started: u64 },
    /// Capture stopped; the transcript is being made and typed.
    Transcribing,
}

pub open spec fn label_of(p: SessionPhase) -> Seq<char> {
    match p {
        SessionPhase::Idle => "idle"@,
        SessionPhase::Recording { .. } => "recording"@,
        SessionPhase::Transcribing => "transcribing"@,
    }
}

/// What the daemon must do for the session.
#[derive(Debug, Clone, Copy, PartialEq, Eq, Structural)]
pub enum SessionAction {
    Nothing,
    /// Start capturing from the microphone.
    StartRecording,
    /// Stop capturing, transcribe what was captured, and type the result;
    /// then report the outcome with `Session::finished`.
    StopAndTranscribe,
}

/// One transition's orders: the action to perform and the status to show.
pub struct Step {
    pub action: SessionAction,
    pub announce: Option<Status>,
}

/// The dictation session of the daemon.
pub struct Session {
    pub phase: SessionPhase,
    /// The hard cap on one recording, in seconds.
    pub max_recording_secs: u64,
}

/// The phase after a toggle at time `now`.
pub open spec fn toggled(p: SessionPhase, now: u64) -> SessionPhase {
    match p {
        SessionPhase::Idle => SessionPhase::Recording { started: now },
        SessionPhase::Recording { .. } => SessionPhase::Transcribing,
        SessionPhase::Transcribing => SessionPhase::Transcribing,
    }
}

/// Whether a toggle at time `now` from phase `p` gives `step`: starting a
/// recording from idle, stopping it for transcription while recording, and
/// nothing while a transcript is under way.
pub open spec fn toggle_step(p: SessionPhase, step: Step) -> bool {
    match p {
        SessionPhase::Idle => step.action == SessionAction::StartRecording && step.announce matches Some(Status::Recording),
        SessionPhase::Recording { .. } => step.action == SessionAction::StopAndTranscribe && step.announce matches Some(Status::Transcribing),
        SessionPhase::Transcribing => step.action == SessionAction::Nothing && step.announce is None,
    }
}

/// Whether a recording in phase `p` has reached the cap at time `now`. A
/// clock reading before the start counts as no time elapsed.
pub open spec fn over_cap(p: SessionPhase, cap: u64, now: u64) -> bool {
    match p {
        SessionPhase::Recording { started } => now >= started && now - started >= cap,
        _ => false,
    }
}

/// Hitting the hotkey starts a recording, and hitting it again stops it
/// for transcription.
pub proof fn lemma_toggle_twice(t1: u64, t2: u64)
    ensures
        toggled(SessionPhase::Idle, t1) == (SessionPhase::Recording { started: t1 }),
        toggled(toggled(SessionPhase::Idle, t1), t2) == SessionPhase::Transcribing,
{
}

impl Session {
    /// An idle session whose recordings stop after `max_recording_secs`.
    pub fn new(max_recording_secs: u64) -> (r: Session)
        ensures
            r.phase == SessionPhase::Idle,
            r.max_recording_secs == max_recording_secs,
    {
        Session { phase: SessionPhase::Idle, max_recording_secs }
    }

    /// The phase as shown by `knightingale status`.
    pub fn status_label(&self) -> (r: String)
        ensures
            r@ == label_of(self.phase),
    {
        match self.phase {
            SessionPhase::Idle => owned("idle"),
            SessionPhase::Recording { .. } => owned("recording"),
            SessionPhase::Transcribing => owned("transcribing"),
        }
    }

    /// Handles the hotkey or a toggle request at time `now`.
    pub fn toggle(&mut self, now: u64) -> (r: Step)
        ensures
            final(self).phase == toggled(old(self).phase, now),
            final(self).max_recording_secs == old(self).max_recording_secs,
            toggle_step(old(self).phase, r),
    {
        match self.phase {
            SessionPhase::Idle => {
                self.phase = SessionPhase::Recording { started: now };
                Step { action: SessionAction::StartRecording, announce: Some(Status::Recording) }
            },
            SessionPhase::Recording { .. } => {
                self.phase = SessionPhase::Transcribing;
                Step {
                    action: SessionAction::StopAndTranscribe,
                    announce: Some(Status::Transcribing),
                }
            },
            SessionPhase::Transcribing => Step { action: SessionAction::Nothing, announce: None },
        }
    }

    /// The failsafe, called as time passes: a recording that reached the
    /// cap is stopped as if toggled.
    pub fn tick(&mut self, now: u64) -> (r: Step)
        ensures
            final(self).max_recording_secs == old(self).max_recording_secs,
            over_cap(old(self).phase, old(self).max_recording_secs, now) ==> {
                &&& final(self).phase == SessionPhase::Transcribing
                &&& r.action == SessionAction::StopAndTranscribe
                &&& r.announce matches Some(Status::Transcribing)
            },
            !over_cap(old(self).phase, old(self).max_recording_secs, now) ==> {
                &&& final(self).phase == old(self).phase
                &&& r.action == SessionAction::Nothing
                &&& r.announce is None
            },
    {
        match self.phase {
            SessionPhase::Recording { started } => {
                if now >= started && now - started >= self.max_recording_secs {
                    return self.toggle(now);
                }
                Step { action: SessionAction::Nothing, announce: None }
            },
            _ => Step { action: SessionAction::Nothing, announce: None },
        }
    }

    /// Reports how the work ordered by the last step ended: capture could
    /// not start, or the transcript was typed, or some stage failed. The
    /// session goes back to idle and the outcome is shown. An idle session
    /// ignores the report.
    pub fn finished(&mut self, outcome: Result<(), KnightError>) -> (r: Option<Status>)
        ensures
            final(self).max_recording_secs == old(self).max_recording_secs,
            old(self).phase == SessionPhase::Idle ==> final(self).phase == SessionPhase::Idle
                && r is None,
            old(self).phase != SessionPhase::Idle ==> {
                &&& final(self).phase == SessionPhase::Idle
                &&& match outcome {
                    Ok(()) => r matches Some(Status::Done),
                    Err(e) => r matches Some(Status::Failed(m)) && m@ == rendered(e),
                }
            },
    {
        if self.phase == SessionPhase::Idle {
            return None;
        }
        self.phase = SessionPhase::Idle;
        match outcome {
            Ok(()) => Some(Status::Done),
            Err(e) => Some(Status::Failed(e.message())),
        }
    }

    /// Abandons the session on shutdown. Returns the status to announce
    /// when a recording was cancelled.
    pub fn cancel(&mut self) -> (r: Option<Status>)
        ensures
            final(self).phase == SessionPhase::Idle,
            final(self).max_recording_secs == old(self).max_recording_secs,
            old(self).phase is Recording <==> r is Some,
            r is Some ==> r->Some_0 matches Status::Cancelled,
    {
        match self.phase {
            SessionPhase::Recording { .. } => {
                self.phase = SessionPhase::Idle;
                Some(Status::Cancelled)
            },
            _ => {
                self.phase = SessionPhase::Idle;
                None
            },
        }
    }
}

/// What handling a request asks of the daemon besides replying.
pub struct RequestOutcome {
    /// The reply to send back.
    pub response: Response,
    /// The session's orders, when the request toggled it.
    pub step: Step,
    /// Whether the daemon should shut down.
    pub stop: bool,
}

/// Handles one request from the client at time `now`.
pub fn handle_request(req: &Request, session: &mut Session, now: u64) -> (r: RequestOutcome)
    ensures
        final(session).max_recording_secs == old(session).max_recording_secs,
        match *req {
            Request::Toggle => {
                &&& final(session).phase == toggled(old(session).phase, now)
                &&& toggle_step(old(session).phase, r.step)
                &&& response_view(r.response) == Ok::<Option<Seq<char>>, Seq<char>>(None)
                &&& !r.stop
            },
            Request::Status => {
                &&& final(session).phase == old(session).phase
                &&& response_view(r.response) == Ok::<Option<Seq<char>>, Seq<char>>(
                    Some(label_of(old(session).phase)),
                )
                &&& r.step.action == SessionAction::Nothing && r.step.announce is None
                &&& !r.stop
            },
            Request::SetHotkey { .. } => {
                &&& final(session).phase == old(session).phase
                &&& response_view(r.response) == Err::<Option<Seq<char>>, Seq<char>>(
                    "set_hotkey not yet implemented"@,
                )
                &&& r.step.action == SessionAction::Nothing && r.step.announce is None
                &&& !r.stop
            },
            Request::Shutdown => {
                &&& final(session).phase == old(session).phase
                &&& response_view(r.response) == Ok::<Option<Seq<char>>, Seq<char>>(
                    Some("shutting down"@),
                )
                &&& r.step.action == SessionAction::Nothing && r.step.announce is None
                &&& r.stop
            },
        },
{
    let quiet = Step { action: SessionAction::Nothing, announce: None };
    match req {
        Request::Toggle => {
            let step = session.toggle(now);
            RequestOutcome { response: Response::ok(), step, stop: false }
        },
        Request::Status => {
            let label = session.status_label();
            RequestOutcome { response: Response::ok_msg(label.as_str()), step: quiet, stop: false }
        },
        Request::SetHotkey { .. } => RequestOutcome {
            response: Response::err("set_hotkey not yet implemented"),
            step: quiet,
            stop: false,
        },
        Request::Shutdown => RequestOutcome {
            response: Response::ok_msg("shutting down"),
            step: quiet,
            stop: true,
        },
    }
}

} // verus!
