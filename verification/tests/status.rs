use knightingale_core::ipc::{Request, Response};
use knightingale_core::error::KnightError;
use knightingale_core::session::{handle_request, Session, SessionAction, SessionPhase};
use knightingale_core::status::Status;

#[test]
fn microcopy_strings() {
    assert_eq!(Status::Recording.microcopy(), "Recording…");
    assert_eq!(Status::Transcribing.microcopy(), "Transcribing…");
    assert_eq!(Status::Done.microcopy(), "✓ Done");
    assert_eq!(Status::Cancelled.microcopy(), "Cancelled");
    assert_eq!(
        Status::Failed("auth".into()).microcopy(),
        "✗ Failed: auth. Run `knightingale doctor`."
    );
}

#[test]
fn responses() {
    assert!(matches!(Response::ok(), Response::Success { message: None }));
    assert!(matches!(Response::ok_msg("hi"), Response::Success { message: Some(m) } if m == "hi"));
    assert!(matches!(Response::err("no"), Response::Failure { message } if message == "no"));
}

#[test]
fn daemon_requests() {
    let mut s = Session::new(300);
    let out = handle_request(&Request::Status, &mut s, 0);
    assert!(matches!(out.response, Response::Success { message: Some(m) } if m == "idle"));
    assert!(!out.stop);
    let out = handle_request(&Request::Toggle, &mut s, 5);
    assert!(matches!(out.response, Response::Success { message: None }));
    assert!(matches!(out.step.announce, Some(Status::Recording)));
    assert_eq!(out.step.action, SessionAction::StartRecording);
    let out = handle_request(&Request::Status, &mut s, 6);
    assert!(matches!(out.response, Response::Success { message: Some(m) } if m == "recording"));
    let out = handle_request(&Request::SetHotkey { binding: "super+k".to_string() }, &mut s, 7);
    assert!(
        matches!(out.response, Response::Failure { message } if message == "set_hotkey not yet implemented")
    );
    let out = handle_request(&Request::Shutdown, &mut s, 8);
    assert!(out.stop);
    assert!(matches!(out.response, Response::Success { message: Some(m) } if m == "shutting down"));
    assert_eq!(s.phase, SessionPhase::Recording { started: 5 });
}

#[test]
fn hotkey_starts_then_stops_then_reports() {
    let mut s = Session::new(300);
    let step = s.toggle(10);
    assert_eq!(step.action, SessionAction::StartRecording);
    assert_eq!(s.status_label(), "recording");
    let step = s.toggle(20);
    assert_eq!(step.action, SessionAction::StopAndTranscribe);
    assert!(matches!(step.announce, Some(Status::Transcribing)));
    assert_eq!(s.phase, SessionPhase::Transcribing);
    let step = s.toggle(21);
    assert_eq!(step.action, SessionAction::Nothing);
    assert!(step.announce.is_none());
    assert!(matches!(s.finished(Ok(())), Some(Status::Done)));
    assert_eq!(s.phase, SessionPhase::Idle);
    assert!(s.finished(Ok(())).is_none());
}

#[test]
fn failures_are_announced_with_the_error_message() {
    let mut s = Session::new(300);
    s.toggle(0);
    let status = s.finished(Err(KnightError::Audio("no default input device available".into())));
    assert!(matches!(
        status,
        Some(Status::Failed(m)) if m == "audio capture failed: no default input device available"
    ));
    assert_eq!(s.phase, SessionPhase::Idle);
}

#[test]
fn recordings_stop_at_the_cap() {
    let mut s = Session::new(300);
    s.toggle(100);
    assert_eq!(s.tick(399).action, SessionAction::Nothing);
    assert_eq!(s.tick(50).action, SessionAction::Nothing);
    let step = s.tick(400);
    assert_eq!(step.action, SessionAction::StopAndTranscribe);
    assert_eq!(s.phase, SessionPhase::Transcribing);
    assert_eq!(s.tick(10_000).action, SessionAction::Nothing);
}

#[test]
fn cancel_only_announces_a_running_recording() {
    let mut s = Session { phase: SessionPhase::Recording { started: 0 }, max_recording_secs: 300 };
    assert_eq!(s.status_label(), "recording");
    assert!(matches!(s.cancel(), Some(Status::Cancelled)));
    assert_eq!(s.phase, SessionPhase::Idle);
    assert!(s.cancel().is_none());
    let mut t = Session { phase: SessionPhase::Transcribing, max_recording_secs: 300 };
    assert!(t.cancel().is_none());
    assert_eq!(t.phase, SessionPhase::Idle);
}
