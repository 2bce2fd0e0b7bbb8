use ocr_pipeline::controller::{
    finish_recognition, FailureReason, JobController, PollAction, PollEvent, UiState,
    WorkerMessage, ENGINE_MODE, PAGE_SEG_MODE, POLL_INTERVAL_MS,
};
use ocr_pipeline::textproc::post_process;

#[test]
fn post_process_replaces_curly_brackets() {
    let text = String::from("f{x} = {y}");
    let out = post_process(&text.clone().into_bytes());
    assert_eq!(String::from_utf8(out).unwrap(), "f(x) = (y)");
}

#[test]
fn finish_recognition_post_processes_text() {
    let msg = finish_recognition(Ok(String::from("a{b}").into_bytes()));
    match msg {
        WorkerMessage::Text(t) => assert_eq!(String::from_utf8(t).unwrap(), "a(b)"),
        WorkerMessage::Failure(_) => panic!("success must deliver text"),
    }
}

#[test]
fn finish_recognition_keeps_failure_reason() {
    for reason in [
        FailureReason::EngineInit,
        FailureReason::EngineConfig,
        FailureReason::Recognition,
    ] {
        match finish_recognition(Err(reason)) {
            WorkerMessage::Failure(r) => assert_eq!(r, reason),
            WorkerMessage::Text(_) => panic!("failure must stay a failure"),
        }
    }
}

#[test]
fn second_submission_rejected_until_first_resolves() {
    let mut c = JobController::new();
    c.load_image();
    assert!(c.submit());
    assert_eq!(c.state, UiState::Running);
    // back-to-back second submission: rejected outright, state stays Running
    assert!(!c.submit());
    assert_eq!(c.state, UiState::Running);
    // the first job resolves; a new submission is accepted again
    let act = c.on_poll(&PollEvent::Message(WorkerMessage::Text(b"ok".to_vec())));
    assert_eq!(act, PollAction::Stop);
    assert_eq!(c.state, UiState::Delivered);
    assert!(c.submit());
    assert_eq!(c.state, UiState::Running);
}

#[test]
fn empty_poll_keeps_polling() {
    let mut c = JobController::new();
    c.load_image();
    assert!(c.submit());
    assert_eq!(c.on_poll(&PollEvent::Empty), PollAction::KeepPolling);
    assert_eq!(c.state, UiState::Running);
}

#[test]
fn disconnection_fails_job_and_reenables_trigger() {
    let mut c = JobController::new();
    c.load_image();
    assert!(c.submit());
    // the worker died without sending: the first poll that observes the
    // disconnection resolves the job as failed and stops the polling
    let act = c.on_poll(&PollEvent::Disconnected);
    assert_eq!(act, PollAction::Stop);
    assert_eq!(c.state, UiState::Failed);
    // the trigger is enabled again: a retry is accepted
    assert!(c.submit());
}

#[test]
fn failure_message_moves_to_failed() {
    let mut c = JobController::new();
    c.load_image();
    assert!(c.submit());
    let act = c.on_poll(&PollEvent::Message(WorkerMessage::Failure(FailureReason::Recognition)));
    assert_eq!(act, PollAction::Stop);
    assert_eq!(c.state, UiState::Failed);
    assert!(c.submit());
}

#[test]
fn clear_returns_to_idle_without_image() {
    let mut c = JobController::new();
    c.load_image();
    assert!(c.submit());
    c.on_poll(&PollEvent::Message(WorkerMessage::Text(b"t".to_vec())));
    c.clear();
    assert_eq!(c.state, UiState::Idle);
    // without an image no submission is accepted
    assert!(!c.submit());
}

#[test]
fn action_gating_follows_lifecycle() {
    let mut c = JobController::new();
    assert!(!c.can_trigger());
    assert!(!c.can_copy());
    assert!(!c.can_clear());
    c.load_image();
    assert!(c.can_trigger());
    assert!(c.can_clear());
    assert!(c.submit());
    assert!(!c.can_trigger());
    assert!(!c.can_copy());
    c.on_poll(&PollEvent::Message(WorkerMessage::Text(b"x".to_vec())));
    assert!(c.can_copy());
    assert!(c.can_trigger());
    c.clear();
    assert!(!c.can_copy());
    assert!(!c.can_clear());
}

#[test]
fn fixed_recognition_configuration() {
    assert_eq!(POLL_INTERVAL_MS, 100);
    assert_eq!(PAGE_SEG_MODE, 4);
    assert_eq!(ENGINE_MODE, 1);
}
