use stellarshot::engine::{child_ended, init_step, is_outcome, ChildEvent, InitCheck, InitStep};
use stellarshot::errors::{EngineError, ErrorKind};

#[test]
fn a_child_that_reported_its_outcome_ends_quietly() {
    assert!(child_ended(true, false, "exit status: 1", "boom").is_none());
}

#[test]
fn a_killed_child_was_cancelled() {
    let error = child_ended(false, true, "signal: 9", "").unwrap();
    assert_eq!(error.kind, ErrorKind::Cancelled);
    assert_eq!(error.detail, "");
}

#[test]
fn a_child_that_exited_without_an_outcome_failed_internally() {
    let error = child_ended(false, false, "exit status: 101", "  thread panicked\n").unwrap();
    assert_eq!(error.kind, ErrorKind::Internal);
    assert_eq!(error.detail, "exit status: 101: thread panicked");
}

#[test]
fn only_done_and_failure_are_outcomes() {
    assert!(!is_outcome(&ChildEvent::Started));
    assert!(is_outcome(&ChildEvent::Failed(EngineError::new(
        ErrorKind::Io,
        String::new()
    ))));
}

#[test]
fn a_folder_with_other_files_is_refused_and_a_repository_is_opened() {
    assert_eq!(init_step(InitCheck::Empty), InitStep::Create);
    assert_eq!(init_step(InitCheck::NotEmpty), InitStep::Refuse);
    assert_eq!(
        init_step(InitCheck::ExistingRepository),
        InitStep::Open,
        "a wrong password never reinitialises"
    );
}
