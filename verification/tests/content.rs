use stellarshot::content::{Content, Message, Repository, Task};
use stellarshot::engine::{BackupReport, ChildEvent, Done, Phase, ProgressEvent, SnapshotSummary};
use stellarshot::errors::{EngineError, ErrorKind};

fn unlocked() -> Content {
    let mut content = Content::new();
    let repository = Repository {
        name: "home".into(),
        path: "/backups/home".into(),
    };
    let tasks = content.update(Message::SetRepository(repository, "pw".into()));
    assert!(matches!(tasks.as_slice(), [Task::FetchSnapshots(..)]));
    content
}

fn summary() -> SnapshotSummary {
    SnapshotSummary {
        id: "0123456789abcdef".into(),
        time: 0,
        paths: vec!["/home".into()],
        hostname: "host".into(),
        files_new: 1,
        files_changed: 0,
        files_unmodified: 0,
        data_added: 5,
        total_bytes: 5,
        pinned: false,
    }
}

fn done() -> Done {
    Done {
        report: Some(BackupReport { snapshot: summary() }),
        restored: None,
        forgotten: None,
        pruned: None,
    }
}

#[test]
fn a_finished_backup_reloads_the_snapshot_list() {
    let mut content = unlocked();
    content.update(Message::BackupStarted);
    assert!(content.is_backing_up());

    let tasks = content.update(Message::Backup(ChildEvent::Done(done())));

    assert!(!content.is_backing_up());
    assert!(matches!(tasks.as_slice(), [Task::FetchSnapshots(..)]));
}

#[test]
fn a_failed_backup_is_reported_and_cleared() {
    let mut content = unlocked();
    content.update(Message::BackupStarted);

    let error = EngineError::new(ErrorKind::Locked, String::new());
    let tasks = content.update(Message::Backup(ChildEvent::Failed(error)));

    assert!(!content.is_backing_up());
    assert!(
        matches!(tasks.as_slice(), [Task::ShowError(_, err)] if err.kind == ErrorKind::Locked)
    );
}

#[test]
fn a_killed_backup_is_reported_as_cancelled() {
    let mut content = unlocked();
    content.update(Message::BackupStarted);

    let tasks = content.update(Message::Backup(ChildEvent::Failed(EngineError::new(
        ErrorKind::Cancelled,
        String::new(),
    ))));

    assert!(!content.is_backing_up());
    assert!(
        matches!(tasks.as_slice(), [Task::ShowError(_, err)] if err.kind == ErrorKind::Cancelled)
    );
}

#[test]
fn a_wrong_password_returns_to_nothing_selected() {
    let mut content = unlocked();

    let tasks = content.update(Message::SetSnapshots(Err(EngineError::new(
        ErrorKind::WrongPassword,
        String::new(),
    ))));

    assert!(content.repository.is_none());
    assert!(
        content.unlocked().is_none(),
        "the rejected password is forgotten"
    );
    assert!(matches!(tasks.as_slice(), [Task::ShowError(..)]));
}

#[test]
fn deleting_needs_an_unlocked_repository() {
    let mut locked = Content::new();
    assert!(locked.update(Message::Delete("abc".into())).is_empty());

    let mut content = unlocked();
    let tasks = content.update(Message::Delete("abc".into()));
    assert!(matches!(tasks.as_slice(), [Task::DeleteSnapshots(_, _, ids)] if ids == &["abc"]));
}

#[test]
fn fetching_uses_the_repository_path_and_password() {
    let content = unlocked();
    assert_eq!(
        content.unlocked(),
        Some(("/backups/home".to_string(), "pw".to_string()))
    );
    let mut content = content;
    match content.update(Message::ReloadSnapshots).as_slice() {
        [Task::FetchSnapshots(path, secret)] => {
            assert_eq!(path, "/backups/home");
            assert_eq!(secret, "pw");
        }
        _ => panic!("expected one fetch"),
    }
    assert!(Content::new().update(Message::ReloadSnapshots).is_empty());
}

#[test]
fn a_backup_can_be_stopped_once_its_child_started() {
    let mut content = unlocked();
    content.update(Message::BackupStarted);
    assert!(content.update(Message::CancelBackup).is_empty());
    content.update(Message::Backup(ChildEvent::Started));
    let progress = ProgressEvent {
        phase: Phase::BackingUp,
        done: 3,
        total: Some(10),
        bytes: true,
        uploaded: None,
    };
    content.update(Message::Backup(ChildEvent::Progress(progress)));
    assert_eq!(content.backup.as_ref().and_then(|b| b.progress), Some(progress));
    assert!(matches!(content.update(Message::CancelBackup).as_slice(), [Task::CancelBackup]));
}

#[test]
fn a_failed_deletion_is_reported_and_the_list_reloaded() {
    let mut content = unlocked();
    let tasks = content.update(Message::SnapshotsDeleted(ChildEvent::Failed(EngineError::new(
        ErrorKind::Locked,
        String::new(),
    ))));
    match tasks.as_slice() {
        [Task::ShowError(phrase, err), Task::FetchSnapshots(..)] => {
            assert_eq!(phrase.id, "delete-snapshot-failed");
            assert_eq!(err.kind, ErrorKind::Locked);
        }
        _ => panic!("expected an error, then a fetch"),
    }
    let tasks = content.update(Message::SnapshotsDeleted(ChildEvent::Done(done())));
    assert!(matches!(tasks.as_slice(), [Task::FetchSnapshots(..)]));
    content.update(Message::SetSnapshots(Ok(vec![summary()])));
    assert_eq!(content.snapshots.as_ref().map(|s| s.len()), Some(1));
}
