use stellarshot::engine::{BackupReport, ChildEvent, Done, ForgetReport, PruneReport, SnapshotSummary};
use stellarshot::errors::{EngineError, ErrorKind};
use stellarshot::pages::{backed_up, EventKind, Stage, Work};
use stellarshot::profile::{Destination, Profile, Schedule};
use stellarshot::profile_page::{Effect, Event, Message, ProfileState, Running, Statistics};

fn profile() -> Profile {
    Profile::new(
        "0123".into(),
        "Home".into(),
        Destination::Local {
            path: "/backups/home".into(),
        },
        vec!["/home/dave".into()],
    )
}

fn summary(time: i64) -> SnapshotSummary {
    SnapshotSummary {
        id: "0123456789abcdef".into(),
        time,
        paths: vec!["/home/dave".into()],
        hostname: "host".into(),
        files_new: 1,
        files_changed: 0,
        files_unmodified: 0,
        data_added: 5,
        total_bytes: 5,
        pinned: false,
    }
}

fn unlocked() -> ProfileState {
    let mut state = ProfileState::new();
    state.update(
        Message::Opened("pw".into(), Ok(vec![summary(10)])),
        &profile(),
        0,
    );
    state
}

fn done(report: Option<BackupReport>) -> ChildEvent {
    ChildEvent::Done(Done {
        report,
        restored: None,
        forgotten: None,
        pruned: None,
    })
}

#[test]
fn the_keyring_is_consulted_once() {
    let mut state = ProfileState::new();
    let effects = state.activate(&profile());
    assert!(
        effects.iter().any(|e| matches!(e, Effect::LoadKeyring)),
        "did not load the keyring"
    );
    let effects = state.activate(&profile());
    assert!(
        !effects.iter().any(|e| matches!(e, Effect::LoadKeyring)),
        "the keyring is not asked for twice"
    );
}

#[test]
fn a_scheduled_backup_asks_for_its_next_run() {
    let mut state = ProfileState::new();
    let mut scheduled = profile();
    scheduled.schedule = Schedule::Daily;
    let effects = state.activate(&scheduled);
    assert!(effects.iter().any(|e| matches!(e, Effect::FetchNextRun)));

    // A manual backup has no timer to ask about.
    let mut state = ProfileState::new();
    let effects = state.activate(&profile());
    assert!(!effects.iter().any(|e| matches!(e, Effect::FetchNextRun)));
}

#[test]
fn statistics_are_calculated_once_per_press_while_unlocked() {
    let mut locked = ProfileState::new();
    assert!(
        locked
            .update(Message::CalculateStatistics, &profile(), 0)
            .is_empty(),
        "needs the password"
    );

    let mut state = unlocked();
    assert!(matches!(
        state
            .update(Message::CalculateStatistics, &profile(), 0)
            .as_slice(),
        [Effect::FetchStatistics(_)]
    ));
    assert!(
        state
            .update(Message::CalculateStatistics, &profile(), 0)
            .is_empty(),
        "a second press does not start another calculation"
    );

    let stats = Statistics {
        stored_bytes: 100,
        original_bytes: 300,
        packed_bytes: 100,
        reclaimable_bytes: 10,
    };
    state.update(Message::StatisticsLoaded(Ok(stats)), &profile(), 0);
    assert!(
        matches!(
            state
                .update(Message::CalculateStatistics, &profile(), 0)
                .as_slice(),
            [Effect::FetchStatistics(_)]
        ),
        "a finished calculation can be run again"
    );
}

#[test]
fn a_remembered_password_opens_without_asking_to_store_it_again() {
    let mut state = ProfileState::new();
    let effects = state.update(
        Message::KeyringLoaded(Ok(Some("pw".into()))),
        &profile(),
        0,
    );
    assert!(matches!(
        effects.as_slice(),
        [Effect::Open {
            remember: false,
            ..
        }]
    ));
}

#[test]
fn unlocking_uses_the_typed_password_and_clears_the_field() {
    let mut state = ProfileState::new();
    state.update(Message::UnlockPassword("typed".into()), &profile(), 0);

    let effects = state.update(Message::Unlock, &profile(), 0);

    match effects.as_slice() {
        [Effect::Open { secret, remember }] => {
            assert_eq!(secret, "typed");
            assert!(remember, "remember is on by default");
        }
        _ => panic!("expected an open effect"),
    }
    assert!(
        state.unlock_password.is_empty(),
        "the field does not keep the password"
    );
}

#[test]
fn a_wrong_password_stays_locked_and_is_reported() {
    let mut state = ProfileState::new();
    let effects = state.update(
        Message::Opened(
            "wrong".into(),
            Err(EngineError::new(ErrorKind::WrongPassword, "".into())),
        ),
        &profile(),
        0,
    );
    assert!(!state.is_unlocked());
    assert!(matches!(effects.as_slice(), [Effect::ShowError(..)]));
}

#[test]
fn back_up_now_needs_a_password_and_sources() {
    let mut locked = ProfileState::new();
    assert!(locked.back_up(&profile(), 0).is_empty());

    let mut state = unlocked();
    let mut empty = profile();
    empty.sources.clear();
    assert!(state.back_up(&empty, 0).is_empty(), "nothing to back up");

    assert!(matches!(
        state.back_up(&profile(), 0).as_slice(),
        [Effect::BackUp(_)]
    ));
    assert!(state.back_up(&profile(), 0).is_empty(), "one backup at a time");
}

#[test]
fn a_finished_backup_records_success_and_reloads() {
    let mut state = unlocked();
    state.back_up(&profile(), 0);

    let effects = state.update(
        Message::Backup(done(Some(BackupReport {
            snapshot: summary(99),
        }))),
        &profile(),
        0,
    );

    assert!(!state.is_busy());
    assert!(effects.iter().any(|e| matches!(e, Effect::Fetch(_))));
    assert!(effects
        .iter()
        .any(|e| matches!(e, Effect::RecordSuccess(99))));
    assert!(effects
        .iter()
        .any(|e| matches!(e, Effect::LogEvent(EventKind::BackedUp))));
    assert!(
        matches!(state.history.as_slice(), [event] if event.kind == EventKind::BackedUp),
        "logged in the page's own copy too, without waiting for a round trip"
    );
}

#[test]
fn a_late_history_load_does_not_duplicate_what_was_logged_while_it_ran() {
    let mut state = unlocked();
    // Something happens after the load was asked for but before it comes
    // back: the local record must survive the merge.
    state.history.push(Event {
        time: 500,
        kind: EventKind::BackedUp,
    });

    let loaded = vec![Event {
        time: 100,
        kind: EventKind::Checked { damaged: false },
    }];
    state.update(Message::HistoryLoaded(loaded), &profile(), 0);

    assert_eq!(state.history.len(), 2, "nothing lost, nothing duplicated");
    assert_eq!(state.history[0].time, 100);
    assert_eq!(state.history[1].time, 500);
}

#[test]
fn a_cancelled_backup_is_reported_and_cleared() {
    let mut state = unlocked();
    state.back_up(&profile(), 0);

    let effects = state.update(
        Message::Backup(ChildEvent::Failed(EngineError::new(
            ErrorKind::Cancelled,
            "".into(),
        ))),
        &profile(),
        0,
    );

    assert!(!state.is_busy());
    assert!(
        matches!(effects.as_slice(), [Effect::ShowError(_, err)] if err.kind == ErrorKind::Cancelled)
    );
}

#[test]
fn deleting_a_snapshot_waits_for_a_running_backup() {
    let mut state = unlocked();
    state.back_up(&profile(), 0);
    assert!(state
        .update(Message::DeleteSnapshot("abc".into()), &profile(), 0)
        .is_empty());
}

#[test]
fn toggling_pinned_asks_the_application_to_set_it() {
    let mut state = unlocked();
    let effects = state.update(Message::TogglePinned("abc".into(), true), &profile(), 0);
    assert!(matches!(
        effects.as_slice(),
        [Effect::SetPinned(_, id, true)] if id == "abc"
    ));
}

#[test]
fn toggling_pinned_waits_for_a_running_backup() {
    let mut state = unlocked();
    state.back_up(&profile(), 0);
    assert!(state
        .update(Message::TogglePinned("abc".into(), true), &profile(), 0)
        .is_empty());
}

#[test]
fn restore_when_unlocked_opens_the_restore_page_once() {
    let mut state = ProfileState::new();
    state.restore_when_unlocked = true;

    let effects = state.update(
        Message::Opened("pw".into(), Ok(vec![summary(10)])),
        &profile(),
        0,
    );

    assert!(matches!(effects.as_slice(), [Effect::OpenRestore(_)]));
    assert!(!state.restore_when_unlocked, "only the first unlock");
}

#[test]
fn a_failed_backup_is_logged_and_reported() {
    let mut state = unlocked();
    state.back_up(&profile(), 7);
    let effects = state.update(
        Message::Backup(ChildEvent::Failed(EngineError::new(
            ErrorKind::DestinationUnavailable,
            "gone".into(),
        ))),
        &profile(),
        42,
    );
    match effects.as_slice() {
        [Effect::LogEvent(EventKind::Failed { stage, kind, detail }), Effect::ShowError(phrase, err)] => {
            assert_eq!(*stage, Stage::Backup);
            assert_eq!(*kind, ErrorKind::DestinationUnavailable);
            assert_eq!(detail, "gone");
            assert_eq!(phrase.id, "snapshot-failed");
            assert_eq!(err.kind, ErrorKind::DestinationUnavailable);
        }
        _ => panic!("expected a logged and reported failure"),
    }
    assert_eq!(state.history.len(), 1);
    assert_eq!(state.history[0].time, 42);
}

#[test]
fn a_damaged_repository_is_logged_as_damage() {
    let mut state = unlocked();
    assert!(matches!(
        state.update(Message::CheckNow, &profile(), 0).as_slice(),
        [Effect::Check(secret)] if secret == "pw"
    ));
    let effects = state.update(
        Message::Checked(ChildEvent::Failed(EngineError::new(
            ErrorKind::RepositoryDamaged,
            "bad pack".into(),
        ))),
        &profile(),
        5,
    );
    assert!(matches!(
        effects.as_slice(),
        [
            Effect::LogEvent(EventKind::Checked { damaged: true }),
            Effect::RecordCheck(Err(_))
        ]
    ));
    assert!(!state.is_busy());
}

#[test]
fn a_sound_check_is_recorded() {
    let mut state = unlocked();
    state.update(Message::CheckNow, &profile(), 0);
    let effects = state.update(Message::Checked(done(None)), &profile(), 5);
    assert!(matches!(
        effects.as_slice(),
        [
            Effect::RecordCheck(Ok(())),
            Effect::LogEvent(EventKind::Checked { damaged: false })
        ]
    ));
}

#[test]
fn a_clean_up_reports_what_it_freed_and_reloads() {
    let mut state = unlocked();
    assert!(matches!(
        state.update(Message::CleanUpNow, &profile(), 0).as_slice(),
        [Effect::CleanUp(_)]
    ));
    let effects = state.update(
        Message::CleanedUp(ChildEvent::Done(Done {
            report: None,
            restored: None,
            forgotten: Some(ForgetReport { removed: 3 }),
            pruned: Some(PruneReport { bytes: 2048 }),
        })),
        &profile(),
        9,
    );
    assert!(matches!(
        effects.as_slice(),
        [
            Effect::CleanedUp {
                forgotten: 3,
                freed: 2048
            },
            Effect::LogEvent(EventKind::CleanedUp {
                forgotten: 3,
                freed: 2048
            }),
            Effect::Fetch(_)
        ]
    ));
}

#[test]
fn a_clean_up_is_not_cancelled() {
    let mut state = unlocked();
    state.update(Message::CleanUpNow, &profile(), 0);
    state.update(Message::CleanedUp(ChildEvent::Started), &profile(), 1);
    assert!(state
        .update(Message::CancelBackup, &profile(), 2)
        .is_empty());
    assert!(state.is_busy());
}

#[test]
fn a_started_backup_can_be_cancelled() {
    let mut state = unlocked();
    state.back_up(&profile(), 0);
    assert!(
        state.update(Message::CancelBackup, &profile(), 1).is_empty(),
        "not before the child has started"
    );
    state.update(Message::Backup(ChildEvent::Started), &profile(), 1);
    assert!(matches!(
        state.update(Message::CancelBackup, &profile(), 2).as_slice(),
        [Effect::CancelWork]
    ));
}

#[test]
fn a_failed_delete_is_reported_then_reloaded() {
    let mut state = unlocked();
    assert!(matches!(
        state.update(Message::DeleteSnapshot("abc".into()), &profile(), 0).as_slice(),
        [Effect::DeleteSnapshots(_, ids)] if ids == &vec!["abc".to_string()]
    ));
    let effects = state.update(
        Message::SnapshotsDeleted(ChildEvent::Failed(EngineError::new(
            ErrorKind::Locked,
            "".into(),
        ))),
        &profile(),
        1,
    );
    match effects.as_slice() {
        [Effect::ShowError(phrase, _), Effect::Fetch(secret)] => {
            assert_eq!(phrase.id, "delete-snapshot-failed");
            assert_eq!(secret, "pw");
        }
        _ => panic!("expected a reported failure and a reload"),
    }
}

#[test]
fn a_wrong_password_while_reloading_locks_the_page() {
    let mut state = unlocked();
    let effects = state.update(
        Message::SnapshotsLoaded(Err(EngineError::new(ErrorKind::WrongPassword, "".into()))),
        &profile(),
        0,
    );
    assert!(!state.is_unlocked());
    assert!(matches!(effects.as_slice(), [Effect::ShowError(..)]));

    let mut state = unlocked();
    state.update(
        Message::SnapshotsLoaded(Err(EngineError::new(ErrorKind::TimedOut, "".into()))),
        &profile(),
        0,
    );
    assert!(state.is_unlocked(), "other failures keep the password");
}

#[test]
fn progress_that_moves_is_noted() {
    let mut state = unlocked();
    state.back_up(&profile(), 10);
    let progress = stellarshot::engine::ProgressEvent {
        phase: stellarshot::engine::Phase::BackingUp,
        done: 5,
        total: Some(10),
        bytes: false,
        uploaded: Some(0),
    };
    state.update(Message::Backup(ChildEvent::Progress(progress.clone())), &profile(), 20);
    state.update(Message::Backup(ChildEvent::Progress(progress)), &profile(), 30);
    match &state.work {
        Some(Running {
            work: Work::Backup,
            since,
            moved,
            ..
        }) => {
            assert_eq!(*since, 10);
            assert_eq!(*moved, 20, "the same progress again is no move");
        }
        _ => panic!("the backup is still running"),
    }
}

#[test]
fn a_history_load_drops_what_it_already_holds() {
    let mut state = ProfileState::new();
    state.history.push(Event {
        time: 100,
        kind: EventKind::BackedUp,
    });
    let loaded = vec![Event {
        time: 100,
        kind: EventKind::BackedUp,
    }];
    state.update(Message::HistoryLoaded(loaded), &profile(), 0);
    assert_eq!(state.history.len(), 1);
}

#[test]
fn the_list_shows_the_recent_few_until_asked_for_all() {
    let mut state = ProfileState::new();
    assert_eq!(state.shown(), 0);
    state.update(
        Message::SnapshotsLoaded(Ok((0..8).map(|t| summary(100 - t)).collect())),
        &profile(),
        0,
    );
    assert_eq!(state.shown(), 5);
    state.update(Message::ShowAll, &profile(), 0);
    assert_eq!(state.shown(), 8);
}

#[test]
fn the_last_backup_is_the_newest_snapshot_else_the_remembered_time() {
    let mut remembered = profile();
    remembered.last_success = Some(40);
    let state = ProfileState::new();
    assert_eq!(state.last_backup(&remembered), Some(40));
    let state = unlocked();
    assert_eq!(state.last_backup(&remembered), Some(10));
}

#[test]
fn the_history_shows_the_newest_entries_first() {
    let mut state = ProfileState::new();
    for time in 0..7 {
        state.history.push(Event {
            time,
            kind: EventKind::BackedUp,
        });
    }
    let recent: Vec<i64> = state.recent_history().iter().map(|e| e.time).collect();
    assert_eq!(recent, vec![6, 5, 4, 3, 2]);
}

#[test]
fn a_stalled_run_says_why() {
    let mut state = unlocked();
    state.back_up(&profile(), 100);
    let card = state.progress_card(110).unwrap();
    assert_eq!(card.label.id, "progress-starting");
    assert_eq!(card.elapsed, 10);
    assert!(card.waiting.is_none());
    assert!(!card.can_cancel, "not before the child has started");

    let card = state.progress_card(120).unwrap();
    let waiting = card.waiting.unwrap();
    assert_eq!(waiting.id, "progress-waiting-preparing");

    state.update(Message::Backup(ChildEvent::Started), &profile(), 121);
    state.update(
        Message::Backup(ChildEvent::Progress(stellarshot::engine::ProgressEvent {
            phase: stellarshot::engine::Phase::BackingUp,
            done: 2_000,
            total: Some(10_000),
            bytes: true,
            uploaded: Some(500),
        })),
        &profile(),
        122,
    );
    let card = state.progress_card(123).unwrap();
    assert_eq!(card.label.id, "progress-backing-up");
    assert!(card.can_cancel);
    assert!(card.waiting.is_none());
    match card.detail {
        Some(stellarshot::i18n::Arg::Phrase(detail)) => assert_eq!(detail.id, "progress-uploaded"),
        _ => panic!("a backup says what it sent"),
    }
    assert!(ProfileState::new().progress_card(0).is_none());
}

#[test]
fn the_status_headline_says_how_long_ago() {
    assert_eq!(backed_up(None, 0).id, "never-backed-up");
    assert_eq!(backed_up(Some(1000), 1030).id, "backed-up-just-now");
    let hours = backed_up(Some(0), 7200);
    assert_eq!(hours.id, "backed-up-hours-ago");
    assert_eq!(hours.args[0].1, stellarshot::i18n::Arg::Count(2));
}
