use stellarshot::errors::ErrorKind;
use stellarshot::i18n::Arg;
use stellarshot::pages::{
    describe_event, hooks_summary, icon_name, retention_description, schedule_summary,
    status_text, EventKind, Stage, Status, StatusText,
};
use stellarshot::profile::{Hook, Retention, Schedule};

fn status(running: bool, failed: bool, overdue: bool, last_success: Option<i64>) -> Status {
    Status {
        running,
        failed,
        overdue,
        last_success,
    }
}

#[test]
fn the_panel_icon_shows_the_most_urgent_state() {
    assert_eq!(icon_name(&[]), "io.github.stldave314.Stellarshot-symbolic");
    assert_eq!(
        icon_name(&[status(false, true, false, None), status(true, false, false, None)]),
        "emblem-synchronizing-symbolic",
        "running beats a warning"
    );
    assert_eq!(
        icon_name(&[status(false, false, true, Some(1))]),
        "dialog-warning-symbolic"
    );
}

#[test]
fn the_applet_says_running_or_when_it_last_succeeded() {
    match status_text(&status(true, false, false, Some(5))) {
        StatusText::Phrase(p) => assert_eq!(p.id, "status-running"),
        _ => panic!("a running backup says so"),
    }
    assert_eq!(
        status_text(&status(false, false, false, Some(5))),
        StatusText::Time(5)
    );
    match status_text(&status(false, false, false, None)) {
        StatusText::Phrase(p) => assert_eq!(p.id, "never-backed-up"),
        _ => panic!("never backed up"),
    }
}

#[test]
fn schedules_and_retention_read_as_sentences() {
    assert_eq!(schedule_summary(Schedule::Weekly).id, "schedule-weekly");
    assert_eq!(schedule_summary(Schedule::OnConnect).id, "schedule-on-connect");
    let keep = retention_description(Retention::KeepFor { days: 30 });
    assert_eq!(keep.id, "keep-for-description");
    assert_eq!(keep.args[0].1, Arg::Count(30));
}

#[test]
fn only_enabled_hooks_are_counted() {
    assert_eq!(hooks_summary(&[]).id, "hooks-row-none");
    let hooks = vec![
        Hook {
            command: "a".into(),
            enabled: true,
        },
        Hook {
            command: "b".into(),
            enabled: false,
        },
    ];
    let summary = hooks_summary(&hooks);
    assert_eq!(summary.id, "hooks-row-count");
    assert_eq!(summary.args[0].1, Arg::Count(1));
}

#[test]
fn history_entries_read_as_sentences() {
    assert_eq!(describe_event(&EventKind::BackedUp).id, "event-backed-up");
    let failed = describe_event(&EventKind::Failed {
        stage: Stage::Cleanup,
        kind: ErrorKind::Locked,
        detail: String::new(),
    });
    assert_eq!(failed.id, "event-failed");
    match &failed.args[0].1 {
        Arg::Phrase(stage) => assert_eq!(stage.id, "event-stage-cleanup"),
        _ => panic!("the stage is named"),
    }
    let cleaned = describe_event(&EventKind::CleanedUp {
        forgotten: 2,
        freed: 4096,
    });
    assert_eq!(cleaned.args[1].1, Arg::Size(4096));
    assert_eq!(
        describe_event(&EventKind::Checked { damaged: true }).id,
        "event-checked-damaged"
    );
}
