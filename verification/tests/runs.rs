use stellarshot::app::{dejadup_found, theme_at, theme_index};
use stellarshot::config::AppTheme;
use stellarshot::dejadup::{Import, Place};
use stellarshot::engine::ChildEvent;
use stellarshot::errors::{EngineError, ErrorKind};
use stellarshot::i18n::Arg;
use stellarshot::pages::Stage;
use stellarshot::profile::{Retention, Schedule};
use stellarshot::profile_page::{Effect, Message};
use stellarshot::runs::{
    check_recorded, cleaned_up_recorded, prunes, when_unreachable, Report, RunState, Unreachable,
};

fn run(failed_stage: Option<Stage>, damaged: bool) -> RunState {
    RunState {
        last_check: Some(5),
        damaged,
        failed_stage,
    }
}

#[test]
fn a_passed_check_is_recorded_and_clears_a_failed_check() {
    let (record, report) = check_recorded(run(Some(Stage::Check), true), Ok(()), 100);
    assert_eq!(
        record,
        Some(RunState {
            last_check: Some(100),
            damaged: false,
            failed_stage: None
        })
    );
    assert!(matches!(report, Report::Info(title, _) if title.id == "check-passed-title"));
    let (record, _) = check_recorded(run(Some(Stage::Backup), false), Ok(()), 100);
    assert_eq!(record.unwrap().failed_stage, Some(Stage::Backup));
}

#[test]
fn a_check_that_found_damage_is_recorded_and_stops_pruning() {
    let error = EngineError::new(ErrorKind::RepositoryDamaged, String::new());
    let (record, report) = check_recorded(run(Some(Stage::Check), false), Err(error), 100);
    assert_eq!(
        record,
        Some(RunState {
            last_check: Some(100),
            damaged: true,
            failed_stage: Some(Stage::Check)
        })
    );
    assert!(!prunes(record));
    assert!(prunes(None));
    assert!(
        matches!(report, Report::Error(context, e) if context.id == "check-failed" && e.kind == ErrorKind::RepositoryDamaged)
    );
}

#[test]
fn a_check_that_could_not_run_is_not_recorded() {
    for kind in [ErrorKind::Cancelled, ErrorKind::DestinationUnavailable] {
        let (record, report) =
            check_recorded(run(None, true), Err(EngineError::new(kind, String::new())), 100);
        assert_eq!(record, None);
        assert!(matches!(report, Report::Error(context, e) if context.id == "check-failed" && e.kind == kind));
    }
}

#[test]
fn a_finished_clean_up_clears_a_failed_clean_up() {
    let (record, report) = cleaned_up_recorded(run(Some(Stage::Cleanup), true), 3, 2048);
    assert_eq!(record, run(None, true));
    match report {
        Report::Info(title, body) => {
            assert_eq!(title.id, "clean-up-done-title");
            assert_eq!(body.id, "clean-up-done-body");
            assert_eq!(body.args[0].1, Arg::Count(3));
            assert_eq!(body.args[1].1, Arg::Size(2048));
        }
        Report::Error(..) => panic!("a clean-up that finished is no error"),
    }
    let (record, _) = cleaned_up_recorded(run(Some(Stage::Backup), false), 0, 0);
    assert_eq!(record.failed_stage, Some(Stage::Backup));
}

#[test]
fn an_unreachable_location_ends_the_work_as_a_failure() {
    let error = || EngineError::new(ErrorKind::DestinationUnavailable, String::new());
    assert!(matches!(
        when_unreachable(&Effect::BackUp("pw".into()), error()),
        Some(Unreachable::Page(Message::Backup(ChildEvent::Failed(e)))) if e.kind == ErrorKind::DestinationUnavailable
    ));
    assert!(matches!(
        when_unreachable(&Effect::Check("pw".into()), error()),
        Some(Unreachable::Page(Message::Checked(ChildEvent::Failed(_))))
    ));
    assert!(matches!(
        when_unreachable(&Effect::CleanUp("pw".into()), error()),
        Some(Unreachable::Page(Message::CleanedUp(ChildEvent::Failed(_))))
    ));
    assert!(matches!(
        when_unreachable(&Effect::DeleteSnapshots("pw".into(), vec!["abc".into()]), error()),
        Some(Unreachable::ShowError(context, _)) if context.id == "delete-snapshot-failed"
    ));
    assert!(when_unreachable(&Effect::LoadKeyring, error()).is_none());
}

#[test]
fn the_theme_list_reads_match_desktop_dark_light() {
    assert_eq!(theme_at(0), AppTheme::System);
    assert_eq!(theme_at(1), AppTheme::Dark);
    assert_eq!(theme_at(2), AppTheme::Light);
    assert_eq!(theme_at(7), AppTheme::System);
    for theme in [AppTheme::System, AppTheme::Dark, AppTheme::Light] {
        assert_eq!(theme_at(theme_index(theme)), theme);
    }
}

fn import(place: Place, other_format: bool) -> Import {
    Import {
        sources: vec!["/home/alex".into()],
        excludes: vec![],
        place,
        other_format,
        schedule: Schedule::Weekly,
        retention: Retention::KeepForever,
    }
}

#[test]
fn a_dejadup_import_opens_the_wizard_only_when_it_can_be_used() {
    assert!(matches!(dejadup_found(None), Err(p) if p.id == "dejadup-none"));
    assert!(matches!(
        dejadup_found(Some(import(Place::Folder("/backups".into()), true))),
        Err(p) if p.id == "dejadup-other-format"
    ));
    match dejadup_found(Some(import(Place::Unsupported("s3".into()), false))) {
        Err(p) => {
            assert_eq!(p.id, "dejadup-unsupported");
            assert_eq!(p.args[0].1, Arg::Text("s3".into()));
        }
        Ok(_) => panic!("an unsupported place opens no wizard"),
    }
    let found = dejadup_found(Some(import(Place::Folder("/backups".into()), false)));
    assert!(matches!(found, Ok(i) if i.place == Place::Folder("/backups".into())));
}
