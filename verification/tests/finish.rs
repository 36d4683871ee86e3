use stellarshot::engine::SnapshotSummary;
use stellarshot::finish::{adopt, saved, settle, Finished};
use stellarshot::profile::{Destination, Profile};
use stellarshot::profile_page::{Effect, ProfileState};
use stellarshot::wizard::Mode;

fn profile() -> Profile {
    Profile::new(
        "p1".into(),
        "Home".into(),
        Destination::Local {
            path: "/backups/home".into(),
        },
        vec!["/home/dave".into()],
    )
}

fn summary(time: i64, paths: Vec<&str>) -> SnapshotSummary {
    SnapshotSummary {
        id: format!("{time:016x}"),
        time,
        paths: paths.into_iter().map(String::from).collect(),
        hostname: "host".into(),
        files_new: 0,
        files_changed: 0,
        files_unmodified: 0,
        data_added: 0,
        total_bytes: 0,
        pinned: false,
    }
}

#[test]
fn finishing_open_takes_the_folders_from_the_latest_snapshot() {
    let snapshots = vec![
        summary(200, vec!["/home/alex", "/srv"]),
        summary(100, vec!["/old"]),
    ];
    let adopted = adopt(profile(), true, &snapshots);
    assert_eq!(adopted.sources, vec!["/home/alex".to_string(), "/srv".to_string()]);
    assert_eq!(adopted.last_success, Some(200));
    assert!(adopted.append_only, "as the repository says");

    let empty = adopt(profile(), false, &[]);
    assert_eq!(empty.sources, vec!["/home/dave".to_string()]);
    assert_eq!(empty.last_success, None);
}

#[test]
fn an_edit_keeps_the_last_success_of_the_saved_profile() {
    let mut existing = profile();
    existing.last_success = Some(500);
    let edited = saved(
        &Mode::Edit {
            profile_id: "p1".into(),
        },
        profile(),
        Some(&existing),
    );
    assert_eq!(edited.last_success, Some(500));
    let created = saved(&Mode::Create, profile(), Some(&existing));
    assert_eq!(created.last_success, None);
}

#[test]
fn a_new_backup_starts_its_first_backup_at_once() {
    let mut state = ProfileState::new();
    let effects = settle(
        Finished {
            mode: Mode::Create,
            profile: profile(),
            secret: Some("pw".into()),
            snapshots: Vec::new(),
        },
        &profile(),
        &mut state,
        10,
    );
    assert!(state.is_unlocked());
    assert!(matches!(effects.as_slice(), [Effect::BackUp(secret)] if secret == "pw"));

    let mut state = ProfileState::new();
    let effects = settle(
        Finished {
            mode: Mode::Open,
            profile: profile(),
            secret: Some("pw".into()),
            snapshots: vec![summary(5, vec!["/home/dave"])],
        },
        &profile(),
        &mut state,
        10,
    );
    assert!(effects.is_empty());
    assert!(state.has_snapshots());

    let mut state = ProfileState::new();
    let effects = settle(
        Finished {
            mode: Mode::Edit {
                profile_id: "p1".into(),
            },
            profile: profile(),
            secret: None,
            snapshots: Vec::new(),
        },
        &profile(),
        &mut state,
        10,
    );
    assert!(effects.is_empty());
    assert!(!state.is_unlocked());
}
