use stellarshot::dejadup::{Import, Place as DejaDupPlace};
use stellarshot::drives::Drive;
use stellarshot::engine::SizeEstimate;
use stellarshot::errors::{EngineError, ErrorKind, Probe};
use stellarshot::profile::{Destination, Profile, Retention, Schedule};
use stellarshot::wizard::place;
use stellarshot::wizard::{
    keep_choices, Effect, EstimateEvent, Finish, Message, Mode, Names, Step, Wizard,
};

fn names() -> Names {
    Names {
        host: "laptop".to_string(),
        google_drive: "Google Drive".to_string(),
        dejadup: "Déjà Dup".to_string(),
    }
}

fn finish_effect(effects: &[Effect]) -> Option<&Finish> {
    effects.iter().find_map(|effect| match effect {
        Effect::Finish(finish) => Some(finish.as_ref()),
        _ => None,
    })
}

fn create(home: Option<&str>) -> (Wizard, Vec<Effect>) {
    Wizard::create(home, &names())
}

#[test]
fn mod_create_starts_with_home_and_the_default_excludes() {
    let (wizard, effects) = create(Some("/home/dave"));
    assert_eq!(wizard.sources, vec!["/home/dave".to_string()]);
    assert!(wizard.excludes.contains(&"/home/dave/.cache".to_string()));
    assert!(matches!(effects.as_slice(), [Effect::Estimate { .. }]));
}

#[test]
fn wizard_create_starts_with_home_and_the_default_excludes() {
    let (wizard, effects) = create(Some("/home/dave"));
    assert_eq!(wizard.sources, vec!["/home/dave".to_string()]);
    assert!(wizard.excludes.contains(&"/home/dave/.cache".to_string()));
    assert!(matches!(effects.as_slice(), [Effect::Estimate { .. }]));
}

#[test]
fn mod_cannot_leave_what_without_a_source() {
    let (mut wizard, _) = create(None);
    assert!(!wizard.can_advance());
    wizard.update(Message::Next, 0);
    assert_eq!(wizard.step, Step::What);

    wizard.update(Message::SourcesChosen(vec!["/data".into()]), 0);
    assert!(wizard.can_advance());
}

#[test]
fn wizard_cannot_leave_what_without_a_source() {
    let (mut wizard, _) = create(None);
    assert!(!wizard.can_advance());
    wizard.update(Message::Next, 0);
    assert_eq!(wizard.step, Step::What);

    wizard.update(Message::SourcesChosen(vec!["/data".into()]), 0);
    assert!(wizard.can_advance());
}

/// Choose a folder in the "where" step and deliver its probe result.
fn place_folder(wizard: &mut Wizard, path: &str, probe: Result<Probe, EngineError>) {
    wizard.update(Message::Place(place::Message::FolderChosen(path.into())), 0);
    let destination = wizard.place.destination().expect("a folder was chosen");
    wizard.update(Message::Place(place::Message::Probed(destination, probe)), 0);
}

#[test]
fn mod_not_empty_location_blocks_next() {
    let (mut wizard, _) = create(Some("/home/dave"));
    let effects = wizard.update(Message::Next, 0);
    assert_eq!(wizard.step, Step::Where);
    assert!(
        effects
            .iter()
            .any(|e| matches!(e, Effect::Place(place::Effect::ListDrives))),
        "entering the step looks for drives"
    );

    place_folder(&mut wizard, "/home/dave", Ok(Probe::NotEmpty));
    assert!(!wizard.can_advance(), "a folder of other files is refused");

    place_folder(&mut wizard, "/srv/backups/laptop", Ok(Probe::Empty));
    assert!(wizard.can_advance());
    assert_eq!(wizard.name, "laptop", "the name follows the place chosen");
}

#[test]
fn the_suggested_name_follows_typing_until_a_name_is_typed() {
    let (mut wizard, _) = create(Some("/home/alex"));
    wizard.update(Message::Next, 0);
    wizard.update(Message::Place(place::Message::Kind(place::Kind::Server)), 0);
    for host in ["n", "na", "nas.local"] {
        wizard.update(Message::Place(place::Message::Host(host.into())), 0);
    }
    assert_eq!(wizard.name, "nas.local", "not frozen at the first letter");

    wizard.update(Message::Name("Home to the NAS".into()), 0);
    wizard.update(Message::Place(place::Message::Host("nas2.local".into())), 0);
    assert_eq!(wizard.name, "Home to the NAS", "a typed name is kept");
}

#[test]
fn mod_a_stale_probe_result_is_ignored() {
    let (mut wizard, _) = create(Some("/home/dave"));
    wizard.update(Message::Place(place::Message::FolderChosen("/b".into())), 0);
    wizard.update(
        Message::Place(place::Message::Probed(
            Destination::Local { path: "/a".into() },
            Ok(Probe::Empty),
        )),
        0,
    );
    assert!(wizard.place.probe().is_none());
}

#[test]
fn wizard_a_stale_probe_result_is_ignored() {
    let (mut wizard, _) = create(Some("/home/dave"));
    wizard.update(Message::Place(place::Message::FolderChosen("/b".into())), 0);
    wizard.update(
        Message::Place(place::Message::Probed(
            Destination::Local { path: "/a".into() },
            Ok(Probe::Empty),
        )),
        0,
    );
    assert!(wizard.place.probe().is_none());
}

#[test]
fn mod_create_needs_matching_passwords() {
    let (mut wizard, _) = create(Some("/home/dave"));
    wizard.update(Message::Next, 0);
    place_folder(&mut wizard, "/srv/backups/laptop", Ok(Probe::Empty));
    wizard.update(Message::Next, 0);
    assert_eq!(wizard.step, Step::When);
    wizard.update(Message::Next, 0);
    assert_eq!(wizard.step, Step::Secure);

    wizard.update(Message::Password("secret".into()), 0);
    wizard.update(Message::Confirm("secrte".into()), 0);
    assert!(!wizard.can_advance());

    wizard.update(Message::Confirm("secret".into()), 0);
    let effects = wizard.update(Message::Next, 0);
    let finish = finish_effect(&effects).expect("finishing");
    assert_eq!(finish.mode, Mode::Create);
    assert_eq!(finish.secret.as_deref(), Some("secret"));
    assert!(finish.remember, "remembering is on by default");
    assert_eq!(
        finish.profile.destination,
        Destination::Local {
            path: "/srv/backups/laptop".into()
        }
    );
    assert!(wizard.busy());
}

#[test]
fn wizard_create_needs_matching_passwords() {
    let (mut wizard, _) = create(Some("/home/dave"));
    wizard.update(Message::Next, 0);
    place_folder(&mut wizard, "/media/usb/backup", Ok(Probe::Empty));
    wizard.update(Message::Next, 0);
    wizard.update(Message::Next, 0);
    assert_eq!(wizard.step, Step::Secure);

    wizard.update(Message::Password("secret".into()), 0);
    wizard.update(Message::Confirm("secrte".into()), 0);
    assert!(!wizard.can_advance());

    wizard.update(Message::Confirm("secret".into()), 0);
    let effects = wizard.update(Message::Next, 0);
    let finish = finish_effect(&effects).expect("finishing");
    assert_eq!(finish.mode, Mode::Create);
    assert_eq!(finish.secret.as_deref(), Some("secret"));
    assert!(finish.remember, "remembering is on by default");
    assert!(wizard.busy());
}

#[test]
fn mod_open_needs_an_existing_repository() {
    let (mut wizard, effects) = Wizard::open(&names());
    assert_eq!(wizard.step, Step::Where);
    assert!(!effects.is_empty(), "opening looks for drives and rclone");
    place_folder(&mut wizard, "/srv/backups/laptop", Ok(Probe::Empty));
    assert!(
        !wizard.can_advance(),
        "an empty folder holds nothing to open"
    );

    place_folder(&mut wizard, "/srv/backups/laptop", Ok(Probe::Repository));
    assert!(wizard.can_advance());
}

#[test]
fn wizard_open_needs_an_existing_repository() {
    let (mut wizard, _) = Wizard::open(&names());
    assert_eq!(wizard.step, Step::Where);
    place_folder(&mut wizard, "/media/usb/backup", Ok(Probe::Empty));
    assert!(
        !wizard.can_advance(),
        "an empty folder holds nothing to open"
    );

    place_folder(&mut wizard, "/media/usb/backup", Ok(Probe::Repository));
    assert!(wizard.can_advance());
}

#[test]
fn an_unreachable_destination_is_checked_again_by_next() {
    let (mut wizard, _) = Wizard::open(&names());
    place_folder(
        &mut wizard,
        "/gone",
        Err(EngineError::new(ErrorKind::DestinationUnavailable, "/gone".into())),
    );
    assert!(wizard.can_advance(), "Next tries again");

    let effects = wizard.update(Message::Next, 0);
    assert!(
        matches!(effects.as_slice(), [Effect::Place(place::Effect::Probe(_))]),
        "Next checks again rather than moving on"
    );
    assert_eq!(wizard.step, Step::Where);
    assert!(!wizard.can_advance(), "not while the check runs");
    let destination = wizard.place.destination().unwrap();
    wizard.update(
        Message::Place(place::Message::Probed(
            destination,
            Err(EngineError::new(ErrorKind::TimedOut, "60".into())),
        )),
        0,
    );
    assert_eq!(wizard.step, Step::Where, "a failed check stays put");
}

/// Fill in an SFTP destination, which is not checked until asked.
fn describe_server(wizard: &mut Wizard) {
    for message in [
        place::Message::Kind(place::Kind::Server),
        place::Message::Host("nas.local".into()),
        place::Message::ServerPath("backups/laptop".into()),
    ] {
        wizard.update(Message::Place(message), 0);
    }
}

#[test]
fn one_press_of_next_checks_the_destination_and_moves_on() {
    let (mut wizard, _) = create(Some("/home/alex"));
    wizard.update(Message::Next, 0);
    describe_server(&mut wizard);
    assert!(wizard.place.probe().is_none(), "not checked yet");
    assert!(wizard.can_advance(), "Next can be pressed straight away");

    let effects = wizard.update(Message::Next, 0);
    assert!(matches!(
        effects.as_slice(),
        [Effect::Place(place::Effect::Probe(_))]
    ));
    assert!(wizard.waiting(), "the check shows its running time");
    assert!(
        !wizard.can_advance(),
        "a second press does not start another"
    );

    let destination = wizard.place.destination().unwrap();
    wizard.update(
        Message::Place(place::Message::Probed(destination, Ok(Probe::Empty))),
        0,
    );
    assert_eq!(wizard.step, Step::When, "moved on without another press");
    assert!(!wizard.waiting());
}

#[test]
fn a_check_that_finds_other_files_does_not_move_on() {
    let (mut wizard, _) = create(Some("/home/alex"));
    wizard.update(Message::Next, 0);
    describe_server(&mut wizard);
    wizard.update(Message::Next, 0);
    let destination = wizard.place.destination().unwrap();
    wizard.update(
        Message::Place(place::Message::Probed(destination, Ok(Probe::NotEmpty))),
        0,
    );
    assert_eq!(wizard.step, Step::Where);
    assert!(!wizard.can_advance());
}

#[test]
fn a_check_for_an_edited_destination_does_not_move_on() {
    let (mut wizard, _) = create(Some("/home/alex"));
    wizard.update(Message::Next, 0);
    describe_server(&mut wizard);
    wizard.update(Message::Next, 0);
    let checked = wizard.place.destination().unwrap();
    wizard.update(
        Message::Place(place::Message::ServerPath("backups/other".into())),
        0,
    );
    wizard.update(
        Message::Place(place::Message::Probed(checked, Ok(Probe::Empty))),
        0,
    );
    assert_eq!(wizard.step, Step::Where, "the new path is still unchecked");
}

fn home_profile() -> Profile {
    let mut profile = Profile::new(
        "generated".into(),
        "Home".into(),
        Destination::Local {
            path: "/media/usb/backup".into(),
        },
        vec!["/home/dave".into()],
    );
    profile.id = "keep-me".into();
    profile
}

#[test]
fn mod_editing_keeps_the_profile_id_and_needs_no_password() {
    let profile = home_profile();
    let (mut wizard, _) = Wizard::edit(&profile, &names());

    let effects = wizard.update(Message::Next, 0);

    let finish = finish_effect(&effects).expect("saving");
    assert_eq!(finish.profile.id, "keep-me");
    assert!(finish.secret.is_none());
    assert_eq!(
        finish.profile.destination, profile.destination,
        "the destination is kept"
    );
}

#[test]
fn wizard_editing_keeps_the_profile_id_and_needs_no_password() {
    let profile = home_profile();
    let (mut wizard, _) = Wizard::edit(&profile, &names());

    let effects = wizard.update(Message::Next, 0);

    let finish = finish_effect(&effects).expect("saving");
    assert_eq!(finish.profile.id, "keep-me");
    assert!(finish.secret.is_none());
}

#[test]
fn a_dejadup_import_keeps_its_folders_but_asks_for_the_password() {
    let import = Import {
        sources: vec!["/home/alex".into()],
        excludes: vec!["/home/alex/.cache".into()],
        place: DejaDupPlace::Drive {
            uuid: "1111-AAAA".into(),
            folder: "laptop".into(),
            label: "Backup".into(),
        },
        other_format: false,
        schedule: Schedule::Weekly,
        retention: Retention::KeepFor { days: 182 },
    };
    let (mut wizard, _) = Wizard::import(&import, &names(), 0);
    assert_eq!(wizard.mode, Mode::Open);
    assert!(wizard.password.is_empty(), "the password is never imported");
    assert_eq!(wizard.schedule, Schedule::Weekly, "Déjà Dup's schedule");
    assert_eq!(wizard.retention, Retention::KeepFor { days: 182 });

    // The drive with the recorded UUID is selected once drives are known.
    wizard.update(
        Message::Place(place::Message::DrivesListed(vec![
            Drive {
                uuid: "other".into(),
                label: "Other".into(),
                mount_point: "/media/alex/Other".into(),
            },
            Drive {
                uuid: "1111-AAAA".into(),
                label: "Backup".into(),
                mount_point: "/media/alex/Backup".into(),
            },
        ])),
        0,
    );
    match wizard.place.destination().unwrap() {
        Destination::Removable {
            uuid,
            relative_path,
            ..
        } => {
            assert_eq!(uuid, "1111-AAAA");
            assert_eq!(relative_path, "laptop");
        }
        other => panic!("expected the drive, got {other:?}"),
    }

    let destination = wizard.place.destination().unwrap();
    wizard.update(
        Message::Place(place::Message::Probed(destination, Ok(Probe::Repository))),
        0,
    );
    wizard.update(Message::Next, 0);
    assert_eq!(wizard.step, Step::When);
    wizard.update(Message::Next, 0);
    wizard.update(Message::Password("typed by the user".into()), 0);
    let effects = wizard.update(Message::Next, 0);
    let finish = finish_effect(&effects).expect("finishing");
    assert_eq!(finish.profile.schedule, Schedule::Weekly);
    assert_eq!(finish.profile.retention, Retention::KeepFor { days: 182 });
    assert_eq!(finish.profile.excludes, vec!["/home/alex/.cache".to_string()]);
}

fn stale_estimate_is_ignored() {
    let (mut wizard, _) = create(Some("/home/dave"));
    let old = wizard.estimate.generation;
    wizard.update(Message::SourcesChosen(vec!["/data".into()]), 0);

    let stale = SizeEstimate {
        files: 1,
        bytes: 1,
        per_source: vec![1],
    };
    wizard.update(Message::Estimate(old, EstimateEvent::Done(stale)), 0);

    assert!(wizard.estimate.total.is_none());
    assert!(wizard.estimate.running);
}

#[test]
fn mod_estimates_from_an_older_generation_are_ignored() {
    stale_estimate_is_ignored();
}

#[test]
fn wizard_estimates_from_an_older_generation_are_ignored() {
    stale_estimate_is_ignored();
}

#[test]
fn mod_excludes_outside_every_source_do_not_apply() {
    let (wizard, _) = create(Some("/home/dave"));
    assert!(wizard.exclude_applies("/home/dave/.cache"));
    assert!(!wizard.exclude_applies("/var/tmp"));
}

#[test]
fn wizard_excludes_outside_every_source_do_not_apply() {
    let (wizard, _) = create(Some("/home/dave"));
    assert!(wizard.exclude_applies("/home/dave/.cache"));
    assert!(!wizard.exclude_applies("/var/tmp"));
}

fn scheduled_profile() -> Profile {
    let mut profile = Profile::new(
        "scheduled".into(),
        "Home".into(),
        Destination::Local {
            path: "/mnt/backup/home".into(),
        },
        vec!["/home/alex".into()],
    );
    profile.excludes = vec!["/home/alex/.cache".into()];
    profile.schedule = Schedule::Daily;
    profile.retention = Retention::Smart;
    profile.last_success = Some(42);
    profile
}

#[test]
fn a_new_backup_runs_daily_and_keeps_a_smart_history() {
    let (wizard, _) = create(Some("/home/alex"));
    assert_eq!(wizard.schedule, Schedule::Daily);
    assert_eq!(wizard.retention, Retention::Smart);
    assert_eq!(
        wizard.prune, None,
        "the destination decides until the user does"
    );
}

#[test]
fn editing_the_schedule_changes_nothing_else() {
    let profile = scheduled_profile();
    let (mut wizard, _) = Wizard::schedule(&profile, &names());
    assert_eq!(wizard.step, Step::When);

    wizard.update(Message::Automatic(false), 0);
    let forever = keep_choices()
        .iter()
        .position(|r| *r == Retention::KeepForever)
        .unwrap();
    wizard.update(Message::Keep(forever), 0);
    let effects = wizard.update(Message::Next, 0);

    let finish = finish_effect(&effects).expect("saving finishes");
    assert!(finish.secret.is_none(), "the repository is not touched");
    let saved = &finish.profile;
    assert_eq!(saved.schedule, Schedule::Manual);
    assert_eq!(saved.retention, Retention::KeepForever);
    assert_eq!(
        (
            &saved.id,
            &saved.name,
            &saved.sources,
            &saved.excludes,
            &saved.destination
        ),
        (
            &profile.id,
            &profile.name,
            &profile.sources,
            &profile.excludes,
            &profile.destination
        )
    );
    assert_eq!(saved.last_success, Some(42));
}

#[test]
fn editing_the_folders_keeps_the_schedule() {
    let profile = scheduled_profile();
    let (mut wizard, _) = Wizard::edit(&profile, &names());
    wizard.update(Message::SourcesChosen(vec!["/srv/projects".into()]), 0);
    let effects = wizard.update(Message::Next, 0);

    let saved = &finish_effect(&effects).expect("saving finishes").profile;
    assert_eq!(saved.sources.len(), 2);
    assert_eq!(saved.schedule, Schedule::Daily);
    assert_eq!(saved.retention, Retention::Smart);
}

#[test]
fn turning_automatic_backups_back_on_restores_the_frequency() {
    let (mut wizard, _) = Wizard::schedule(&scheduled_profile(), &names());
    wizard.update(Message::Frequency(2), 0);
    assert_eq!(wizard.schedule, Schedule::Weekly);
    wizard.update(Message::Automatic(false), 0);
    assert_eq!(wizard.schedule, Schedule::Manual);
    wizard.update(Message::Automatic(true), 0);
    assert_eq!(wizard.schedule, Schedule::Weekly);
}

#[test]
fn freeing_space_follows_the_destination_until_chosen() {
    let (mut wizard, _) = Wizard::schedule(&scheduled_profile(), &names());
    assert!(
        wizard.prune_enabled(),
        "a local folder frees space by default"
    );
    wizard.update(Message::Prune(false), 0);
    assert!(!wizard.prune_enabled());
}

#[test]
fn a_new_profile_gets_a_fresh_identifier_and_the_trimmed_name() {
    let (mut wizard, _) = create(Some("/home/dave"));
    wizard.update(Message::Next, 0);
    place_folder(&mut wizard, "/srv/backups/laptop", Ok(Probe::Empty));
    wizard.update(Message::Name("  Laptop  ".into()), 0);
    wizard.update(Message::Next, 0);
    wizard.update(Message::Next, 0);
    wizard.update(Message::Password("pw".into()), 0);
    wizard.update(Message::Confirm("pw".into()), 0);
    let effects = wizard.update(Message::Next, 0);
    let finish = finish_effect(&effects).expect("finishing");
    assert_eq!(finish.profile.name, "Laptop");
    assert_eq!(finish.profile.id.len(), 32);
    assert!(finish
        .profile
        .id
        .chars()
        .all(|c| c.is_ascii_digit() || ('a'..='f').contains(&c)));
}

#[test]
fn back_returns_to_the_previous_step_and_not_before_the_first() {
    let (mut wizard, _) = create(Some("/home/dave"));
    wizard.update(Message::Back, 0);
    assert_eq!(wizard.step, Step::What);
    wizard.update(Message::Next, 0);
    assert_eq!(wizard.step, Step::Where);
    wizard.update(Message::Back, 0);
    assert_eq!(wizard.step, Step::What);
}

#[test]
fn patterns_are_trimmed_and_added_once() {
    let (mut wizard, _) = create(Some("/home/dave"));
    wizard.update(Message::PatternInput("  *.iso ".into()), 0);
    let effects = wizard.update(Message::AddPattern, 0);
    assert!(matches!(effects.as_slice(), [Effect::Estimate { .. }]));
    assert_eq!(wizard.patterns, vec!["*.iso".to_string()]);
    assert!(wizard.pattern_input.is_empty());
    wizard.update(Message::PatternInput("*.iso".into()), 0);
    assert!(wizard.update(Message::AddPattern, 0).is_empty());
    assert_eq!(wizard.patterns.len(), 1);
}

#[test]
fn a_breakdown_pairs_each_folder_with_its_size() {
    let (mut wizard, _) = create(Some("/home/dave"));
    let generation = wizard.estimate.generation;
    wizard.update(
        Message::Estimate(
            generation,
            EstimateEvent::Breakdown(
                vec!["/home/dave/.cache".into(), "/home/dave/Downloads".into()],
                stellarshot::engine::ExclusionBreakdown {
                    included: 1000,
                    per_folder: vec![300, 200],
                },
            ),
        ),
        0,
    );
    assert!(!wizard.estimate.running);
    assert_eq!(
        wizard.estimate.exclude_sizes,
        vec![
            ("/home/dave/.cache".to_string(), 300),
            ("/home/dave/Downloads".to_string(), 200)
        ]
    );
}

#[test]
fn the_estimate_covers_only_excludes_inside_a_source() {
    let (mut wizard, _) = create(Some("/home/dave"));
    let effects = wizard.update(Message::ExcludesChosen(vec!["/var/tmp".into()]), 0);
    match effects.as_slice() {
        [Effect::Estimate {
            generation,
            exclude_folders,
            request,
        }] => {
            assert_eq!(*generation, 2);
            assert_eq!(exclude_folders.len(), 3, "/var/tmp is outside /home/dave");
            assert_eq!(request.excludes.len(), 4);
        }
        _ => panic!("expected an estimate"),
    }
}

#[test]
fn finishing_without_error_stops_the_estimate_and_closes() {
    let (mut wizard, _) = create(Some("/home/dave"));
    let effects = wizard.update(Message::Finished(Ok(())), 0);
    assert!(matches!(
        effects.as_slice(),
        [Effect::CancelEstimate, Effect::Close]
    ));
    assert!(wizard
        .update(
            Message::Finished(Err(EngineError::new(ErrorKind::Io, "disk".into()))),
            0
        )
        .is_empty());
    assert!(matches!(wizard.discard().as_slice(), [Effect::CancelEstimate]));
}

#[test]
fn keep_labels_add_a_period_the_list_lacks() {
    let (mut wizard, _) = create(Some("/home/dave"));
    assert_eq!(wizard.keep_labels().len(), 5);
    wizard.retention = Retention::KeepFor { days: 30 };
    let labels = wizard.keep_labels();
    assert_eq!(labels.len(), 6);
    assert_eq!(labels[5].id, "keep-days");
}

#[test]
fn a_folder_written_with_a_trailing_slash_is_not_added_twice() {
    let (mut wizard, _) = create(None);
    wizard.update(Message::SourcesChosen(vec!["/data".into()]), 0);
    wizard.update(Message::SourcesChosen(vec!["/data/".into(), "/srv".into()]), 0);
    assert_eq!(wizard.sources, vec!["/data".to_string(), "/srv".to_string()]);
    wizard.update(Message::ExcludesChosen(vec!["/data/cache".into()]), 0);
    wizard.update(Message::ExcludesChosen(vec!["/data//cache/".into()]), 0);
    assert_eq!(wizard.excludes, vec!["/data/cache".to_string()]);
}

#[test]
fn toggling_exclude_caches_or_gitignore_restarts_the_estimate() {
    let (mut wizard, _) = create(Some("/home/dave"));
    let generation = wizard.estimate.generation;
    let effects = wizard.update(Message::ExcludeCaches(true), 0);
    match effects.as_slice() {
        [Effect::Estimate { generation: g, request, .. }] => {
            assert_eq!(*g, generation + 1);
            assert!(request.exclude_caches);
            assert!(!request.git_ignore);
        }
        other => panic!("expected one estimate, got {}", other.len()),
    }
    let effects = wizard.update(Message::GitIgnore(true), 0);
    match effects.as_slice() {
        [Effect::Estimate { generation: g, request, .. }] => {
            assert_eq!(*g, generation + 2);
            assert!(request.exclude_caches);
            assert!(request.git_ignore);
        }
        other => panic!("expected one estimate, got {}", other.len()),
    }
    assert_eq!(wizard.estimate.generation, generation + 2);
}

#[test]
fn folders_chosen_together_are_listed_once() {
    let (mut wizard, _) = create(None);
    wizard.update(
        Message::SourcesChosen(vec!["/a".into(), "/b".into(), "/a/".into(), "/a/./".into()]),
        0,
    );
    assert_eq!(wizard.sources, vec!["/a".to_string(), "/b".to_string()]);
}

#[test]
fn automatic_backups_come_back_on_the_profile_schedule() {
    let mut profile = scheduled_profile();
    profile.schedule = Schedule::OnConnect;
    let (mut wizard, _) = Wizard::schedule(&profile, &names());
    assert_eq!(wizard.schedule, Schedule::OnConnect);
    assert_eq!(wizard.frequency, Schedule::OnConnect);
    wizard.update(Message::Automatic(false), 0);
    assert_eq!(wizard.schedule, Schedule::Manual);
    wizard.update(Message::Automatic(true), 0);
    assert_eq!(wizard.schedule, Schedule::OnConnect);

    profile.schedule = Schedule::Manual;
    let (mut wizard, _) = Wizard::schedule(&profile, &names());
    assert_eq!(wizard.schedule, Schedule::Manual);
    wizard.update(Message::Automatic(true), 0);
    assert_eq!(wizard.schedule, Schedule::Daily, "a manual backup turns on daily");
}
