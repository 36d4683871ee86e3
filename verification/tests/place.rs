use stellarshot::drives::Drive;
use stellarshot::errors::{EngineError, ErrorKind, Probe};
use stellarshot::profile::Destination;
use stellarshot::wizard::place::{hostname, Effect, Kind, Message, Place};

fn place() -> Place {
    Place::new("laptop", "Google Drive")
}

fn drive() -> Drive {
    Drive {
        uuid: "1111-AAAA".into(),
        label: "Backup".into(),
        mount_point: "/media/alex/Backup".into(),
    }
}

#[test]
fn a_drive_destination_is_remembered_by_uuid() {
    let mut place = place();
    place.update(Message::Kind(Kind::Drive), 0);
    place.update(Message::DrivesListed(vec![drive()]), 0);
    let effects = place.update(Message::PickDrive(0), 0);

    assert!(matches!(effects.as_slice(), [Effect::Probe(_)]));
    match place.destination().unwrap() {
        Destination::Removable {
            uuid,
            relative_path,
            label,
        } => {
            assert_eq!(uuid, "1111-AAAA");
            assert_eq!(label, "Backup");
            assert!(relative_path.starts_with("Stellarshot"));
        }
        other => panic!("expected a removable destination, got {other:?}"),
    }
}

#[test]
fn a_probe_only_counts_for_the_destination_it_checked() {
    let mut place = place();
    place.update(Message::Kind(Kind::Server), 0);
    place.update(Message::Host("nas.local".into()), 0);
    place.update(Message::ServerPath("backups".into()), 0);
    let checked = place.destination().unwrap();
    place.update(Message::Probed(checked, Ok(Probe::Empty)), 0);
    assert!(place.probe().is_some());

    // Editing a field invalidates the check.
    place.update(Message::ServerPath("backups/laptop".into()), 0);
    assert!(place.probe().is_none());
}

#[test]
fn editing_during_a_check_does_not_leave_it_checking() {
    let mut place = place();
    place.update(Message::Kind(Kind::Server), 0);
    place.update(Message::Host("nas.local".into()), 0);
    place.update(Message::ServerPath("backups".into()), 0);
    let first = place.destination().unwrap();
    assert!(matches!(
        place.update(Message::Check, 0).as_slice(),
        [Effect::Probe(_)]
    ));
    assert!(place.checking_since().is_some());

    place.update(Message::ServerPath("backups/laptop".into()), 0);
    assert!(
        place.checking_since().is_none(),
        "the new path is not being checked"
    );
    place.update(Message::Probed(first, Ok(Probe::Empty)), 0);
    assert!(
        matches!(place.update(Message::Check, 0).as_slice(), [Effect::Probe(_)]),
        "the new path can be checked"
    );
}

#[test]
fn a_server_needs_a_host_a_path_and_a_valid_port() {
    let mut place = place();
    place.update(Message::Kind(Kind::Server), 0);
    place.update(Message::Host("nas.local".into()), 0);
    assert!(place.destination().is_none(), "no path yet");
    place.update(Message::ServerPath("backups".into()), 0);
    assert!(place.destination().is_some());
    place.update(Message::Port("not a port".into()), 0);
    assert!(place.destination().is_none());
}

#[test]
fn google_needs_a_sign_in_first() {
    let mut place = place();
    place.update(Message::Kind(Kind::Google), 0);
    assert!(place.destination().is_none());

    let effects = place.update(Message::SignIn, 0);
    let Some(Effect::SignIn { name, credentials }) = effects.first() else {
        panic!("expected a sign-in");
    };
    assert!(name.starts_with("stellarshot-"));
    assert_eq!(*credentials, None, "no custom credentials were given");
    assert!(
        place.update(Message::SignIn, 0).is_empty(),
        "one sign-in at a time"
    );

    place.update(Message::SignedIn(Ok(name.clone())), 0);
    match place.destination().unwrap() {
        Destination::Rclone { remote, path, .. } => {
            assert_eq!(&remote, name);
            assert!(path.starts_with("Stellarshot/"));
        }
        other => panic!("expected an rclone destination, got {other:?}"),
    }
}

#[test]
fn a_google_sign_in_carries_a_complete_pair_of_custom_credentials() {
    let mut place = place();
    place.update(Message::Kind(Kind::Google), 0);

    // Only one of the two given is not enough to use them: rclone needs
    // both or neither.
    place.update(Message::GoogleClientId("my-client-id".into()), 0);
    let effects = place.update(Message::SignIn, 0);
    let Some(Effect::SignIn { credentials, .. }) = effects.first() else {
        panic!("expected a sign-in");
    };
    assert_eq!(*credentials, None, "a client ID alone is not enough");

    place.signing_in = false;
    place.update(Message::GoogleClientSecret("my-client-secret".into()), 0);
    let effects = place.update(Message::SignIn, 0);
    let Some(Effect::SignIn { credentials, .. }) = effects.first() else {
        panic!("expected a sign-in");
    };
    assert_eq!(
        *credentials,
        Some(("my-client-id".into(), "my-client-secret".into()))
    );
}

#[test]
fn a_user_remote_is_used_through_stellarshots_own_copy() {
    let mut place = place();
    place.update(Message::Kind(Kind::Remote), 0);
    place.update(Message::RemotesListed(Ok(vec!["onedrive".into()])), 0);
    let effects = place.update(Message::PickRemote(0), 0);
    let Some(Effect::CopyRemote { from, to, .. }) = effects.first() else {
        panic!("expected a copy");
    };
    assert_eq!(from, "onedrive");
    assert!(place.destination().is_none(), "not usable until copied");

    place.update(Message::RemoteCopied(0, Ok(to.clone())), 0);
    match place.destination().unwrap() {
        Destination::Rclone {
            remote, provider, ..
        } => {
            assert_eq!(&remote, to, "never the user's own remote");
            assert_eq!(provider, "onedrive");
        }
        other => panic!("expected an rclone destination, got {other:?}"),
    }
}

#[test]
fn a_remote_name_is_twelve_letters_and_eight_hex_digits() {
    let mut place = place();
    place.update(Message::Kind(Kind::Google), 0);
    let effects = place.update(Message::SignIn, 0);
    let Some(Effect::SignIn { name, .. }) = effects.first() else {
        panic!("expected a sign-in");
    };
    assert_eq!(name.len(), 20);
    assert!(name[12..]
        .chars()
        .all(|c| c.is_ascii_digit() || ('a'..='f').contains(&c)));
}

#[test]
fn a_folder_on_a_listed_drive_is_kept_by_the_drives_uuid() {
    let mut place = place();
    place.update(Message::DrivesListed(vec![drive()]), 0);
    place.update(Message::FolderChosen("/media/alex/Backup/laptop".into()), 0);
    assert_eq!(
        place.destination(),
        Some(Destination::Removable {
            uuid: "1111-AAAA".into(),
            relative_path: "laptop".into(),
            label: "Backup".into(),
        })
    );
    place.update(Message::FolderChosen("/srv/backups".into()), 0);
    assert_eq!(
        place.destination(),
        Some(Destination::Local {
            path: "/srv/backups".into()
        })
    );
    assert_eq!(place.suggested_name().as_deref(), Some("backups"));
}

#[test]
fn the_defaults_name_the_machine() {
    let place = place();
    assert_eq!(place.drive_folder, "Stellarshot/laptop");
    assert_eq!(place.cloud_path, "Stellarshot/laptop");
    assert_eq!(place.port, "22");
    assert_eq!(hostname(Some(" nas \n")), "nas");
    assert_eq!(hostname(Some("  ")), "computer");
    assert_eq!(hostname(None), "computer");
}

#[test]
fn a_failed_sign_in_is_shown_until_the_next_message() {
    let mut place = place();
    place.update(Message::Kind(Kind::Google), 0);
    place.update(Message::SignIn, 0);
    place.update(
        Message::SignedIn(Err(EngineError::new(ErrorKind::AuthFailed, "denied".into()))),
        0,
    );
    assert_eq!(place.problem.as_deref(), Some("denied"));
    assert!(!place.signing_in);
    place.update(Message::CloudPath("x".into()), 0);
    assert_eq!(place.problem, None);
}

#[test]
fn a_check_records_when_it_began() {
    let mut place = place();
    place.update(Message::FolderChosen("/srv/backups".into()), 1234);
    assert_eq!(place.checking_since(), Some(1234));
    assert!(place.update(Message::Check, 2000).is_empty(), "already checking");
}

#[test]
fn a_probe_counts_for_the_same_folder_written_otherwise() {
    let mut place = place();
    place.update(Message::FolderChosen("/srv/backups".into()), 10);
    assert_eq!(place.checking_since(), Some(10));
    let other = Destination::Local {
        path: "/srv//backups/".into(),
    };
    place.update(Message::Probed(other, Ok(Probe::Empty)), 11);
    assert_eq!(place.checking_since(), None, "the check of that folder is over");
    assert!(matches!(place.probe(), Some(Ok(Probe::Empty))));
}

#[test]
fn destinations_compare_folders_as_paths() {
    let a = Destination::Local {
        path: "/mnt/backup".into(),
    };
    let b = Destination::Local {
        path: "/mnt/backup/".into(),
    };
    assert!(a.same_as(&b));
    assert!(!a.identical(&b));
    let drive = |path: &str| Destination::Removable {
        uuid: "1111-AAAA".into(),
        relative_path: path.into(),
        label: "Backup".into(),
    };
    assert!(drive("laptop").same_as(&drive("laptop/")));
    assert!(!drive("laptop").same_as(&drive("desktop")));
    let sftp = |path: &str| Destination::Sftp {
        host: "nas".into(),
        user: "alex".into(),
        port: 22,
        path: path.into(),
    };
    assert!(!sftp("backups").same_as(&sftp("backups/")), "a server path is text");
}
