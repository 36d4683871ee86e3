use stellarshot::dejadup::{import, sftp, with_hostname, Place, UserDirs};
use stellarshot::gsettings::{parse, string, string_array};
use stellarshot::profile::{Retention, Schedule};

const FLATPAK: &str = r#"[org/gnome/deja-dup]
periodic-timestamp='2026-09-22T22:59:29.766968-05'
backend='google'
periodic-period=7
delete-after=0
window-height=997
exclude-list=['$TRASH', '$DOWNLOAD', '/home/alex/Projects', '/home/alex/.cache', '/home/alex/.cargo']
last-backup='2026-09-23T11:16:00.299886-05'

[org/gnome/deja-dup/google]
folder='laptop-backup'

[org/gnome/deja-dup/local]
folder='laptop'
"#;

const DCONF: &str = r#"[/]
backend='drive'
include-list=['$HOME', '/srv/projects']
exclude-list=@as []
tool='restic'

[drive]
uuid='1111-AAAA'
folder='$HOSTNAME'
name='Backup SSD'
"#;

const HOST: &str = "laptop";

fn home() -> String {
    "/home/alex".to_owned()
}

fn dirs() -> UserDirs {
    UserDirs::parse(
        &home(),
        "XDG_DOWNLOAD_DIR=\"$HOME/Téléchargements\"\nXDG_PICTURES_DIR=\"$HOME/Pictures\"\n",
    )
}

#[test]
fn a_flatpak_keyfile_imports() {
    let import = import(&parse(FLATPAK), &dirs(), HOST);
    assert_eq!(import.place, Place::Google { folder: "laptop-backup".into() });
    assert!(import.excludes.contains(&"/home/alex/.cargo".to_owned()));
    assert!(!import.other_format, "an unset tool is decided by probing");
}

#[test]
fn schedule_and_keep_come_across() {
    let defaults = import(&parse(FLATPAK), &dirs(), HOST);
    assert_eq!(
        defaults.schedule,
        Schedule::Manual,
        "`periodic` defaults to false in Déjà Dup's schema"
    );
    assert_eq!(defaults.retention, Retention::KeepForever, "0 means forever");

    let daily = import(
        &parse("[/]\nperiodic=true\nperiodic-period=1\ndelete-after=182\n"),
        &dirs(),
        HOST,
    );
    assert_eq!(daily.schedule, Schedule::Daily);
    assert_eq!(daily.retention, Retention::KeepFor { days: 182 });

    let weekly = import(&parse("[/]\nperiodic=true\n"), &dirs(), HOST);
    assert_eq!(weekly.schedule, Schedule::Weekly, "every 7 days by default");
}

#[test]
fn missing_keys_take_the_schema_defaults() {
    let import = import(&parse(FLATPAK), &dirs(), HOST);
    assert_eq!(import.sources, vec![home()], "include-list defaults to $HOME");
    assert!(import.excludes.contains(&"/home/alex/.local/share/Trash".to_owned()));
}

#[test]
fn tokens_follow_the_users_own_folder_names() {
    let import = import(&parse(FLATPAK), &dirs(), HOST);
    assert!(
        import.excludes.contains(&"/home/alex/Téléchargements".to_owned()),
        "$DOWNLOAD comes from user-dirs.dirs, not a hard-coded English name"
    );
}

#[test]
fn a_dconf_dump_imports() {
    let import = import(&parse(DCONF), &dirs(), HOST);
    assert_eq!(import.sources, vec![home(), "/srv/projects".to_owned()]);
    assert!(import.excludes.is_empty(), "@as [] is an empty list");
    match import.place {
        Place::Drive { uuid, folder, label } => {
            assert_eq!(uuid, "1111-AAAA");
            assert_eq!(label, "Backup SSD");
            assert!(!folder.contains("$HOSTNAME"));
            assert_eq!(folder, "laptop");
        }
        other => panic!("expected a drive, got {other:?}"),
    }
}

#[test]
fn a_relative_local_folder_is_under_home() {
    let settings = parse(
        "[org/gnome/deja-dup]\nbackend='local'\n\n[org/gnome/deja-dup/local]\nfolder='laptop'\n",
    );
    assert_eq!(
        import(&settings, &dirs(), HOST).place,
        Place::Folder("/home/alex/laptop".to_owned())
    );
}

#[test]
fn sftp_uris_become_servers() {
    assert_eq!(
        sftp("sftp://alex@nas.local:2222/backups", "laptop"),
        Some(Place::Sftp {
            host: "nas.local".into(),
            user: "alex".into(),
            port: 2222,
            path: "backups/laptop".into(),
        })
    );
    assert_eq!(sftp("smb://nas/share", "x"), None, "other schemes are not SFTP");
}

#[test]
fn an_sftp_uri_without_user_or_port_uses_the_defaults() {
    assert_eq!(
        sftp("ssh://nas.local", "/laptop/"),
        Some(Place::Sftp {
            host: "nas.local".into(),
            user: "".into(),
            port: 22,
            path: "laptop".into(),
        })
    );
    assert_eq!(sftp("sftp://nas.local:port/x", "y"), None, "a port must be a number");
}

#[test]
fn other_formats_and_backends_are_flagged() {
    let duplicity = parse("[org/gnome/deja-dup]\ntool='duplicity'\nbackend='local'\n");
    assert!(import(&duplicity, &dirs(), HOST).other_format);

    let s3 = parse("[org/gnome/deja-dup]\nbackend='s3'\n");
    assert_eq!(import(&s3, &dirs(), HOST).place, Place::Unsupported("s3".into()));
}

#[test]
fn strings_unescape() {
    assert_eq!(string(r"'it\'s'"), Some("it's".into()));
    assert_eq!(
        string_array(r"['a b', 'c\'d']"),
        Some(vec!["a b".into(), "c'd".into()])
    );
}

#[test]
fn a_later_value_replaces_an_earlier_one() {
    let settings = parse("[/]\nbackend='local'\nbackend='google'\n[google]\nfolder='x'\n");
    assert_eq!(import(&settings, &dirs(), HOST).place, Place::Google { folder: "x".into() });
}

#[test]
fn lines_outside_deja_dups_sections_are_ignored() {
    let settings = parse("backend='google'\n[org/gnome/other]\nbackend='google'\n");
    assert!(settings.is_empty());
}

#[test]
fn the_hostname_fills_every_placeholder() {
    assert_eq!(with_hostname("$HOSTNAME/$HOSTNAME", "box"), "box/box");
    assert_eq!(with_hostname("plain", "box"), "plain");
}

#[test]
fn list_entries_resolve_against_home() {
    let d = dirs();
    assert_eq!(d.resolve("~/Music"), "/home/alex/Music");
    assert_eq!(d.resolve("Videos"), "/home/alex/Videos");
    assert_eq!(d.resolve("/srv"), "/srv");
    assert_eq!(d.resolve("$PICTURES/2024"), "/home/alex/Pictures/2024");
    assert_eq!(d.resolve("$VIDEOS"), "/home/alex/Videos");
}
