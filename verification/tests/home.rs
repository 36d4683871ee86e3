use stellarshot::home::{local_folders, storage_locations};
use stellarshot::profile::{Destination, Profile};

fn profile(name: &str, sources: Vec<&str>, destination: Destination) -> Profile {
    Profile::new(
        format!("id-{name}"),
        name.into(),
        destination,
        sources.into_iter().map(String::from).collect(),
    )
}

#[test]
fn a_folder_shared_by_two_backups_is_listed_once_naming_both() {
    let local = Destination::Local {
        path: "/backup/a".into(),
    };
    let profiles = [
        profile("Home", vec!["/home/alex", "/srv/shared"], local.clone()),
        profile("Projects", vec!["/srv/shared"], local),
    ];

    let folders = local_folders(&profiles);

    assert_eq!(folders.len(), 2, "two distinct folders, not three rows");
    let shared = folders
        .iter()
        .find(|(path, _)| path == "/srv/shared")
        .unwrap();
    assert_eq!(shared.1, vec!["Home".to_owned(), "Projects".to_owned()]);
}

#[test]
fn two_backups_to_the_same_place_share_one_location_row() {
    let same = Destination::Local {
        path: "/mnt/backup".into(),
    };
    let profiles = [
        profile("Home", vec!["/home/alex"], same.clone()),
        profile("Documents", vec!["/home/alex/Documents"], same),
        profile(
            "Elsewhere",
            vec!["/home/alex"],
            Destination::Local {
                path: "/mnt/other".into(),
            },
        ),
    ];

    let locations = storage_locations(&profiles);

    assert_eq!(locations.len(), 2);
    let shared = locations
        .iter()
        .find(|place| {
            place.destination
                == Destination::Local {
                    path: "/mnt/backup".into(),
                }
        })
        .unwrap();
    assert_eq!(
        shared.used_by,
        vec!["Home".to_owned(), "Documents".to_owned()]
    );
}

#[test]
fn folders_keep_the_order_they_first_come_in() {
    let d = Destination::Local {
        path: "/b".into(),
    };
    let profiles = [
        profile("A", vec!["/x", "/y"], d.clone()),
        profile("B", vec!["/y/", "/z"], d.clone()),
        profile("C", vec!["/x"], d),
    ];
    let folders = local_folders(&profiles);
    let paths: Vec<&str> = folders.iter().map(|(p, _)| p.as_str()).collect();
    assert_eq!(paths, vec!["/x", "/y", "/z"]);
    assert_eq!(folders[0].1, vec!["A".to_owned(), "C".to_owned()]);
    assert_eq!(
        folders[1].1,
        vec!["A".to_owned(), "B".to_owned()],
        "a trailing slash names the same folder"
    );
}

#[test]
fn no_backups_list_nothing() {
    assert!(local_folders(&[]).is_empty());
    assert!(storage_locations(&[]).is_empty());
}
