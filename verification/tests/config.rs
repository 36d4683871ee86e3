use stellarshot::config::{nav_choice, StellarshotConfig};
use stellarshot::profile::{Destination, Profile};

fn profile(id: &str, name: &str) -> Profile {
    Profile::new(
        id.into(),
        name.into(),
        Destination::Local {
            path: "/backups".into(),
        },
        vec!["/home/alex".into()],
    )
}

#[test]
fn a_saved_profile_replaces_the_one_with_its_id_or_is_added() {
    let mut config = StellarshotConfig::default();
    config.upsert_profile(profile("a", "Home"));
    config.upsert_profile(profile("b", "Work"));
    config.upsert_profile(profile("a", "Home renamed"));
    let names: Vec<&str> = config.profiles.iter().map(|p| p.name.as_str()).collect();
    assert_eq!(names, vec!["Home renamed", "Work"]);
}

#[test]
fn removing_a_profile_keeps_the_others_in_order() {
    let mut config = StellarshotConfig::default();
    for (id, name) in [("a", "A"), ("b", "B"), ("c", "C")] {
        config.upsert_profile(profile(id, name));
    }
    config.remove_profile("b");
    let ids: Vec<&str> = config.profiles.iter().map(|p| p.id.as_str()).collect();
    assert_eq!(ids, vec!["a", "c"]);
    config.remove_profile("missing");
    assert_eq!(config.profiles.len(), 2);
    assert!(config.profile("b").is_none());
}

#[test]
fn the_sidebar_keeps_the_selection_while_it_exists() {
    let profiles = vec![profile("a", "A"), profile("b", "B")];
    assert_eq!(nav_choice(&profiles, Some("b")), Some(1));
    assert_eq!(nav_choice(&profiles, Some("gone")), Some(0), "else the first");
    assert_eq!(nav_choice(&profiles, None), Some(0));
    assert_eq!(nav_choice(&[], Some("a")), None);
}
