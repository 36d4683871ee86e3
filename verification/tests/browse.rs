use stellarshot::engine::DiskEntry;
use stellarshot::wizard::browse::{mark_of, Browse, Effect, Mark, Message};

fn entry(path: &str, is_dir: bool, size: u64) -> DiskEntry {
    DiskEntry {
        name: path.rsplit('/').next().unwrap().to_string(),
        path: path.to_string(),
        is_dir,
        size,
    }
}

#[test]
fn opening_lists_the_root() {
    let mut browse = Browse::new();
    let effects = browse.update(Message::Open("/home/alex".into()));
    assert!(matches!(effects.as_slice(), [Effect::List(path)] if path == "/home/alex"));
    assert!(browse.is_open());
    assert_eq!(browse.root(), Some("/home/alex"));
}

#[test]
fn toggling_an_unlisted_folder_requests_its_children() {
    let mut browse = Browse::new();
    browse.update(Message::Open("/home/alex".into()));
    browse.update(Message::Listed(
        "/home/alex".into(),
        vec![entry("/home/alex/Documents", true, 100)],
    ));

    let effects = browse.update(Message::Toggle("/home/alex/Documents".into()));

    assert!(matches!(
        effects.as_slice(),
        [Effect::List(path)] if path == "/home/alex/Documents"
    ));
}

#[test]
fn toggling_an_expanded_folder_collapses_it_without_a_new_request() {
    let mut browse = Browse::new();
    browse.update(Message::Open("/home/alex".into()));
    browse.update(Message::Listed("/home/alex".into(), vec![]));

    let effects = browse.update(Message::Toggle("/home/alex".into()));

    assert!(effects.is_empty());
    assert!(browse.node("/home/alex").unwrap().children.is_none());
}

#[test]
fn excluded_bytes_sums_every_known_excluded_descendant() {
    let mut browse = Browse::new();
    browse.update(Message::Open("/home/alex".into()));
    browse.update(Message::Listed(
        "/home/alex".into(),
        vec![
            entry("/home/alex/Documents", true, 1000),
            entry("/home/alex/.cache", true, 300),
        ],
    ));

    let excludes = ["/home/alex/.cache".to_string()];

    assert_eq!(
        browse.excluded_bytes("/home/alex", &excludes),
        300,
        "a folder right under the root is sized the moment the root is opened"
    );
    assert_eq!(
        browse.excluded_bytes("/home/alex/Documents", &excludes),
        0,
        "nothing excluded under this one"
    );
}

#[test]
fn excluded_bytes_is_zero_for_an_exclude_never_sized_this_session() {
    let mut browse = Browse::new();
    browse.update(Message::Open("/home/alex".into()));
    browse.update(Message::Listed("/home/alex".into(), vec![]));

    // Deep enough that opening the root alone never loaded it.
    let excludes = ["/home/alex/Projects/target".to_string()];

    assert_eq!(
        browse.excluded_bytes("/home/alex", &excludes),
        0,
        "undercounts rather than guesses at a size it never actually read"
    );
}

#[test]
fn marking_bubbles_up_rather_than_being_applied_here() {
    let mut browse = Browse::new();
    let effects = browse.update(Message::Mark("/home/alex/.cache".into(), true));
    assert!(matches!(
        effects.as_slice(),
        [Effect::SetExcluded(path, true)] if path == "/home/alex/.cache"
    ));
}

#[test]
fn mark_of_a_plain_folder_is_included() {
    assert_eq!(mark_of("/home/alex/Documents", &[]), Mark::Included);
}

#[test]
fn mark_of_a_listed_exclude_is_excluded() {
    let excludes = ["/home/alex/.cache".to_string()];
    assert_eq!(mark_of("/home/alex/.cache", &excludes), Mark::Excluded);
}

#[test]
fn mark_of_an_ancestor_of_an_exclude_is_partial() {
    let excludes = ["/home/alex/Projects/target".to_string()];
    assert_eq!(mark_of("/home/alex/Projects", &excludes), Mark::Partial);
    assert_eq!(mark_of("/home/alex", &excludes), Mark::Partial);
}

#[test]
fn mark_of_an_unrelated_folder_is_included() {
    let excludes = ["/home/alex/.cache".to_string()];
    assert_eq!(mark_of("/home/alex/Documents", &excludes), Mark::Included);
}

#[test]
fn paths_match_component_by_component() {
    let excludes = ["/home/alex/.cache/".to_string()];
    assert_eq!(mark_of("/home/alex//.cache", &excludes), Mark::Excluded);
}

#[test]
fn a_listing_of_a_listed_folder_replaces_its_entry() {
    let mut browse = Browse::new();
    browse.update(Message::Open("/home/alex".into()));
    browse.update(Message::Progress("/home/alex".into(), 7));
    assert_eq!(browse.node("/home/alex").unwrap().scanned, 7);
    browse.update(Message::Listed(
        "/home/alex".into(),
        vec![entry("/home/alex/Music", true, 50)],
    ));
    browse.update(Message::Listed(
        "/home/alex".into(),
        vec![entry("/home/alex/Music", true, 60)],
    ));
    assert_eq!(browse.nodes.len(), 2);
    assert_eq!(browse.node("/home/alex/Music").unwrap().size, Some(60));
    browse.update(Message::Failed("/home/alex/Music".into(), "denied".into()));
    assert_eq!(
        browse.node("/home/alex/Music").unwrap().failed.as_deref(),
        Some("denied")
    );
    browse.update(Message::Close);
    assert!(!browse.is_open());
}

#[test]
fn a_folder_shows_what_the_backup_would_store_and_its_full_size() {
    let mut browse = Browse::new();
    browse.update(Message::Open("/home/alex".into()));
    browse.update(Message::Listed(
        "/home/alex".into(),
        vec![
            entry("/home/alex/Documents", true, 1000),
            entry("/home/alex/notes.txt", false, 7),
        ],
    ));
    browse.update(Message::Toggle("/home/alex/Documents".into()));
    browse.update(Message::Listed(
        "/home/alex/Documents".into(),
        vec![entry("/home/alex/Documents/big", true, 400)],
    ));
    let excludes = vec!["/home/alex/Documents/big".to_string()];

    assert_eq!(
        browse.shown_size("/home/alex/Documents", &excludes),
        Some((600, Some(1000)))
    );
    assert_eq!(browse.shown_size("/home/alex/notes.txt", &excludes), Some((7, None)));
    assert_eq!(
        browse.shown_size("/home/alex/Documents", &[]),
        Some((1000, None)),
        "nothing excluded, nothing taken off"
    );
    assert_eq!(browse.shown_size("/nowhere", &excludes), None);
}
