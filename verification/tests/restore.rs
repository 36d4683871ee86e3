use stellarshot::engine::{
    Change, ChildEvent, ConflictPolicy, DiffEntry, Done, MissingEntry, Ownership, RestorePreview,
    RestoreRequest, SnapshotSummary, Target,
};
use stellarshot::errors::{EngineError, ErrorKind};
use stellarshot::restore::{
    common_ancestor, group_diff, preview_total, restore_root, Effect, Message, RestorePage, Running, Sheet,
    SheetSummary, Tab, TargetChoice,
};

fn summary(id: &str, time: i64) -> SnapshotSummary {
    SnapshotSummary {
        id: id.into(),
        time,
        paths: vec!["/home/alex".into()],
        hostname: "host".into(),
        files_new: 0,
        files_changed: 0,
        files_unmodified: 0,
        data_added: 0,
        total_bytes: 0,
        pinned: false,
    }
}

fn page_with_snapshots() -> RestorePage {
    let (mut page, _) = RestorePage::new("p".into(), "/home/alex".into());
    page.snapshots = vec![summary("bbbbbbbb", 20), summary("aaaaaaaa", 10)];
    page.snapshot = Some(0);
    page.from = Some(1);
    page.to = Some(0);
    page
}

fn missing(path: &str, snapshot: &str) -> MissingEntry {
    MissingEntry {
        path: path.into(),
        size: 1,
        last_seen: summary(snapshot, 0),
    }
}

fn request(snapshot: &str, path: &str, policy: ConflictPolicy) -> RestoreRequest {
    RestoreRequest {
        snapshot: snapshot.into(),
        paths: vec![path.into()],
        target: Target::Original,
        policy,
        verify_existing: false,
        ownership: Ownership::Preserve,
    }
}

fn preview_requests(effects: Vec<Effect>) -> Vec<RestoreRequest> {
    match effects.as_slice() {
        [Effect::Preview(requests)] => requests.clone(),
        _ => panic!("expected a dry run"),
    }
}

#[test]
fn the_sheet_starts_with_keep_both_and_the_original_place() {
    let mut page = page_with_snapshots();
    page.update(Message::Toggle("/home/alex/a.txt".into(), true), 0);

    let effects = page.update(Message::RestoreSelection, 0);

    let sheet = page.sheet.as_ref().expect("the sheet is open");
    assert_eq!(sheet.policy, ConflictPolicy::KeepBoth, "the safe default");
    assert_eq!(sheet.target, TargetChoice::Original);
    match effects.as_slice() {
        [Effect::Preview(requests)] => {
            assert_eq!(requests[0].snapshot, "bbbbbbbb");
            assert_eq!(requests[0].paths, vec!["/home/alex/a.txt".to_string()]);
        }
        _ => panic!("a dry run starts straight away"),
    }
}

#[test]
fn restoring_needs_a_preview_first() {
    let mut page = page_with_snapshots();
    page.update(Message::Toggle("/home/alex/a.txt".into(), true), 0);
    let asked = preview_requests(page.update(Message::RestoreSelection, 0));

    assert!(
        page.update(Message::StartRestore, 0).is_empty(),
        "no preview yet"
    );

    page.update(Message::Previewed(asked, Ok(RestorePreview::default())), 0);
    let effects = page.update(Message::StartRestore, 0);
    assert!(matches!(effects.as_slice(), [Effect::Restore(_)]));
    assert!(page.is_restoring());
}

#[test]
fn a_preview_for_earlier_choices_is_ignored() {
    let mut page = page_with_snapshots();
    page.update(Message::Toggle("/home/alex/a.txt".into(), true), 0);
    let keep_both = preview_requests(page.update(Message::RestoreSelection, 0));
    let overwrite =
        preview_requests(page.update(Message::Policy(ConflictPolicy::Overwrite), 0));

    page.update(Message::Previewed(keep_both, Ok(RestorePreview::default())), 0);
    assert!(
        page.update(Message::StartRestore, 0).is_empty(),
        "the Keep both dry run says nothing about Overwrite"
    );

    page.update(Message::Previewed(overwrite, Ok(RestorePreview::default())), 0);
    match page.update(Message::StartRestore, 0).as_slice() {
        [Effect::Restore(request)] => assert_eq!(request.policy, ConflictPolicy::Overwrite),
        _ => panic!("the matching dry run lets the restore start"),
    }
}

#[test]
fn choosing_a_folder_waits_for_the_folder() {
    let mut page = page_with_snapshots();
    page.update(Message::Toggle("/home/alex/a.txt".into(), true), 0);
    page.update(Message::RestoreSelection, 0);

    let effects = page.update(Message::TargetFolder, 0);
    assert!(matches!(effects.as_slice(), [Effect::PickTarget]));
    assert!(page.update(Message::StartRestore, 0).is_empty());

    let effects = page.update(Message::TargetChosen("/tmp/out".into()), 0);
    match effects.as_slice() {
        [Effect::Preview(requests)] => {
            assert_eq!(requests[0].target, Target::Folder("/tmp/out".into()));
        }
        _ => panic!("expected a new dry run"),
    }
}

#[test]
fn deleted_files_restore_from_their_own_snapshots() {
    let mut page = page_with_snapshots();
    page.tab = Tab::Deleted;
    page.missing = Some(vec![
        missing("/home/alex/a.txt", "bbbbbbbb"),
        missing("/home/alex/b.txt", "aaaaaaaa"),
    ]);
    page.update(Message::ToggleMissing("/home/alex/a.txt".into(), true), 0);
    page.update(Message::ToggleMissing("/home/alex/b.txt".into(), true), 0);

    let requests = page.selection_requests();

    assert_eq!(requests.len(), 2, "one per snapshot");
    assert!(requests
        .iter()
        .any(|r| r.snapshot == "aaaaaaaa" && r.paths == vec!["/home/alex/b.txt".to_string()]));
}

fn done() -> Message {
    Message::Restore(ChildEvent::Done(Done {
        report: None,
        restored: Some(RestorePreview::default()),
        forgotten: None,
        pruned: None,
    }))
}

#[test]
fn a_multi_part_restore_runs_every_part_in_turn() {
    let mut page = page_with_snapshots();
    page.sheet = Some(Sheet {
        requests: vec![
            request("aaaaaaaa", "/a", ConflictPolicy::KeepBoth),
            request("bbbbbbbb", "/b", ConflictPolicy::KeepBoth),
        ],
        target: TargetChoice::Original,
        policy: ConflictPolicy::KeepBoth,
        verify_existing: false,
        ownership: Ownership::Preserve,
        preview: Some(Ok(RestorePreview::default())),
        previewing: false,
    });

    let first = page.update(Message::StartRestore, 0);
    assert!(matches!(first.as_slice(), [Effect::Restore(r)] if r.snapshot == "aaaaaaaa"));

    let second = page.update(done(), 0);
    assert!(matches!(second.as_slice(), [Effect::Restore(r)] if r.snapshot == "bbbbbbbb"));
    assert!(page.is_restoring());

    let finished = page.update(done(), 0);
    assert!(matches!(finished.as_slice(), [Effect::Restored(_)]));
    assert!(!page.is_restoring());
}

#[test]
fn cancelling_drops_the_rest_of_the_queue() {
    let mut page = page_with_snapshots();
    page.running = Some(Running {
        started: false,
        progress: None,
        queue: vec![request("aaaaaaaa", "/b", ConflictPolicy::Skip)],
    });

    page.update(Message::CancelRestore, 0);
    let effects = page.update(
        Message::Restore(ChildEvent::Failed(EngineError::new(
            ErrorKind::Cancelled,
            String::new(),
        ))),
        0,
    );

    assert!(!page.is_restoring());
    assert!(matches!(effects.as_slice(), [Effect::ShowError(..)]));
}

#[test]
fn compare_restores_from_the_older_snapshot() {
    let mut page = page_with_snapshots();
    page.tab = Tab::Compare;
    page.update(Message::ToggleDiff("/home/alex/changed.txt".into(), true), 0);

    let requests = page.selection_requests();

    assert_eq!(
        requests[0].snapshot, "aaaaaaaa",
        "the version from before the change"
    );
}

#[test]
fn a_stale_listing_is_ignored() {
    let mut page = page_with_snapshots();
    page.update(Message::Open("/home/alex/Documents".into()), 0);
    page.update(Message::Listed("/home/alex".into(), Ok(Vec::new())), 0);
    assert!(
        page.entries.is_none(),
        "the answer for a folder we left is dropped"
    );
}

#[test]
fn a_folder_missing_from_a_snapshot_falls_back_then_gives_up() {
    let mut page = page_with_snapshots();
    page.dir = "/home/alex/gone".into();
    let failed = || Err(EngineError::new(ErrorKind::Internal, "not here".into()));

    let effects = page.update(Message::Listed("/home/alex/gone".into(), failed()), 0);
    assert!(
        matches!(effects.as_slice(), [Effect::List { dir, .. }] if dir == "/home/alex"),
        "first back to where browsing started"
    );

    let effects = page.update(Message::Listed("/home/alex".into(), failed()), 0);
    assert!(
        matches!(effects.as_slice(), [Effect::List { dir, .. }] if dir == "/"),
        "then to the top"
    );

    let effects = page.update(Message::Listed("/".into(), failed()), 0);
    assert!(
        matches!(effects.as_slice(), [Effect::ShowError(..)]),
        "and only then an error, never a loop"
    );
}

fn diff_entry(path: &str, change: Change) -> DiffEntry {
    DiffEntry {
        path: path.into(),
        change,
        is_dir: false,
        size: 1,
    }
}

#[test]
fn common_ancestor_finds_the_longest_shared_prefix() {
    let paths = [
        "/home/alex/project/src/main.rs".to_string(),
        "/home/alex/project/src/lib.rs".to_string(),
        "/home/alex/project/README.md".to_string(),
    ];
    assert_eq!(common_ancestor(&paths), "/home/alex/project");
}

#[test]
fn common_ancestor_of_one_path_is_its_own_parent_chain() {
    let paths = ["/home/alex/only.txt".to_string()];
    assert_eq!(common_ancestor(&paths), "/home/alex/only.txt");
}

#[test]
fn group_diff_puts_every_entry_directly_in_the_common_root_together() {
    let entries = vec![
        diff_entry("/home/alex/a.txt", Change::Added),
        diff_entry("/home/alex/b.txt", Change::Modified),
    ];

    let groups = group_diff(&entries);

    assert_eq!(groups.len(), 1, "both entries share one, empty, group key");
    let (folder, group_entries) = &groups[0];
    assert!(folder.is_empty());
    assert_eq!(group_entries.len(), 2);
}

#[test]
fn group_diff_separates_entries_in_different_subfolders() {
    let entries = vec![
        diff_entry("/home/alex/project/src/main.rs", Change::Modified),
        diff_entry("/home/alex/project/docs/readme.md", Change::Modified),
    ];

    let groups = group_diff(&entries);

    assert_eq!(groups.len(), 2, "src and docs are separate groups");
    assert!(groups.iter().any(|(folder, _)| folder == "src"));
    assert!(groups.iter().any(|(folder, _)| folder == "docs"));
}

#[test]
fn a_folders_diff_expansion_toggles() {
    let mut page = page_with_snapshots();

    page.update(Message::ToggleDiffFolder("src".into()), 0);
    assert!(page.diff_expanded.contains(&"src".to_string()));

    page.update(Message::ToggleDiffFolder("src".into()), 0);
    assert!(!page.diff_expanded.contains(&"src".to_string()));
}

#[test]
fn comparing_again_clears_the_previous_expansion() {
    let mut page = page_with_snapshots();
    page.diff_expanded.push("src".into());

    page.update(Message::Compare, 0);

    assert!(page.diff_expanded.is_empty());
}

#[test]
fn jump_to_match_switches_to_browse_at_the_matched_snapshot_and_folder() {
    let mut page = page_with_snapshots();
    page.tab = Tab::Search;

    let effects = page.update(
        Message::JumpToMatch("aaaaaaaa".into(), "/home/alex/project/report.txt".into()),
        0,
    );

    assert_eq!(page.tab, Tab::Browse);
    assert_eq!(page.snapshot, Some(1), "aaaaaaaa is the second snapshot");
    assert_eq!(page.dir, "/home/alex/project");
    assert!(matches!(effects.as_slice(), [Effect::List { .. }]));
}

#[test]
fn jump_to_an_unknown_snapshot_does_nothing() {
    let mut page = page_with_snapshots();
    page.tab = Tab::Search;

    let effects = page.update(Message::JumpToMatch("nope".into(), "/x".into()), 0);

    assert_eq!(page.tab, Tab::Search, "nothing to jump to");
    assert!(effects.is_empty());
}

#[test]
fn an_empty_global_search_clears_any_previous_results_without_a_fetch() {
    let mut page = page_with_snapshots();
    page.global_results = Some(vec![]);
    page.global_query = "  ".into();

    let effects = page.update(Message::GlobalSearchNow, 0);

    assert!(page.global_results.is_none());
    assert!(effects.is_empty());
}

#[test]
fn a_global_search_asks_for_the_current_query() {
    let mut page = page_with_snapshots();
    page.update(Message::GlobalSearch("report".into()), 0);

    let effects = page.update(Message::GlobalSearchNow, 0);

    assert!(matches!(effects.as_slice(), [Effect::GlobalSearch { query }] if query == "report"));
}

#[test]
fn finding_deleted_files_looks_back_thirty_days() {
    let mut page = page_with_snapshots();
    let effects = page.update(Message::ScopeChosen("/home/alex/Documents".into()), 3_000_000);
    match effects.as_slice() {
        [Effect::Missing { scope, since }] => {
            assert_eq!(scope, "/home/alex/Documents");
            assert_eq!(*since, 3_000_000 - 30 * 86_400);
        }
        _ => panic!("expected a search for deleted files"),
    }
    assert!(page.busy);
}

#[test]
fn closing_unmounts_first() {
    let mut page = page_with_snapshots();
    page.update(
        Message::Mounted(Ok(stellarshot::restore::MountHandle {
            point: "/tmp/mnt".into(),
            snapshot: "bbbbbbbb".into(),
        })),
        0,
    );
    assert!(matches!(
        page.update(Message::OpenMountedFolder, 0).as_slice(),
        [Effect::OpenMounted(p)] if p == "/tmp/mnt"
    ));
    let effects = page.update(Message::Close, 0);
    assert!(matches!(effects.as_slice(), [Effect::Unmount(_), Effect::Close]));
    assert!(page.mounted.is_none());
}

#[test]
fn loading_selects_the_newest_snapshot_and_lists_it() {
    let (mut page, effects) = RestorePage::new("p".into(), "/home/alex".into());
    assert!(matches!(effects.as_slice(), [Effect::Load]));
    let effects = page.update(
        Message::Loaded(Ok(vec![summary("bbbbbbbb", 20), summary("aaaaaaaa", 10)])),
        0,
    );
    assert_eq!(page.snapshot, Some(0));
    assert_eq!(page.from, Some(1));
    assert_eq!(page.to, Some(0));
    assert!(matches!(
        effects.as_slice(),
        [Effect::List { snapshot, dir }] if snapshot == "bbbbbbbb" && dir == "/home/alex"
    ));
}

#[test]
fn a_selection_is_restored_in_path_order() {
    let mut page = page_with_snapshots();
    page.update(Message::Toggle("/b".into(), true), 0);
    page.update(Message::Toggle("/a-b".into(), true), 0);
    page.update(Message::Toggle("/a/z".into(), true), 0);
    page.update(Message::Toggle("/a/z/".into(), true), 0);

    let requests = page.selection_requests();

    assert_eq!(requests.len(), 1);
    assert_eq!(
        requests[0].paths,
        vec!["/a/z".to_string(), "/a-b".to_string(), "/b".to_string()],
        "component by component, and a trailing slash is the same path"
    );
}

#[test]
fn deleted_files_are_restored_snapshot_by_snapshot_in_id_order() {
    let mut page = page_with_snapshots();
    page.tab = Tab::Deleted;
    page.missing = Some(vec![
        missing("/home/alex/a.txt", "bbbbbbbb"),
        missing("/home/alex/b.txt", "aaaaaaaa"),
        missing("/home/alex/c.txt", "bbbbbbbb"),
    ]);
    for path in ["/home/alex/a.txt", "/home/alex/b.txt", "/home/alex/c.txt"] {
        page.update(Message::ToggleMissing(path.into(), true), 0);
    }

    let requests = page.selection_requests();

    let order: Vec<&str> = requests.iter().map(|r| r.snapshot.as_str()).collect();
    assert_eq!(order, vec!["aaaaaaaa", "bbbbbbbb"]);
    assert_eq!(
        requests[1].paths,
        vec!["/home/alex/a.txt".to_string(), "/home/alex/c.txt".to_string()]
    );
}

#[test]
fn group_diff_lists_folders_in_path_order() {
    let entries = vec![
        diff_entry("/r/src/main.rs", Change::Modified),
        diff_entry("/r/docs/readme.md", Change::Modified),
        diff_entry("/r/docs-old/a.md", Change::Removed),
        diff_entry("/r/docs/guide.md", Change::Added),
    ];

    let groups = group_diff(&entries);

    let folders: Vec<&str> = groups.iter().map(|(folder, _)| folder.as_str()).collect();
    assert_eq!(folders, vec!["docs", "docs-old", "src"]);
    let docs: Vec<&str> = groups[0].1.iter().map(|e| e.path.as_str()).collect();
    assert_eq!(docs, vec!["/r/docs/readme.md", "/r/docs/guide.md"], "entries keep their order");
}

#[test]
fn a_restore_in_parts_previews_the_sum_of_its_parts() {
    let parts = [
        RestorePreview {
            files: 2,
            bytes: 100,
            conflicts: 1,
            unchanged: 0,
        },
        RestorePreview {
            files: 3,
            bytes: 50,
            conflicts: 0,
            unchanged: 4,
        },
    ];
    assert_eq!(
        preview_total(&parts),
        RestorePreview {
            files: 5,
            bytes: 150,
            conflicts: 1,
            unchanged: 4,
        }
    );
    assert_eq!(preview_total(&[]), RestorePreview::default());
}

#[test]
fn the_restore_page_starts_at_the_first_folder_backed_up() {
    assert_eq!(restore_root(&["/home/alex".to_string(), "/srv".to_string()]), "/home/alex");
    assert_eq!(restore_root(&[]), "/");
}

#[test]
fn the_sheet_says_what_its_dry_run_found() {
    let mut sheet = Sheet {
        requests: vec![
            request("aaaaaaaa", "/a", ConflictPolicy::Skip),
            RestoreRequest {
                paths: vec!["/b".into(), "/c".into()],
                ..request("bbbbbbbb", "/b", ConflictPolicy::Skip)
            },
        ],
        target: TargetChoice::Original,
        policy: ConflictPolicy::Overwrite,
        verify_existing: false,
        ownership: Ownership::Preserve,
        preview: None,
        previewing: true,
    };
    assert_eq!(sheet.path_count(), 3);
    assert!(matches!(sheet.summary(), SheetSummary::Previewing));
    assert!(!sheet.can_start());

    sheet.previewing = false;
    assert!(matches!(sheet.summary(), SheetSummary::ChooseFolder));

    sheet.preview = Some(Ok(RestorePreview {
        files: 4,
        bytes: 10,
        conflicts: 2,
        unchanged: 1,
    }));
    assert!(sheet.can_start());
    match sheet.summary() {
        SheetSummary::Preview {
            restore,
            conflicts,
            unchanged,
        } => {
            assert_eq!(restore.id, "preview-restore");
            assert_eq!(conflicts.id, "preview-replaced");
            assert_eq!(unchanged.id, "preview-unchanged");
        }
        _ => panic!("a finished dry run is summed up"),
    }

    sheet.preview = Some(Err(EngineError::new(ErrorKind::Locked, "".into())));
    assert!(matches!(sheet.summary(), SheetSummary::Failed));
    assert!(!sheet.can_start());
}
