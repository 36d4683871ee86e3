//! Getting files back: browse a snapshot, find what was deleted, compare two
//! snapshots, and restore a selection with a dry run first.
//!
//! Every side effect is returned as an [`Effect`] for the application to run;
//! the repository itself is the application's to hold, and the page learns
//! only what it lists. Paths are compared the way `Path` compares them:
//! component by component.

use vstd::prelude::*;
use vstd::seq_lib::lemma_seq_contains_after_push;
use crate::engine::{
    ChildEvent, ConflictPolicy, DiffEntry, FileVersion, GlobalMatch, MissingEntry, Ownership, ProgressEvent,
    RestorePreview, RestoreRequest, SnapshotSummary, Target, TreeEntry,
};
use crate::errors::EngineError;
use crate::i18n::{Arg, Phrase};
use crate::profile::{copy_texts, texts};
use crate::path::{components, components_of, from_components, from_components_of, slash, strip_prefix,
    strip_prefix_of};
use crate::order::{lemma_path_less_differs, lemma_text_order, path_less, placed, sort_by_key_path, sort_by_path, sorted_by_path, text_before, text_less};
use crate::split::views;
use crate::text::{chars_of, same, string_of, trim, trimmed};

verus! {

/// `a` and `b` agree in their first `n` components.
pub open spec fn agree_up_to(a: Seq<Seq<char>>, b: Seq<Seq<char>>, n: int) -> bool {
    &&& 0 <= n <= a.len()
    &&& n <= b.len()
    &&& forall|j: int| 0 <= j < n ==> a[j] == b[j]
}

/// `n` is how far `a` and `b` agree: as far as both go, or to their first
/// difference.
pub open spec fn agreement(a: Seq<Seq<char>>, b: Seq<Seq<char>>, n: int) -> bool {
    agree_up_to(a, b, n) && (n == a.len() || n == b.len() || a[n] != b[n])
}

/// The components `a` and `b` begin with alike.
pub open spec fn common_prefix(a: Seq<Seq<char>>, b: Seq<Seq<char>>) -> Seq<Seq<char>> {
    a.take(choose|n: int| agreement(a, b, n))
}

/// The components every one of `paths` begins with.
pub open spec fn common_components(paths: Seq<Seq<char>>) -> Seq<Seq<char>>
    decreases paths.len(),
{
    if paths.len() == 0 {
        Seq::empty()
    } else if paths.len() == 1 {
        components(paths[0])
    } else {
        common_prefix(common_components(paths.drop_last()), components(paths.last()))
    }
}

/// The common prefix of `a` and `b`.
fn common_prefix_of(a: &Vec<Vec<char>>, b: &Vec<Vec<char>>) -> (r: Vec<Vec<char>>)
    ensures
        views(r@) == common_prefix(views(a@), views(b@)),
{
    let ghost va = views(a@);
    let ghost vb = views(b@);
    let mut n: usize = 0;
    while n < a.len() && n < b.len() && same(a[n].as_slice(), b[n].as_slice())
        invariant
            va == views(a@),
            vb == views(b@),
            agree_up_to(va, vb, n as int),
        decreases a@.len() - n,
    {
        n = n + 1;
    }
    proof {
        let c = choose|c: int| agreement(va, vb, c);
        assert(agreement(va, vb, n as int));
        if c < n {
            assert(va[c] == vb[c]);
        } else if c > n {
            assert(va[n as int] == vb[n as int]);
        }
    }
    let mut r: Vec<Vec<char>> = Vec::new();
    let mut i: usize = 0;
    while i < n
        invariant
            n <= a@.len(),
            va == views(a@),
            i <= n,
            views(r@) == va.take(i as int),
        decreases n - i,
    {
        let ghost before = views(r@);
        r.push(a[i].clone());
        assert(views(r@) =~= before.push(va[i as int]));
        assert(va.take(i + 1) =~= va.take(i as int).push(va[i as int]));
        i = i + 1;
    }
    r
}

/// The longest path every one of `paths` starts with, component by
/// component: usually a diff's own common source folder, so grouping
/// relative to it does not force a click through a long chain of folders
/// that never branch. Empty when there are no paths.
pub fn common_ancestor(paths: &[String]) -> (r: String)
    ensures
        r@ == from_components(common_components(Seq::new(paths@.len(), |i: int| paths@[i]@))),
{
    let ghost all = Seq::new(paths@.len(), |i: int| paths@[i]@);
    let mut common: Vec<Vec<char>> = Vec::new();
    let mut i: usize = 0;
    while i < paths.len()
        invariant
            i <= paths@.len(),
            all == Seq::new(paths@.len(), |i: int| paths@[i]@),
            views(common@) == common_components(all.take(i as int)),
        decreases paths@.len() - i,
    {
        let c = components_of(chars_of(paths[i].as_str()).as_slice());
        assert(all.take(i + 1).drop_last() =~= all.take(i as int));
        assert(all.take(i + 1).last() == paths@[i as int]@);
        if i == 0 {
            common = c;
            assert(all.take(1) =~= seq![paths@[0]@]);
        } else {
            common = common_prefix_of(&common, &c);
        }
        i = i + 1;
    }
    assert(all.take(paths@.len() as int) =~= all);
    string_of(from_components_of(&common).as_slice())
}

/// The folder `p` lies in: `Path::parent`, or nothing for a path with no
/// parent, written as an empty path.
pub open spec fn parent_folder(p: Seq<char>) -> Seq<char> {
    let c = components(p);
    if c.len() == 0 || (c.len() == 1 && c[0] == slash()) {
        Seq::empty()
    } else {
        from_components(c.drop_last())
    }
}

/// The folder `path` lies in, relative to `root` when it is inside it.
pub open spec fn diff_folder(path: Seq<char>, root: Seq<char>) -> Seq<char> {
    parent_folder(
        match strip_prefix(path, root) {
            Some(rest) => rest,
            None => path,
        },
    )
}

/// The entries of `entries` whose folder, relative to `root`, is `folder`,
/// in order.
pub open spec fn entries_in(entries: Seq<DiffEntry>, root: Seq<char>, folder: Seq<char>) -> Seq<DiffEntry>
    decreases entries.len(),
{
    if entries.len() == 0 {
        Seq::empty()
    } else {
        let rest = entries_in(entries.drop_last(), root, folder);
        if components(diff_folder(entries.last().path@, root)) == components(folder) {
            rest.push(entries.last())
        } else {
            rest
        }
    }
}

/// The paths of `entries`.
pub open spec fn entry_paths(entries: Seq<DiffEntry>) -> Seq<Seq<char>> {
    Seq::new(entries.len(), |i: int| entries[i].path@)
}

/// The folder `path` lies in, relative to `root` when it is inside it.
fn folder_of(path: &str, root: &[char]) -> (r: Vec<char>)
    ensures
        r@ == diff_folder(path@, root@),
{
    let p = chars_of(path);
    let relative = match strip_prefix_of(p.as_slice(), root) {
        Some(rest) => rest,
        None => p,
    };
    let c = components_of(relative.as_slice());
    if c.len() == 0 || (c.len() == 1 && c[0].len() == 1 && c[0][0] == '/') {
        proof {
            if views(c@).len() == 1 && views(c@)[0] == slash() {
                assert(c@[0]@.len() == 1);
            }
        }
        return Vec::new();
    }
    proof {
        if views(c@).len() == 1 && views(c@)[0] == slash() {
            assert(c@[0]@ =~= slash());
        }
    }
    let mut c = c;
    let ghost before = views(c@);
    c.pop();
    assert(views(c@) =~= before.drop_last());
    from_components_of(&c)
}

proof fn lemma_entries_in_step(entries: Seq<DiffEntry>, root: Seq<char>, folder: Seq<char>, n: int)
    requires
        0 <= n < entries.len(),
    ensures
        entries_in(entries.take(n + 1), root, folder) == if components(diff_folder(entries[n].path@, root))
            == components(folder) {
            entries_in(entries.take(n), root, folder).push(entries[n])
        } else {
            entries_in(entries.take(n), root, folder)
        },
{
    assert(entries.take(n + 1).drop_last() =~= entries.take(n));
    assert(entries.take(n + 1).last() == entries[n]);
}

proof fn lemma_entries_in_none(entries: Seq<DiffEntry>, root: Seq<char>, folder: Seq<char>)
    requires
        forall|m: int|
            0 <= m < entries.len() ==> components(#[trigger] diff_folder(entries[m].path@, root)) != components(
                folder,
            ),
    ensures
        entries_in(entries, root, folder) == Seq::<DiffEntry>::empty(),
    decreases entries.len(),
{
    if entries.len() > 0 {
        assert(diff_folder(entries.drop_last().last().path@, root) == diff_folder(entries.drop_last().last().path@, root));
        assert forall|m: int| 0 <= m < entries.drop_last().len() implies components(
            #[trigger] diff_folder(entries.drop_last()[m].path@, root),
        ) != components(folder) by {
            assert(entries.drop_last()[m] == entries[m]);
        }
        lemma_entries_in_none(entries.drop_last(), root, folder);
        assert(entries.last() == entries[entries.len() - 1]);
    }
}

/// One of `groups` is for the folder `folder`.
pub open spec fn has_group(groups: Seq<(String, Vec<&DiffEntry>)>, folder: Seq<char>) -> bool {
    exists|i: int| 0 <= i < groups.len() && components(folder) == components(#[trigger] groups[i].0@)
}

/// Every entry's folder has a group among `groups`.
pub open spec fn covered_by(entries: Seq<DiffEntry>, root: Seq<char>, groups: Seq<(String, Vec<&DiffEntry>)>) -> bool {
    forall|k: int| 0 <= k < entries.len() ==> #[trigger] has_group(groups, diff_folder(entries[k].path@, root))
}

/// Groups put in order still have a group for every entry's folder.
proof fn lemma_placed_covers<'a>(
    entries: Seq<DiffEntry>,
    root: Seq<char>,
    g: Seq<(String, Vec<&'a DiffEntry>)>,
    r: Seq<(String, Vec<&'a DiffEntry>)>,
)
    requires
        covered_by(entries, root, g),
        placed(r, g, g.len() as int),
    ensures
        covered_by(entries, root, r),
{
    assert forall|k: int| 0 <= k < entries.len() implies #[trigger] has_group(r, diff_folder(entries[k].path@, root)) by {
        let folder = diff_folder(entries[k].path@, root);
        assert(has_group(g, folder));
        let j = choose|j: int| 0 <= j < g.len() && components(folder) == components(g[j].0@);
        let i = choose|i: int| 0 <= i < r.len() && r[i] == g[j];
        assert(components(folder) == components(r[i].0@));
    }
}

/// `entries` grouped by the folder each directly sits in, relative to their
/// own common root: one group per folder, each with its entries in order.
#[verifier::spinoff_prover]
fn group_by_folder<'a>(entries: &'a [DiffEntry]) -> (r: Vec<(String, Vec<&'a DiffEntry>)>)
    ensures
        ({
            let root = from_components(common_components(entry_paths(entries@)));
            &&& forall|i: int, j: int|
                0 <= i < r@.len() && 0 <= j < r@.len() && i != j ==> components(r@[i].0@) != components(
                    r@[j].0@,
                )
            &&& forall|i: int|
                0 <= i < r@.len() ==> (#[trigger] r@[i]).1@.len() > 0 && r@[i].1@.map_values(
                    |e: &DiffEntry| *e,
                ) == entries_in(entries@, root, r@[i].0@)
            &&& covered_by(entries@, root, r@)
        }),
{
    let mut paths: Vec<String> = Vec::new();
    let mut k: usize = 0;
    while k < entries.len()
        invariant
            k <= entries@.len(),
            paths@.len() == k,
            forall|j: int| 0 <= j < k ==> (#[trigger] paths@[j])@ == entries@[j].path@,
        decreases entries@.len() - k,
    {
        paths.push(entries[k].path.clone());
        k = k + 1;
    }
    let root = common_ancestor(paths.as_slice());
    assert(Seq::new(paths@.len(), |i: int| paths@[i]@) =~= entry_paths(entries@));
    let root_chars = chars_of(root.as_str());
    let ghost rv = root@;
    let mut keys: Vec<Vec<char>> = Vec::new();
    let mut groups: Vec<(String, Vec<&'a DiffEntry>)> = Vec::new();
    let mut n: usize = 0;
    while n < entries.len()
        invariant
            n <= entries@.len(),
            root_chars@ == rv,
            rv == from_components(common_components(entry_paths(entries@))),
            keys@.len() == groups@.len(),
            forall|i: int| 0 <= i < keys@.len() ==> (#[trigger] keys@[i])@ == groups@[i].0@,
            forall|i: int, j: int|
                0 <= i < groups@.len() && 0 <= j < groups@.len() && i != j ==> components(
                    groups@[i].0@,
                ) != components(groups@[j].0@),
            forall|i: int|
                0 <= i < groups@.len() ==> (#[trigger] groups@[i]).1@.len() > 0 && groups@[i].1@.map_values(
                    |e: &DiffEntry| *e,
                ) == entries_in(entries@.take(n as int), rv, groups@[i].0@),
            forall|m: int|
                0 <= m < n ==> exists|i: int|
                    0 <= i < groups@.len() && components(#[trigger] diff_folder(entries@[m].path@, rv))
                        == components(groups@[i].0@),
        decreases entries@.len() - n,
    {
        let entry = &entries[n];
        let folder = folder_of(entry.path.as_str(), root_chars.as_slice());
        let folder_components = components_of(folder.as_slice());
        let ghost taken = entries@.take(n as int);
        assert(entries@.take(n + 1).drop_last() =~= taken);
        assert(entries@.take(n + 1).last() == *entry);
        let mut found: Option<usize> = None;
        let mut i: usize = 0;
        while i < keys.len()
            invariant
                i <= keys@.len(),
                keys@.len() == groups@.len(),
                forall|j: int| 0 <= j < keys@.len() ==> (#[trigger] keys@[j])@ == groups@[j].0@,
                views(folder_components@) == components(folder@),
                found is None ==> forall|j: int| 0 <= j < i ==> components(groups@[j].0@) != components(folder@),
                found matches Some(f) ==> f < groups@.len() && components(groups@[f as int].0@) == components(folder@),
            decreases keys@.len() - i,
        {
            if found.is_none() {
                let kc = components_of(keys[i].as_slice());
                if kc.len() == folder_components.len() {
                    let mut same_all = true;
                    let mut j: usize = 0;
                    while j < kc.len()
                        invariant
                            kc@.len() == folder_components@.len(),
                            j <= kc@.len(),
                            same_all == forall|t: int| 0 <= t < j ==> views(kc@)[t] == views(folder_components@)[t],
                        decreases kc@.len() - j,
                    {
                        assert(views(kc@)[j as int] == kc@[j as int]@);
                        assert(views(folder_components@)[j as int] == folder_components@[j as int]@);
                        if !same(kc[j].as_slice(), folder_components[j].as_slice()) {
                            same_all = false;
                        }
                        j = j + 1;
                    }
                    if same_all {
                        assert(views(kc@) =~= views(folder_components@));
                        found = Some(i);
                    }
                } else {
                    assert(views(kc@).len() != views(folder_components@).len());
                }
            }
            i = i + 1;
        }
        let ghost before_groups = groups@;
        match found {
            Some(f) => {
                let (key, mut members) = groups.remove(f);
                let ghost old_members = members@;
                members.push(entry);
                assert(members@.map_values(|e: &DiffEntry| *e) =~= old_members.map_values(
                    |e: &DiffEntry| *e,
                ).push(*entry));
                groups.insert(f, (key, members));
                proof {
                    assert forall|g: int| 0 <= g < groups@.len() implies (#[trigger] groups@[g]).1@.len() > 0
                        && groups@[g].1@.map_values(|e: &DiffEntry| *e) == entries_in(
                        entries@.take(n + 1),
                        rv,
                        groups@[g].0@,
                    ) by {
                        lemma_entries_in_step(entries@, rv, groups@[g].0@, n as int);
                        if g != f {
                            assert(groups@[g] == before_groups[g]);
                        } else {
                            assert(groups@[g].0@ == before_groups[g].0@);
                        }
                    }
                    assert forall|m: int| 0 <= m < n + 1 implies exists|g: int|
                        0 <= g < groups@.len() && components(#[trigger] diff_folder(entries@[m].path@, rv))
                            == components(groups@[g].0@) by {
                        if m < n {
                            let g = choose|g: int|
                                0 <= g < before_groups.len() && components(diff_folder(entries@[m].path@, rv))
                                    == components(before_groups[g].0@);
                            assert(groups@[g].0@ == before_groups[g].0@);
                        } else {
                            assert(groups@[f as int].0@ == key@);
                        }
                    }
                }
            },
            None => {
                let mut members: Vec<&'a DiffEntry> = Vec::new();
                members.push(entry);
                assert(members@.map_values(|e: &DiffEntry| *e) =~= seq![*entry]);
                keys.push(folder.clone());
                groups.push((string_of(folder.as_slice()), members));
                proof {
                    let last = before_groups.len() as int;
                    assert forall|m: int| 0 <= m < taken.len() implies components(
                        #[trigger] diff_folder(taken[m].path@, rv),
                    ) != components(folder@) by {
                        assert(taken[m] == entries@[m]);
                        let g = choose|g: int|
                            0 <= g < before_groups.len() && components(diff_folder(entries@[m].path@, rv))
                                == components(before_groups[g].0@);
                    }
                    lemma_entries_in_none(taken, rv, folder@);
                    assert forall|g: int| 0 <= g < groups@.len() implies (#[trigger] groups@[g]).1@.len() > 0
                        && groups@[g].1@.map_values(|e: &DiffEntry| *e) == entries_in(
                        entries@.take(n + 1),
                        rv,
                        groups@[g].0@,
                    ) by {
                        lemma_entries_in_step(entries@, rv, groups@[g].0@, n as int);
                        if g < last {
                            assert(groups@[g] == before_groups[g]);
                        } else {
                            assert(groups@[g].0@ == folder@);
                            assert(Seq::<DiffEntry>::empty().push(*entry) =~= seq![*entry]);
                        }
                    }
                    assert forall|m: int| 0 <= m < n + 1 implies exists|g: int|
                        0 <= g < groups@.len() && components(#[trigger] diff_folder(entries@[m].path@, rv))
                            == components(groups@[g].0@) by {
                        if m < n {
                            let g = choose|g: int|
                                0 <= g < before_groups.len() && components(diff_folder(entries@[m].path@, rv))
                                    == components(before_groups[g].0@);
                            assert(groups@[g].0@ == before_groups[g].0@);
                        } else {
                            assert(groups@[last].0@ == folder@);
                        }
                    }
                }
            },
        }
        n = n + 1;
    }
    assert(entries@.take(entries@.len() as int) =~= entries@);
    assert forall|i: int| 0 <= i < groups@.len() implies (#[trigger] groups@[i]).1@.len() > 0
        && groups@[i].1@.map_values(|e: &DiffEntry| *e) == entries_in(entries@, rv, groups@[i].0@) by {
    }
    assert forall|k: int| 0 <= k < entries@.len() implies exists|i: int|
        0 <= i < groups@.len() && components(#[trigger] diff_folder(entries@[k].path@, rv)) == components(
            groups@[i].0@,
        ) by {
        assert(0 <= k < n);
        let i = choose|i: int|
            0 <= i < groups@.len() && components(diff_folder(entries@[k].path@, rv)) == components(groups@[i].0@);
        assert(components(diff_folder(entries@[k].path@, rv)) == components(groups@[i].0@));
    }
    assert forall|k: int| 0 <= k < entries@.len() implies #[trigger] has_group(
        groups@,
        diff_folder(entries@[k].path@, rv),
    ) by {
        let i = choose|i: int|
            0 <= i < groups@.len() && components(diff_folder(entries@[k].path@, rv)) == components(groups@[i].0@);
        assert(components(diff_folder(entries@[k].path@, rv)) == components(groups@[i].0@));
    }
    groups
}

/// `entries` grouped by the folder each directly sits in, relative to their
/// own common root: one group per folder, in the order of the folders'
/// paths, each with its entries in order.
pub fn group_diff<'a>(entries: &'a [DiffEntry]) -> (r: Vec<(String, Vec<&'a DiffEntry>)>)
    ensures
        ({
            let root = from_components(common_components(entry_paths(entries@)));
            &&& forall|i: int, j: int|
                0 <= i < r@.len() && 0 <= j < r@.len() && i != j ==> components(r@[i].0@) != components(
                    r@[j].0@,
                )
            &&& forall|i: int|
                0 <= i < r@.len() ==> (#[trigger] r@[i]).1@.len() > 0 && r@[i].1@.map_values(
                    |e: &DiffEntry| *e,
                ) == entries_in(entries@, root, r@[i].0@)
            &&& covered_by(entries@, root, r@)
            &&& forall|i: int, j: int| 0 <= i < j < r@.len() ==> path_less(#[trigger] r@[i].0@, #[trigger] r@[j].0@)
        }),
{
    let groups = group_by_folder(entries);
    let ghost g = groups@;
    let r = sort_by_key_path(groups);
    proof {
        let root = from_components(common_components(entry_paths(entries@)));
        assert forall|i: int, j: int| 0 <= i < r@.len() && 0 <= j < r@.len() && i != j implies components(
            r@[i].0@,
        ) != components(r@[j].0@) by {
            if i < j {
                lemma_path_less_differs(r@[i].0@, r@[j].0@);
            } else {
                lemma_path_less_differs(r@[j].0@, r@[i].0@);
            }
        }
        assert forall|i: int| 0 <= i < r@.len() implies (#[trigger] r@[i]).1@.len() > 0 && r@[i].1@.map_values(
            |e: &DiffEntry| *e,
        ) == entries_in(entries@, root, r@[i].0@) by {
            assert(placed(r@, g, g.len() as int));
            let j = choose|j: int| 0 <= j < g.len() && r@[i] == g[j];
            assert(g[j].1@.len() > 0);
        }
        lemma_placed_covers(entries@, root, g, r@);
    }
    r
}

/// The sum of `f` over `parts`.
pub open spec fn total_of(parts: Seq<RestorePreview>, f: spec_fn(RestorePreview) -> u64) -> int
    decreases parts.len(),
{
    if parts.len() == 0 {
        0
    } else {
        total_of(parts.drop_last(), f) + f(parts.last())
    }
}

/// What a restore in several parts would do: each figure summed over the
/// parts' dry runs.
pub fn preview_total(parts: &[RestorePreview]) -> (r: RestorePreview)
    requires
        total_of(parts@, |p: RestorePreview| p.files) <= u64::MAX,
        total_of(parts@, |p: RestorePreview| p.bytes) <= u64::MAX,
        total_of(parts@, |p: RestorePreview| p.conflicts) <= u64::MAX,
        total_of(parts@, |p: RestorePreview| p.unchanged) <= u64::MAX,
    ensures
        r.files == total_of(parts@, |p: RestorePreview| p.files),
        r.bytes == total_of(parts@, |p: RestorePreview| p.bytes),
        r.conflicts == total_of(parts@, |p: RestorePreview| p.conflicts),
        r.unchanged == total_of(parts@, |p: RestorePreview| p.unchanged),
{
    let ghost files = |p: RestorePreview| p.files;
    let ghost bytes = |p: RestorePreview| p.bytes;
    let ghost conflicts = |p: RestorePreview| p.conflicts;
    let ghost unchanged = |p: RestorePreview| p.unchanged;
    let mut total = RestorePreview { files: 0, bytes: 0, conflicts: 0, unchanged: 0 };
    let mut i: usize = 0;
    while i < parts.len()
        invariant
            i <= parts@.len(),
            total.files == total_of(parts@.take(i as int), files),
            total.bytes == total_of(parts@.take(i as int), bytes),
            total.conflicts == total_of(parts@.take(i as int), conflicts),
            total.unchanged == total_of(parts@.take(i as int), unchanged),
            total_of(parts@, files) <= u64::MAX,
            total_of(parts@, bytes) <= u64::MAX,
            total_of(parts@, conflicts) <= u64::MAX,
            total_of(parts@, unchanged) <= u64::MAX,
            files == (|p: RestorePreview| p.files),
            bytes == (|p: RestorePreview| p.bytes),
            conflicts == (|p: RestorePreview| p.conflicts),
            unchanged == (|p: RestorePreview| p.unchanged),
        decreases parts@.len() - i,
    {
        proof {
            assert(parts@.take(i + 1).drop_last() =~= parts@.take(i as int));
            assert(parts@.take(i + 1).last() == parts@[i as int]);
            lemma_total_of_prefix(parts@, files, i + 1);
            lemma_total_of_prefix(parts@, bytes, i + 1);
            lemma_total_of_prefix(parts@, conflicts, i + 1);
            lemma_total_of_prefix(parts@, unchanged, i + 1);
        }
        let part = parts[i];
        total.files = total.files + part.files;
        total.bytes = total.bytes + part.bytes;
        total.conflicts = total.conflicts + part.conflicts;
        total.unchanged = total.unchanged + part.unchanged;
        i = i + 1;
    }
    assert(parts@.take(parts@.len() as int) =~= parts@);
    total
}

/// A sum over the first parts is no more than the sum over all of them.
proof fn lemma_total_of_prefix(parts: Seq<RestorePreview>, f: spec_fn(RestorePreview) -> u64, n: int)
    requires
        0 <= n <= parts.len(),
    ensures
        total_of(parts.take(n), f) <= total_of(parts, f),
    decreases parts.len(),
{
    if n < parts.len() {
        assert(parts.drop_last().take(n) =~= parts.take(n));
        lemma_total_of_prefix(parts.drop_last(), f, n);
    } else {
        assert(parts.take(n) =~= parts);
    }
}

/// Where the restore page starts browsing: the first folder the backup
/// covers, or the root.
pub fn restore_root(sources: &[String]) -> (r: String)
    ensures
        r@ == if sources@.len() > 0 {
            sources@[0]@
        } else {
            "/"@
        },
{
    proof {
        reveal_strlit("/");
    }
    if sources.len() > 0 {
        sources[0].clone()
    } else {
        "/".to_owned()
    }
}

/// How far back "Deleted files" looks by default, in seconds: thirty days.
pub const DELETED_WINDOW: i64 = 2592000;

/// Most search results, deleted files and differences shown at once.
pub const RESULT_LIMIT: usize = 500;

/// The page's tabs.
#[derive(Debug, Clone, Copy, PartialEq, Eq, Structural)]
pub enum Tab {
    Browse,
    Deleted,
    Compare,
    Search,
}

/// Where the restore goes, as chosen in the sheet.
#[derive(Debug, Clone, PartialEq, Eq)]
pub enum TargetChoice {
    Original,
    Folder(Option<String>),
}

/// A restore request, as plain values; a target of `None` is the
/// original place.
pub struct RequestView {
    pub snapshot: Seq<char>,
    pub paths: Seq<Seq<char>>,
    pub target: Option<Seq<char>>,
    pub policy: ConflictPolicy,
    pub verify_existing: bool,
    pub ownership: Ownership,
}

/// `r` as plain values.
pub open spec fn request_view(r: RestoreRequest) -> RequestView {
    RequestView {
        snapshot: r.snapshot@,
        paths: texts(r.paths@),
        target: match r.target {
            Target::Original => None,
            Target::Folder(f) => Some(f@),
        },
        policy: r.policy,
        verify_existing: r.verify_existing,
        ownership: r.ownership,
    }
}

/// Requests as plain values.
pub open spec fn request_views(v: Seq<RestoreRequest>) -> Seq<RequestView> {
    v.map_values(|r: RestoreRequest| request_view(r))
}

/// A copy of `r`.
pub fn copy_request(r: &RestoreRequest) -> (c: RestoreRequest)
    ensures
        request_view(c) == request_view(*r),
{
    RestoreRequest {
        snapshot: r.snapshot.clone(),
        paths: copy_texts(&r.paths),
        target: match &r.target {
            Target::Original => Target::Original,
            Target::Folder(f) => Target::Folder(f.clone()),
        },
        policy: r.policy,
        verify_existing: r.verify_existing,
        ownership: r.ownership,
    }
}

/// A request to restore `paths` from `snapshot` to where they were,
/// keeping both copies of a file that is there and differs.
pub open spec fn plain_request(snapshot: Seq<char>, paths: Seq<Seq<char>>) -> RequestView {
    RequestView {
        snapshot,
        paths,
        target: None,
        policy: ConflictPolicy::KeepBoth,
        verify_existing: false,
        ownership: Ownership::Preserve,
    }
}

/// The restore sheet: what, where, what about existing files, and the dry run.
#[derive(Debug)]
pub struct Sheet {
    /// One request per snapshot the selection comes from.
    pub requests: Vec<RestoreRequest>,
    pub target: TargetChoice,
    pub policy: ConflictPolicy,
    /// Read and verify a file that already looks unchanged, rather than
    /// trusting its size and modification time.
    pub verify_existing: bool,
    pub ownership: Ownership,
    pub preview: Option<Result<RestorePreview, EngineError>>,
    pub previewing: bool,
}

/// The requests of `sheet` with its target, policy and options applied,
/// once a target folder is chosen where one is needed.
pub open spec fn finished_views(sheet: Sheet) -> Option<Seq<RequestView>> {
    let target = match sheet.target {
        TargetChoice::Original => Some(None),
        TargetChoice::Folder(Some(f)) => Some(Some(f@)),
        TargetChoice::Folder(None) => None,
    };
    match target {
        Some(t) => Some(
            Seq::new(
                sheet.requests@.len(),
                |i: int|
                    RequestView {
                        target: t,
                        policy: sheet.policy,
                        verify_existing: sheet.verify_existing,
                        ownership: sheet.ownership,
                        ..request_view(sheet.requests@[i])
                    },
            ),
        ),
        None => None,
    }
}

/// The paths the requests of `requests` restore, counted.
pub open spec fn paths_in(requests: Seq<RestoreRequest>) -> int
    decreases requests.len(),
{
    if requests.len() == 0 {
        0
    } else {
        paths_in(requests.drop_last()) + requests.last().paths@.len()
    }
}

/// What the sheet says of its dry run.
#[derive(Debug)]
pub enum SheetSummary {
    /// The dry run is under way.
    Previewing,
    /// No dry run yet: a target folder is still to choose.
    ChooseFolder,
    /// The dry run failed, with the error the sheet holds.
    Failed,
    /// What restoring would do: files and bytes restored, what happens to
    /// files already there that differ, and files already as they are.
    Preview { restore: Phrase, conflicts: Phrase, unchanged: Phrase },
}

/// Counting the paths of the first requests counts no more than of all.
proof fn lemma_paths_in_prefix(requests: Seq<RestoreRequest>, n: int)
    requires
        0 <= n <= requests.len(),
    ensures
        paths_in(requests.take(n)) <= paths_in(requests),
    decreases requests.len(),
{
    if n < requests.len() {
        assert(requests.drop_last().take(n) =~= requests.take(n));
        lemma_paths_in_prefix(requests.drop_last(), n);
    } else {
        assert(requests.take(n) =~= requests);
    }
}

impl Sheet {
    /// The requests with the chosen target, policy and options applied, if
    /// a target folder has been chosen where one is needed.
    pub fn finished_requests(&self) -> (r: Option<Vec<RestoreRequest>>)
        ensures
            match r {
                Some(v) => finished_views(*self) == Some(request_views(v@)),
                None => finished_views(*self) is None,
            },
    {
        let target = match &self.target {
            TargetChoice::Original => Target::Original,
            TargetChoice::Folder(Some(folder)) => Target::Folder(folder.clone()),
            TargetChoice::Folder(None) => return None,
        };
        let mut r: Vec<RestoreRequest> = Vec::new();
        let mut i: usize = 0;
        while i < self.requests.len()
            invariant
                i <= self.requests@.len(),
                r@.len() == i,
                finished_views(*self) is Some,
                match target {
                    Target::Original => self.target == TargetChoice::Original,
                    Target::Folder(f) => self.target matches TargetChoice::Folder(Some(g)) && f@ == g@,
                },
                forall|j: int| 0 <= j < i ==> request_view(#[trigger] r@[j]) == finished_views(*self).unwrap()[j],
            decreases self.requests@.len() - i,
        {
            let request = &self.requests[i];
            r.push(
                RestoreRequest {
                    snapshot: request.snapshot.clone(),
                    paths: copy_texts(&request.paths),
                    target: match &target {
                        Target::Original => Target::Original,
                        Target::Folder(f) => Target::Folder(f.clone()),
                    },
                    policy: self.policy,
                    verify_existing: self.verify_existing,
                    ownership: self.ownership,
                },
            );
            i = i + 1;
        }
        assert(request_views(r@) =~= finished_views(*self).unwrap());
        Some(r)
    }

    /// How many paths the sheet restores.
    pub fn path_count(&self) -> (r: usize)
        requires
            paths_in(self.requests@) <= usize::MAX,
        ensures
            r == paths_in(self.requests@),
    {
        let mut total: usize = 0;
        let mut i: usize = 0;
        while i < self.requests.len()
            invariant
                i <= self.requests@.len(),
                total == paths_in(self.requests@.take(i as int)),
                paths_in(self.requests@) <= usize::MAX,
            decreases self.requests@.len() - i,
        {
            proof {
                assert(self.requests@.take(i + 1).drop_last() =~= self.requests@.take(i as int));
                assert(self.requests@.take(i + 1).last() == self.requests@[i as int]);
                lemma_paths_in_prefix(self.requests@, i + 1);
            }
            total = total + self.requests[i].paths.len();
            i = i + 1;
        }
        assert(self.requests@.take(self.requests@.len() as int) =~= self.requests@);
        total
    }

    /// The restore can start: its dry run succeeded and none runs now.
    pub fn can_start(&self) -> (r: bool)
        ensures
            r == (self.preview matches Some(Ok(_)) && !self.previewing),
    {
        match &self.preview {
            Some(Ok(_)) => !self.previewing,
            _ => false,
        }
    }

    /// What the sheet says of its dry run.
    pub fn summary(&self) -> (r: SheetSummary)
        ensures
            if self.previewing {
                r is Previewing
            } else {
                match self.preview {
                    None => r is ChooseFolder,
                    Some(Err(_)) => r is Failed,
                    Some(Ok(p)) => r matches SheetSummary::Preview { restore, conflicts, unchanged } && restore.id@
                        == "preview-restore"@ && restore.args@.len() == 2 && restore.args@[0].0@ == "count"@
                        && restore.args@[0].1 == Arg::Count(p.files as i64) && restore.args@[1].0@ == "size"@
                        && restore.args@[1].1 == Arg::Size(p.bytes) && conflicts.with(
                        match self.policy {
                            ConflictPolicy::KeepBoth => "preview-kept"@,
                            ConflictPolicy::Overwrite => "preview-replaced"@,
                            ConflictPolicy::Skip => "preview-skipped"@,
                        },
                        "count"@,
                        Arg::Count(p.conflicts as i64),
                    ) && unchanged.with("preview-unchanged"@, "count"@, Arg::Count(p.unchanged as i64)),
                }
            },
    {
        if self.previewing {
            return SheetSummary::Previewing;
        }
        match &self.preview {
            None => SheetSummary::ChooseFolder,
            Some(Err(_)) => SheetSummary::Failed,
            Some(Ok(p)) => {
                let mut args: Vec<(String, Arg)> = Vec::new();
                args.push(("count".to_owned(), Arg::Count(p.files as i64)));
                args.push(("size".to_owned(), Arg::Size(p.bytes)));
                let restore = Phrase { id: "preview-restore".to_owned(), args };
                let id = match self.policy {
                    ConflictPolicy::KeepBoth => "preview-kept",
                    ConflictPolicy::Overwrite => "preview-replaced",
                    ConflictPolicy::Skip => "preview-skipped",
                };
                proof {
                    reveal_strlit("preview-kept");
                    reveal_strlit("preview-replaced");
                    reveal_strlit("preview-skipped");
                }
                let conflicts = Phrase::one(id, "count", Arg::Count(p.conflicts as i64));
                let unchanged = Phrase::one("preview-unchanged", "count", Arg::Count(p.unchanged as i64));
                SheetSummary::Preview { restore, conflicts, unchanged }
            },
        }
    }
}

/// A restore running in a child process.
#[derive(Debug)]
pub struct Running {
    /// The child has started: it can be stopped.
    pub started: bool,
    pub progress: Option<ProgressEvent>,
    /// Requests still to run after this one, in order.
    pub queue: Vec<RestoreRequest>,
}

/// A snapshot mounted read-only at a folder; it is unmounted when the
/// application drops what it holds for it.
#[derive(Debug, Clone, PartialEq, Eq)]
pub struct MountHandle {
    pub point: String,
    pub snapshot: String,
}

impl MountHandle {
    /// The folder the snapshot is mounted at.
    pub fn point(&self) -> (r: &str)
        ensures
            r@ == self.point@,
    {
        self.point.as_str()
    }

    /// The snapshot mounted.
    pub fn snapshot(&self) -> (r: &str)
        ensures
            r@ == self.snapshot@,
    {
        self.snapshot.as_str()
    }
}

/// The paths of `v`, by their components.
pub open spec fn path_set(v: Seq<String>) -> Set<Seq<Seq<char>>> {
    Set::new(|k: Seq<Seq<char>>| exists|i: int| 0 <= i < v.len() && components(#[trigger] v[i]@) == k)
}

/// The entry of `v` that is the path `p`, if there is one.
fn find_path(v: &Vec<String>, p: &str) -> (r: Option<usize>)
    ensures
        match r {
            Some(i) => i < v@.len() && components(v@[i as int]@) == components(p@),
            None => forall|i: int| 0 <= i < v@.len() ==> components(#[trigger] v@[i]@) != components(p@),
        },
{
    let pc = chars_of(p);
    let mut i: usize = 0;
    while i < v.len()
        invariant
            i <= v@.len(),
            pc@ == p@,
            forall|j: int| 0 <= j < i ==> components(#[trigger] v@[j]@) != components(p@),
        decreases v@.len() - i,
    {
        let q = chars_of(v[i].as_str());
        if crate::path::same_path_chars(q.as_slice(), pc.as_slice()) {
            return Some(i);
        }
        i = i + 1;
    }
    None
}

/// Adds `p` to the paths of `v`, or takes it out.
fn set_path(v: &mut Vec<String>, p: String, on: bool)
    ensures
        path_set(final(v)@) == if on {
            path_set(old(v)@).insert(components(p@))
        } else {
            path_set(old(v)@).remove(components(p@))
        },
{
    let ghost before = v@;
    let ghost key = components(p@);
    if on {
        match find_path(v, p.as_str()) {
            Some(i) => {
                assert(path_set(before).contains(key)) by {
                    assert(components(before[i as int]@) == key);
                }
                assert(path_set(v@) =~= path_set(before).insert(key));
            },
            None => {
                v.push(p);
                assert forall|k: Seq<Seq<char>>| path_set(v@).contains(k) == path_set(before).insert(key).contains(
                    k,
                ) by {
                    if path_set(before).contains(k) {
                        let i = choose|i: int| 0 <= i < before.len() && components(before[i]@) == k;
                        assert(v@[i] == before[i]);
                    }
                    if path_set(v@).contains(k) {
                        let i = choose|i: int| 0 <= i < v@.len() && components(v@[i]@) == k;
                        if i < before.len() {
                            assert(v@[i] == before[i]);
                        }
                    }
                    if k == key {
                        assert(components(v@[before.len() as int]@) == key);
                    }
                }
                assert(path_set(v@) =~= path_set(before).insert(key));
            },
        }
    } else {
        let mut kept: Vec<String> = Vec::new();
        let mut i: usize = 0;
        let pc = chars_of(p.as_str());
        while i < v.len()
            invariant
                i <= v@.len(),
                v@ == before,
                pc@ == p@,
                key == components(p@),
                forall|k: Seq<Seq<char>>|
                    #![trigger path_set(kept@).contains(k)]
                    path_set(kept@).contains(k) == (k != key && exists|j: int|
                        0 <= j < i && components(#[trigger] before[j]@) == k),
            decreases v@.len() - i,
        {
            let q = chars_of(v[i].as_str());
            let ghost old_kept = kept@;
            let keep = !crate::path::same_path_chars(q.as_slice(), pc.as_slice());
            assert(keep == (components(before[i as int]@) != key));
            if keep {
                kept.push(v[i].clone());
                assert(kept@[old_kept.len() as int]@ == before[i as int]@);
            } else {
                assert(kept@ == old_kept);
            }
            assert forall|k: Seq<Seq<char>>|
                #![trigger path_set(kept@).contains(k)]
                path_set(kept@).contains(k) == (k != key && exists|j: int|
                    0 <= j < i + 1 && components(#[trigger] before[j]@) == k) by {
                if path_set(kept@).contains(k) {
                    let t = choose|t: int| 0 <= t < kept@.len() && components(kept@[t]@) == k;
                    if t < old_kept.len() {
                        assert(kept@[t] == old_kept[t]);
                        assert(path_set(old_kept).contains(k));
                    }
                }
                if k != key && exists|j: int| 0 <= j < i + 1 && components(#[trigger] before[j]@) == k {
                    let j = choose|j: int| 0 <= j < i + 1 && components(#[trigger] before[j]@) == k;
                    if j < i {
                        assert(path_set(old_kept).contains(k));
                        let t = choose|t: int| 0 <= t < old_kept.len() && components(old_kept[t]@) == k;
                        assert(kept@[t] == old_kept[t]);
                    } else {
                        assert(components(kept@[old_kept.len() as int]@) == k);
                    }
                }
            }
            i = i + 1;
        }
        *v = kept;
        assert(path_set(v@) =~= path_set(before).remove(key));
    }
}

/// The restore page.
#[derive(Debug)]
pub struct RestorePage {
    pub profile_id: String,
    /// The repository has been opened for browsing.
    pub loaded: bool,
    pub snapshots: Vec<SnapshotSummary>,
    pub tab: Tab,
    // Browse
    pub snapshot: Option<usize>,
    pub dir: String,
    pub root: String,
    pub entries: Option<Vec<TreeEntry>>,
    pub search: String,
    pub results: Option<Vec<TreeEntry>>,
    pub expanded: Option<String>,
    pub versions: Option<Vec<FileVersion>>,
    pub selection: Vec<String>,
    // Deleted files
    pub scope: String,
    pub missing: Option<Vec<MissingEntry>>,
    pub missing_selection: Vec<String>,
    // Compare
    pub from: Option<usize>,
    pub to: Option<usize>,
    pub diff: Option<Vec<DiffEntry>>,
    pub diff_selection: Vec<String>,
    /// Folders (relative to the diff's own common root) whose changes are
    /// expanded, rather than collapsed behind a count.
    pub diff_expanded: Vec<String>,
    // Search across every snapshot
    pub global_query: String,
    pub global_results: Option<Vec<GlobalMatch>>,
    // Restoring
    pub sheet: Option<Sheet>,
    pub running: Option<Running>,
    pub busy: bool,
    // Mounting
    pub mounted: Option<MountHandle>,
}

/// What reaches the page.
#[derive(Debug)]
pub enum Message {
    /// The repository was opened, with its snapshots newest first, or not.
    Loaded(Result<Vec<SnapshotSummary>, EngineError>),
    Tab(Tab),
    PickSnapshot(usize),
    Open(String),
    Up,
    Listed(String, Result<Vec<TreeEntry>, EngineError>),
    Search(String),
    SearchNow,
    Found(Result<Vec<TreeEntry>, EngineError>),
    ShowVersions(String),
    VersionsLoaded(String, Result<Vec<FileVersion>, EngineError>),
    Toggle(String, bool),
    ChooseScope,
    ScopeChosen(String),
    FindMissing,
    MissingFound(Result<Vec<MissingEntry>, EngineError>),
    ToggleMissing(String, bool),
    PickFrom(usize),
    PickTo(usize),
    Compare,
    Compared(Result<Vec<DiffEntry>, EngineError>),
    ToggleDiff(String, bool),
    /// Expand or collapse one folder's changes in the Compare tab.
    ToggleDiffFolder(String),
    GlobalSearch(String),
    GlobalSearchNow,
    GlobalFound(Result<Vec<GlobalMatch>, EngineError>),
    /// Jump to `path`'s folder, in `snapshot`, on the Browse tab.
    JumpToMatch(String, String),
    /// Open the restore sheet for the current tab's selection.
    RestoreSelection,
    /// Open the restore sheet for one version of one file.
    RestoreVersion(String, String),
    OpenCopy(String, String),
    /// Download `path` as it is in the current snapshot: the bool is
    /// whether it is a folder rather than a single file.
    Download(String, bool),
    /// Download one older version of a file.
    DownloadVersion(String, String),
    TargetOriginal,
    TargetFolder,
    TargetChosen(String),
    Policy(ConflictPolicy),
    VerifyExisting(bool),
    Ownership(Ownership),
    /// A dry run's answer, with the requests it was worked out for.
    Previewed(Vec<RestoreRequest>, Result<RestorePreview, EngineError>),
    CancelSheet,
    StartRestore,
    Restore(ChildEvent),
    CancelRestore,
    /// Mount the current snapshot as a read-only folder.
    Mount,
    MountPointChosen(String),
    Mounted(Result<MountHandle, EngineError>),
    OpenMountedFolder,
    Unmount,
    Close,
}

/// What the page needs the application to do.
#[derive(Debug)]
pub enum Effect {
    Load,
    List { snapshot: String, dir: String },
    Search { snapshot: String, query: String },
    Versions(String),
    Missing { scope: String, since: i64 },
    Diff { from: String, to: String },
    /// Search every snapshot's tree for `query`.
    GlobalSearch { query: String },
    Preview(Vec<RestoreRequest>),
    Restore(RestoreRequest),
    OpenCopy { snapshot: String, path: String },
    /// Ask where to save `path` from `snapshot`, then write it there.
    Download { snapshot: String, path: String, is_folder: bool },
    PickScope,
    PickTarget,
    /// Tell the user what failed: the message names what was attempted.
    ShowError(Phrase, EngineError),
    /// A restore finished: tell the user where their files are.
    Restored(RestorePreview),
    /// Ask for an empty folder to mount the current snapshot into.
    PickMountPoint,
    /// Mount `snapshot` read-only at `point`.
    Mount { snapshot: String, point: String },
    /// Open the mounted folder in the file manager.
    OpenMounted(String),
    /// Drop a mount, which unmounts it, off the window's thread.
    Unmount(MountHandle),
    /// Stop the restore running in its child process.
    CancelRestore,
    Close,
}

/// No effect.
pub open spec fn nothing(effects: Seq<Effect>) -> bool {
    effects.len() == 0
}

/// `e` shows `error`, after the message `id`.
pub open spec fn shows(e: Effect, id: Seq<char>, error: EngineError) -> bool {
    e matches Effect::ShowError(p, x) && p.is(id) && x == error
}

/// The snapshot at `index` of `snapshots`, by its identifier.
pub open spec fn id_at(snapshots: Seq<SnapshotSummary>, index: Option<usize>) -> Option<Seq<char>> {
    match index {
        Some(i) => if i < snapshots.len() {
            Some(snapshots[i as int].id@)
        } else {
            None
        },
        None => None,
    }
}

/// The folder `p` lies in: `Path::parent`.
pub open spec fn parent_of(p: Seq<char>) -> Option<Seq<char>> {
    let c = components(p);
    if c.len() == 0 || (c.len() == 1 && c[0] == slash()) {
        None
    } else {
        Some(from_components(c.drop_last()))
    }
}

/// The folder `p` lies in, if it has one.
fn parent_of_path(p: &str) -> (r: Option<String>)
    ensures
        match r {
            Some(q) => parent_of(p@) == Some(q@),
            None => parent_of(p@) is None,
        },
{
    let c = components_of(chars_of(p).as_slice());
    if c.len() == 0 || (c.len() == 1 && c[0].len() == 1 && c[0][0] == '/') {
        proof {
            if c@.len() == 1 {
                assert(views(c@)[0] =~= slash());
            }
        }
        return None;
    }
    proof {
        if views(c@).len() == 1 && views(c@)[0] == slash() {
            assert(c@[0]@ =~= slash());
        }
    }
    let mut c = c;
    let ghost before = views(c@);
    c.pop();
    assert(views(c@) =~= before.drop_last());
    Some(string_of(from_components_of(&c).as_slice()))
}

/// `i` is the first of `rs` for `snapshot`.
pub open spec fn is_first_for(rs: Seq<RequestView>, snapshot: Seq<char>, i: int) -> bool {
    &&& 0 <= i < rs.len()
    &&& rs[i].snapshot == snapshot
    &&& forall|j: int| 0 <= j < i ==> (#[trigger] rs[j]).snapshot != snapshot
}

/// The first of `rs` for `snapshot`, if there is one.
pub open spec fn request_for(rs: Seq<RequestView>, snapshot: Seq<char>) -> Option<int> {
    if exists|i: int| is_first_for(rs, snapshot, i) {
        Some(choose|i: int| is_first_for(rs, snapshot, i))
    } else {
        None
    }
}

/// What restoring the selected missing files asks: each comes from the
/// newest snapshot that has it, one request per snapshot, in the order the
/// snapshots first come.
pub open spec fn deleted_requests(missing: Seq<MissingEntry>, selected: Set<Seq<Seq<char>>>) -> Seq<RequestView>
    decreases missing.len(),
{
    if missing.len() == 0 {
        Seq::empty()
    } else {
        let rs = deleted_requests(missing.drop_last(), selected);
        let e = missing.last();
        if !selected.contains(components(e.path@)) {
            rs
        } else {
            match request_for(rs, e.last_seen.id@) {
                Some(i) => rs.update(i, RequestView { paths: rs[i].paths.push(e.path@), ..rs[i] }),
                None => rs.push(plain_request(e.last_seen.id@, seq![e.path@])),
            }
        }
    }
}

/// `t` with `x` put before the first request for a snapshot whose ID it
/// comes before as text, or last.
pub open spec fn insert_by_snapshot(t: Seq<RequestView>, x: RequestView) -> Seq<RequestView>
    decreases t.len(),
{
    if t.len() == 0 {
        seq![x]
    } else if text_less(x.snapshot, t[0].snapshot) {
        seq![x] + t
    } else {
        seq![t[0]] + insert_by_snapshot(t.drop_first(), x)
    }
}

/// The requests of `s` ordered by their snapshots' IDs, as text.
pub open spec fn sort_by_snapshot(s: Seq<RequestView>) -> Seq<RequestView>
    decreases s.len(),
{
    if s.len() == 0 {
        Seq::empty()
    } else {
        insert_by_snapshot(sort_by_snapshot(s.drop_last()), s.last())
    }
}

proof fn lemma_insert_by_snapshot_at(t: Seq<RequestView>, x: RequestView, i: int)
    requires
        0 <= i <= t.len(),
        forall|j: int| 0 <= j < i ==> !text_less(x.snapshot, #[trigger] t[j].snapshot),
    ensures
        insert_by_snapshot(t, x) == t.take(i) + insert_by_snapshot(t.skip(i), x),
    decreases i,
{
    if i > 0 {
        assert(!text_less(x.snapshot, t[0].snapshot));
        lemma_insert_by_snapshot_at(t.drop_first(), x, i - 1);
        assert(t.drop_first().take(i - 1) =~= t.take(i).drop_first());
        assert(t.drop_first().skip(i - 1) =~= t.skip(i));
        assert(t.take(i) =~= seq![t[0]] + t.take(i).drop_first());
    } else {
        assert(t.take(0) =~= Seq::<RequestView>::empty());
        assert(t.skip(0) =~= t);
    }
}

/// `v` ordered by the snapshots' IDs.
fn sort_requests(v: Vec<RestoreRequest>) -> (r: Vec<RestoreRequest>)
    ensures
        request_views(r@) == sort_by_snapshot(request_views(v@)),
{
    let ghost all = request_views(v@);
    let mut rest = v;
    let mut out: Vec<RestoreRequest> = Vec::new();
    let ghost mut k: int = 0;
    while rest.len() > 0
        invariant
            0 <= k <= all.len(),
            request_views(rest@) == all.skip(k),
            request_views(out@) == sort_by_snapshot(all.take(k)),
        decreases rest@.len(),
    {
        let ghost before = request_views(out@);
        let x = rest.remove(0);
        assert(request_views(rest@) =~= all.skip(k + 1)) by {
            assert(all.skip(k + 1) =~= all.skip(k).drop_first());
        }
        assert(request_view(x) == all[k]) by {
            assert(all.skip(k)[0] == all[k]);
        }
        let key = chars_of(x.snapshot.as_str());
        let mut i: usize = 0;
        let mut here = false;
        while i < out.len() && !here
            invariant
                i <= out@.len(),
                key@ == x.snapshot@,
                before == request_views(out@),
                forall|j: int| 0 <= j < i ==> !text_less(x.snapshot@, #[trigger] before[j].snapshot),
                here ==> i < out@.len() && text_less(x.snapshot@, before[i as int].snapshot),
            decreases out@.len() - i, if here { 0int } else { 1int },
        {
            let other = chars_of(out[i].snapshot.as_str());
            if text_before(key.as_slice(), other.as_slice()) {
                here = true;
            } else {
                i = i + 1;
            }
        }
        proof {
            lemma_insert_by_snapshot_at(before, request_view(x), i as int);
            if i < before.len() {
                assert(before.skip(i as int)[0] == before[i as int]);
                assert(insert_by_snapshot(before.skip(i as int), request_view(x)) == seq![request_view(x)]
                    + before.skip(i as int));
            } else {
                assert(before.skip(i as int) =~= Seq::<RequestView>::empty());
            }
            assert(all.take(k + 1).drop_last() =~= all.take(k));
            assert(all.take(k + 1).last() == all[k]);
        }
        let ghost xv = request_view(x);
        out.insert(i, x);
        proof {
            assert(request_views(out@) =~= before.take(i as int) + insert_by_snapshot(before.skip(i as int), xv));
            k = k + 1;
        }
    }
    assert(all.skip(k).len() == 0);
    assert(all.take(k) =~= all);
    out
}

/// No request of `t` is for a snapshot whose ID comes before that of an
/// earlier one.
pub open spec fn in_snapshot_order(t: Seq<RequestView>) -> bool {
    forall|i: int, j: int| 0 <= i < j < t.len() ==> !text_less(t[j].snapshot, t[i].snapshot)
}

proof fn lemma_insert_by_snapshot_keeps(t: Seq<RequestView>, x: RequestView)
    requires
        in_snapshot_order(t),
    ensures
        in_snapshot_order(insert_by_snapshot(t, x)),
        insert_by_snapshot(t, x).len() == t.len() + 1,
        forall|e: RequestView| #[trigger] insert_by_snapshot(t, x).contains(e) <==> (e == x || t.contains(e)),
    decreases t.len(),
{
    let r = insert_by_snapshot(t, x);
    if t.len() == 0 {
        assert(r =~= seq![x]);
        assert forall|e: RequestView| r.contains(e) <==> (e == x || t.contains(e)) by {
            if r.contains(e) {
                assert(r[0] == e);
            }
            if e == x {
                assert(r[0] == x);
            }
        }
    } else if text_less(x.snapshot, t[0].snapshot) {
        assert forall|i: int, j: int| 0 <= i < j < r.len() implies !text_less(r[j].snapshot, r[i].snapshot) by {
            if i == 0 {
                assert(r[j] == t[j - 1]);
                if j - 1 > 0 {
                    assert(!text_less(t[j - 1].snapshot, t[0].snapshot));
                }
                lemma_text_order(t[j - 1].snapshot, x.snapshot, t[0].snapshot);
            } else {
                assert(r[i] == t[i - 1]);
                assert(r[j] == t[j - 1]);
            }
        }
        assert forall|e: RequestView| r.contains(e) <==> (e == x || t.contains(e)) by {
            if r.contains(e) {
                let k = choose|k: int| 0 <= k < r.len() && r[k] == e;
                if k > 0 {
                    assert(t[k - 1] == e);
                }
            }
            if t.contains(e) {
                let k = choose|k: int| 0 <= k < t.len() && t[k] == e;
                assert(r[k + 1] == e);
            }
            if e == x {
                assert(r[0] == x);
            }
        }
    } else {
        let rest = t.drop_first();
        assert(in_snapshot_order(rest)) by {
            assert forall|i: int, j: int| 0 <= i < j < rest.len() implies !text_less(rest[j].snapshot, rest[i].snapshot) by {
                assert(rest[i] == t[i + 1]);
                assert(rest[j] == t[j + 1]);
            }
        }
        lemma_insert_by_snapshot_keeps(rest, x);
        let tail = insert_by_snapshot(rest, x);
        assert(r == seq![t[0]] + tail);
        assert forall|i: int, j: int| 0 <= i < j < r.len() implies !text_less(r[j].snapshot, r[i].snapshot) by {
            if i == 0 {
                assert(r[j] == tail[j - 1]);
                assert(tail.contains(tail[j - 1]));
                if tail[j - 1] != x {
                    assert(rest.contains(tail[j - 1]));
                    let k = choose|k: int| 0 <= k < rest.len() && rest[k] == tail[j - 1];
                    assert(t[k + 1] == rest[k]);
                }
            } else {
                assert(r[i] == tail[i - 1]);
                assert(r[j] == tail[j - 1]);
            }
        }
        assert forall|e: RequestView| r.contains(e) <==> (e == x || t.contains(e)) by {
            if r.contains(e) {
                let k = choose|k: int| 0 <= k < r.len() && r[k] == e;
                if k > 0 {
                    assert(tail[k - 1] == e);
                    assert(tail.contains(e));
                    if e != x {
                        assert(rest.contains(e));
                        let m = choose|m: int| 0 <= m < rest.len() && rest[m] == e;
                        assert(rest[m] == t[m + 1]);
                    }
                } else {
                    assert(t[0] == e);
                }
            }
            if t.contains(e) {
                let k = choose|k: int| 0 <= k < t.len() && t[k] == e;
                if k > 0 {
                    assert(rest[k - 1] == e);
                    assert(tail.contains(e));
                    let m = choose|m: int| 0 <= m < tail.len() && tail[m] == e;
                    assert(r[m + 1] == e);
                } else {
                    assert(r[0] == e);
                }
            }
            if e == x {
                assert(insert_by_snapshot(rest, x).contains(x));
                let m = choose|m: int| 0 <= m < tail.len() && tail[m] == x;
                assert(r[m + 1] == x);
            }
        }
    }
}

/// Ordering requests by snapshot puts their IDs in order, and keeps every
/// request and no other, as many as there were.
pub proof fn lemma_sort_by_snapshot(s: Seq<RequestView>)
    ensures
        in_snapshot_order(sort_by_snapshot(s)),
        sort_by_snapshot(s).len() == s.len(),
        forall|e: RequestView| #[trigger] sort_by_snapshot(s).contains(e) <==> s.contains(e),
    decreases s.len(),
{
    if s.len() > 0 {
        let rest = s.drop_last();
        lemma_sort_by_snapshot(rest);
        lemma_insert_by_snapshot_keeps(sort_by_snapshot(rest), s.last());
        assert(s =~= rest.push(s.last()));
        assert(sort_by_snapshot(s) == insert_by_snapshot(sort_by_snapshot(rest), s.last()));
        assert forall|e: RequestView| sort_by_snapshot(s).contains(e) <==> s.contains(e) by {
            lemma_seq_contains_after_push(rest, s.last(), e);
            assert(insert_by_snapshot(sort_by_snapshot(rest), s.last()).contains(e) <==> (e == s.last() || sort_by_snapshot(rest).contains(e)));
            assert(sort_by_snapshot(rest).contains(e) <==> rest.contains(e));
        }
    }
}

/// What the selection on the page's tab asks to restore: the selection of
/// the snapshot browsed, in path order; the deleted files, each from its
/// own snapshot, one request per snapshot in the order of their IDs; the
/// changes, in path order, as they were in the older snapshot compared;
/// nothing from a search, whose matches are restored from the Browse tab.
pub open spec fn selection_views(p: RestorePage) -> Seq<RequestView> {
    match p.tab {
        Tab::Browse => match id_at(p.snapshots@, p.snapshot) {
            Some(id) => seq![plain_request(id, sort_by_path(texts(p.selection@)))],
            None => Seq::empty(),
        },
        Tab::Deleted => match p.missing {
            Some(missing) => sort_by_snapshot(deleted_requests(missing@, path_set(p.missing_selection@))),
            None => Seq::empty(),
        },
        Tab::Compare => match id_at(p.snapshots@, p.from) {
            Some(id) => seq![plain_request(id, sort_by_path(texts(p.diff_selection@)))],
            None => Seq::empty(),
        },
        Tab::Search => Seq::empty(),
    }
}

/// `after` and `effects` are what listing the folder browsed gives: its
/// entries and the versions shown are forgotten until it answers; with no
/// snapshot chosen, nothing happens.
pub open spec fn listed(before: RestorePage, after: RestorePage, effects: Seq<Effect>) -> bool {
    match id_at(before.snapshots@, before.snapshot) {
        None => after == before && nothing(effects),
        Some(id) => {
            &&& after == RestorePage { entries: None, expanded: None, ..before }
            &&& effects.len() == 1
            &&& effects[0] matches Effect::List { snapshot, dir } && snapshot@ == id && dir@ == before.dir@
        },
    }
}

/// `after` and `effects` are what asking for a new dry run gives: the last
/// one is forgotten, and one is asked for the sheet's choices as they are
/// now, once a target folder is chosen where one is needed.
pub open spec fn refreshed(before: RestorePage, after: RestorePage, effects: Seq<Effect>) -> bool {
    match before.sheet {
        None => after == before && nothing(effects),
        Some(sheet) => match finished_views(sheet) {
            Some(requests) => {
                &&& after == RestorePage {
                    sheet: Some(Sheet { preview: None, previewing: true, ..sheet }),
                    ..before
                }
                &&& effects.len() == 1
                &&& effects[0] matches Effect::Preview(asked) && request_views(asked@) == requests
            },
            None => after == RestorePage { sheet: Some(Sheet { preview: None, ..sheet }), ..before }
                && nothing(effects),
        },
    }
}

/// `after` and `effects` are what opening the sheet for `requests` gives:
/// nothing when they restore nothing; otherwise the sheet, with the
/// original place, keeping both copies of a file that differs, and a dry
/// run asked for at once.
pub open spec fn sheet_opened(
    before: RestorePage,
    requests: Seq<RequestView>,
    after: RestorePage,
    effects: Seq<Effect>,
) -> bool {
    if requests.len() == 0 || forall|i: int| 0 <= i < requests.len() ==> (#[trigger] requests[i]).paths.len()
        == 0 {
        after == before && nothing(effects)
    } else {
        &&& after.sheet matches Some(s) && request_views(s.requests@) == requests && s.target
            == TargetChoice::Original && s.policy == ConflictPolicy::KeepBoth && !s.verify_existing
            && s.ownership == Ownership::Preserve && s.preview is None && s.previewing
        &&& after == RestorePage { sheet: after.sheet, ..before }
        &&& effects.len() == 1
        &&& effects[0] matches Effect::Preview(asked) && request_views(asked@) == as_opened(requests)
    }
}

/// `requests` as a sheet first sends them: to the original place, keeping
/// both copies of a file that differs, trusting an unchanged-looking file,
/// and with the owners recorded.
pub open spec fn as_opened(requests: Seq<RequestView>) -> Seq<RequestView> {
    Seq::new(
        requests.len(),
        |i: int|
            RequestView {
                target: None,
                policy: ConflictPolicy::KeepBoth,
                verify_existing: false,
                ownership: Ownership::Preserve,
                ..requests[i]
            },
    )
}

/// One effect.
fn only(effect: Effect) -> (r: Vec<Effect>)
    ensures
        r@ == seq![effect],
{
    let mut effects: Vec<Effect> = Vec::new();
    effects.push(effect);
    assert(effects@ =~= seq![effect]);
    effects
}

/// The identifier of the first of `snapshots` that is `id`.
fn position_of_snapshot(snapshots: &Vec<SnapshotSummary>, id: &String) -> (r: Option<usize>)
    ensures
        match r {
            Some(i) => i < snapshots@.len() && snapshots@[i as int].id@ == id@ && forall|j: int|
                0 <= j < i ==> (#[trigger] snapshots@[j]).id@ != id@,
            None => forall|j: int| 0 <= j < snapshots@.len() ==> (#[trigger] snapshots@[j]).id@ != id@,
        },
{
    let mut i: usize = 0;
    while i < snapshots.len()
        invariant
            i <= snapshots@.len(),
            forall|j: int| 0 <= j < i ==> (#[trigger] snapshots@[j]).id@ != id@,
        decreases snapshots@.len() - i,
    {
        if snapshots[i].id == *id {
            return Some(i);
        }
        i = i + 1;
    }
    None
}

/// The requests for the selected missing files.
fn deleted_requests_of(missing: &Vec<MissingEntry>, selection: &Vec<String>) -> (r: Vec<RestoreRequest>)
    ensures
        request_views(r@) == deleted_requests(missing@, path_set(selection@)),
{
    let ghost selected = path_set(selection@);
    let mut r: Vec<RestoreRequest> = Vec::new();
    let mut k: usize = 0;
    while k < missing.len()
        invariant
            k <= missing@.len(),
            selected == path_set(selection@),
            request_views(r@) == deleted_requests(missing@.take(k as int), selected),
        decreases missing@.len() - k,
    {
        let entry = &missing[k];
        assert(missing@.take(k + 1).drop_last() =~= missing@.take(k as int));
        assert(missing@.take(k + 1).last() == *entry);
        let ghost rs = request_views(r@);
        let is_selected = match find_path(selection, entry.path.as_str()) {
            Some(i) => {
                assert(selected.contains(components(entry.path@))) by {
                    assert(components(selection@[i as int]@) == components(entry.path@));
                }
                true
            },
            None => {
                assert(!selected.contains(components(entry.path@)));
                false
            },
        };
        if is_selected {
            let mut found: Option<usize> = None;
            let mut i: usize = 0;
            while i < r.len()
                invariant
                    i <= r@.len(),
                    rs == request_views(r@),
                    match found {
                        None => forall|j: int| 0 <= j < i ==> (#[trigger] rs[j]).snapshot != entry.last_seen.id@,
                        Some(f) => f < r@.len() && is_first_for(rs, entry.last_seen.id@, f as int),
                    },
                decreases r@.len() - i,
            {
                assert(rs[i as int] == request_view(r@[i as int]));
                if found.is_none() && r[i].snapshot == entry.last_seen.id {
                    found = Some(i);
                }
                i = i + 1;
            }
            match found {
                Some(f) => {
                    proof {
                        let c = choose|c: int| is_first_for(rs, entry.last_seen.id@, c);
                        if c < f {
                            assert(rs[c].snapshot != entry.last_seen.id@);
                        } else if c > f {
                            assert(rs[f as int].snapshot != entry.last_seen.id@);
                        }
                    }
                    let mut request = r.remove(f);
                    let ghost old_paths = request.paths@;
                    request.paths.push(entry.path.clone());
                    assert(texts(request.paths@) =~= texts(old_paths).push(entry.path@));
                    r.insert(f, request);
                    assert(request_views(r@) =~= rs.update(
                        f as int,
                        RequestView { paths: rs[f as int].paths.push(entry.path@), ..rs[f as int] },
                    ));
                },
                None => {
                    assert(!exists|c: int| is_first_for(rs, entry.last_seen.id@, c));
                    let mut paths: Vec<String> = Vec::new();
                    paths.push(entry.path.clone());
                    assert(texts(paths@) =~= seq![entry.path@]);
                    r.push(
                        RestoreRequest {
                            snapshot: entry.last_seen.id.clone(),
                            paths,
                            target: Target::Original,
                            policy: ConflictPolicy::KeepBoth,
                            verify_existing: false,
                            ownership: Ownership::Preserve,
                        },
                    );
                    assert(request_views(r@) =~= rs.push(
                        plain_request(entry.last_seen.id@, seq![entry.path@]),
                    ));
                },
            }
        }
        k = k + 1;
    }
    assert(missing@.take(missing@.len() as int) =~= missing@);
    r
}

/// The first of `snapshots` whose identifier is `id`, if one is.
pub open spec fn snapshot_index(snapshots: Seq<SnapshotSummary>, id: Seq<char>) -> Option<int> {
    if exists|i: int| 0 <= i < snapshots.len() && snapshots[i].id@ == id {
        Some(
            choose|i: int|
                0 <= i < snapshots.len() && snapshots[i].id@ == id && forall|j: int|
                    0 <= j < i ==> (#[trigger] snapshots[j]).id@ != id,
        )
    } else {
        None
    }
}

/// A restore that reports nothing restored.
pub open spec fn nothing_restored() -> RestorePreview {
    RestorePreview { files: 0, bytes: 0, conflicts: 0, unchanged: 0 }
}

/// `now` less the window "Deleted files" looks back over, or the earliest
/// time there is.
pub open spec fn window_start(now: i64) -> i64 {
    if now - DELETED_WINDOW < i64::MIN {
        i64::MIN
    } else {
        (now - DELETED_WINDOW) as i64
    }
}

/// `after` and `effects` are what looking for deleted files under the
/// page's scope at `now` gives: the last answer and its selection are
/// forgotten while the search runs.
pub open spec fn missing_searched(before: RestorePage, after: RestorePage, effects: Seq<Effect>, now: i64) -> bool {
    &&& after == RestorePage {
        busy: true,
        missing: None,
        missing_selection: after.missing_selection,
        ..before
    }
    &&& after.missing_selection@.len() == 0
    &&& effects.len() == 1
    &&& effects[0] matches Effect::Missing { scope, since } && scope@ == before.scope@ && since == window_start(
        now,
    )
}

/// The messages of the Browse tab.
pub open spec fn browse_stepped(before: RestorePage, message: Message, after: RestorePage, effects: Seq<Effect>) -> bool {
    let id = id_at(before.snapshots@, before.snapshot);
    match message {
        Message::Loaded(Ok(snapshots)) => {
            let loaded = RestorePage { snapshots, loaded: true, ..before };
            if snapshots@.len() == 0 {
                after == loaded && nothing(effects)
            } else {
                listed(
                    RestorePage {
                        snapshot: Some(0),
                        from: if snapshots@.len() > 1 {
                            Some(1)
                        } else {
                            None
                        },
                        to: Some(0),
                        ..loaded
                    },
                    after,
                    effects,
                )
            }
        },
        Message::Loaded(Err(error)) => after == before && effects.len() == 2 && shows(
            effects[0],
            "open-repo-failed"@,
            error,
        ) && effects[1] is Close,
        Message::Tab(tab) => after == RestorePage { tab, ..before } && nothing(effects),
        Message::PickSnapshot(index) => after.selection@.len() == 0 && listed(
            RestorePage { snapshot: Some(index), selection: after.selection, results: None, ..before },
            after,
            effects,
        ),
        Message::Open(dir) => listed(RestorePage { dir, results: None, ..before }, after, effects),
        Message::Up => match parent_of(before.dir@) {
            Some(parent) => after.dir@ == parent && listed(RestorePage { dir: after.dir, ..before }, after, effects),
            None => listed(before, after, effects),
        },
        Message::Listed(dir, result) => if components(dir@) != components(before.dir@) {
            after == before && nothing(effects)
        } else {
            match result {
                Ok(entries) => after == RestorePage { entries: Some(entries), ..before } && nothing(effects),
                Err(error) => if components(before.dir@) == components("/"@) {
                    &&& after == RestorePage { entries: after.entries, ..before }
                    &&& after.entries matches Some(v) && v@.len() == 0
                    &&& effects.len() == 1 && shows(effects[0], "browse-failed"@, error)
                } else if components(before.dir@) != components(before.root@) {
                    after.dir@ == before.root@ && listed(RestorePage { dir: after.dir, ..before }, after, effects)
                } else {
                    after.dir@ == "/"@ && listed(RestorePage { dir: after.dir, ..before }, after, effects)
                },
            }
        },
        Message::Search(text) => after == RestorePage {
            search: text,
            results: if text@.len() == 0 {
                None
            } else {
                before.results
            },
            ..before
        } && nothing(effects),
        Message::SearchNow => match id {
            Some(id) => if trim(before.search@).len() > 0 {
                &&& after == RestorePage { busy: true, ..before }
                &&& effects.len() == 1
                &&& effects[0] matches Effect::Search { snapshot, query } && snapshot@ == id && query@ == trim(
                    before.search@,
                )
            } else {
                after == before && nothing(effects)
            },
            None => after == before && nothing(effects),
        },
        Message::Found(result) => match result {
            Ok(found) => after == RestorePage { busy: false, results: Some(found), ..before } && nothing(effects),
            Err(error) => after == RestorePage { busy: false, ..before } && effects.len() == 1 && shows(
                effects[0],
                "browse-failed"@,
                error,
            ),
        },
        Message::ShowVersions(path) => if before.expanded matches Some(x) && components(x@) == components(
            path@,
        ) {
            after == RestorePage { expanded: None, ..before } && nothing(effects)
        } else {
            after == RestorePage { expanded: Some(path), versions: None, ..before } && effects
                == seq![Effect::Versions(path)]
        },
        Message::VersionsLoaded(path, result) => if before.expanded matches Some(x) && components(x@)
            == components(path@) {
            match result {
                Ok(versions) => after == RestorePage { versions: Some(versions), ..before } && nothing(effects),
                Err(error) => after == before && effects.len() == 1 && shows(effects[0], "browse-failed"@, error),
            }
        } else {
            after == before && nothing(effects)
        },
        Message::Toggle(path, on) => {
            &&& after == RestorePage { selection: after.selection, ..before }
            &&& path_set(after.selection@) == if on {
                path_set(before.selection@).insert(components(path@))
            } else {
                path_set(before.selection@).remove(components(path@))
            }
            &&& nothing(effects)
        },
        Message::JumpToMatch(snapshot, path) => match snapshot_index(before.snapshots@, snapshot@) {
            Some(index) => {
                &&& after.dir@ == match parent_of(path@) {
                    Some(parent) => parent,
                    None => "/"@,
                }
                &&& after.selection@.len() == 0
                &&& listed(
                    RestorePage {
                        tab: Tab::Browse,
                        snapshot: Some(index as usize),
                        selection: after.selection,
                        results: None,
                        expanded: None,
                        dir: after.dir,
                        ..before
                    },
                    after,
                    effects,
                )
            },
            None => after == before && nothing(effects),
        },
        Message::OpenCopy(snapshot, path) => after == before && effects == seq![
            Effect::OpenCopy { snapshot, path },
        ],
        Message::Download(path, is_folder) => after == before && match id {
            Some(id) => effects.len() == 1 && (effects[0] matches Effect::Download {
                snapshot,
                path: p,
                is_folder: f,
            } && snapshot@ == id && p == path && f == is_folder),
            None => nothing(effects),
        },
        Message::DownloadVersion(snapshot, path) => after == before && effects == seq![
            Effect::Download { snapshot, path, is_folder: false },
        ],
        _ => false,
    }
}

/// The messages of the Deleted, Compare and Search tabs.
pub open spec fn search_stepped(
    before: RestorePage,
    message: Message,
    after: RestorePage,
    effects: Seq<Effect>,
    now: i64,
) -> bool {
    match message {
        Message::ChooseScope => after == before && effects.len() == 1 && effects[0] is PickScope,
        Message::ScopeChosen(scope) => missing_searched(RestorePage { scope, ..before }, after, effects, now),
        Message::FindMissing => missing_searched(before, after, effects, now),
        Message::MissingFound(result) => match result {
            Ok(found) => after == RestorePage { busy: false, missing: Some(found), ..before } && nothing(effects),
            Err(error) => after == RestorePage { busy: false, ..before } && effects.len() == 1 && shows(
                effects[0],
                "browse-failed"@,
                error,
            ),
        },
        Message::ToggleMissing(path, on) => {
            &&& after == RestorePage { missing_selection: after.missing_selection, ..before }
            &&& path_set(after.missing_selection@) == if on {
                path_set(before.missing_selection@).insert(components(path@))
            } else {
                path_set(before.missing_selection@).remove(components(path@))
            }
            &&& nothing(effects)
        },
        Message::PickFrom(index) => after == RestorePage { from: Some(index), diff: None, ..before } && nothing(
            effects,
        ),
        Message::PickTo(index) => after == RestorePage { to: Some(index), diff: None, ..before } && nothing(
            effects,
        ),
        Message::Compare => match (id_at(before.snapshots@, before.from), id_at(before.snapshots@, before.to)) {
            (Some(from), Some(to)) => {
                &&& after == RestorePage {
                    busy: true,
                    diff_selection: after.diff_selection,
                    diff_expanded: after.diff_expanded,
                    ..before
                }
                &&& after.diff_selection@.len() == 0 && after.diff_expanded@.len() == 0
                &&& effects.len() == 1
                &&& effects[0] matches Effect::Diff { from: f, to: t } && f@ == from && t@ == to
            },
            _ => after == before && nothing(effects),
        },
        Message::Compared(result) => match result {
            Ok(diff) => after == RestorePage { busy: false, diff: Some(diff), ..before } && nothing(effects),
            Err(error) => after == RestorePage { busy: false, ..before } && effects.len() == 1 && shows(
                effects[0],
                "browse-failed"@,
                error,
            ),
        },
        Message::ToggleDiff(path, on) => {
            &&& after == RestorePage { diff_selection: after.diff_selection, ..before }
            &&& path_set(after.diff_selection@) == if on {
                path_set(before.diff_selection@).insert(components(path@))
            } else {
                path_set(before.diff_selection@).remove(components(path@))
            }
            &&& nothing(effects)
        },
        Message::ToggleDiffFolder(folder) => {
            let key = components(folder@);
            &&& after == RestorePage { diff_expanded: after.diff_expanded, ..before }
            &&& path_set(after.diff_expanded@) == if path_set(before.diff_expanded@).contains(key) {
                path_set(before.diff_expanded@).remove(key)
            } else {
                path_set(before.diff_expanded@).insert(key)
            }
            &&& nothing(effects)
        },
        Message::GlobalSearch(text) => after == RestorePage { global_query: text, ..before } && nothing(effects),
        Message::GlobalSearchNow => if trim(before.global_query@).len() == 0 {
            after == RestorePage { global_results: None, ..before } && nothing(effects)
        } else {
            &&& after == RestorePage { busy: true, ..before }
            &&& effects.len() == 1
            &&& effects[0] matches Effect::GlobalSearch { query } && query@ == before.global_query@
        },
        Message::GlobalFound(result) => match result {
            Ok(found) => after == RestorePage { busy: false, global_results: Some(found), ..before } && nothing(
                effects,
            ),
            Err(error) => after == RestorePage { busy: false, ..before } && effects.len() == 1 && shows(
                effects[0],
                "browse-failed"@,
                error,
            ),
        },
        _ => false,
    }
}

/// `before` with its sheet, if one is open, changed to `sheet`.
pub open spec fn with_sheet(before: RestorePage, sheet: Option<Sheet>) -> RestorePage {
    match before.sheet {
        Some(_) => RestorePage { sheet, ..before },
        None => before,
    }
}

/// A restore in a child process reports `event`: the next request of the
/// queue starts when one is done; when the last is, the selections are
/// cleared, the user is told, and the deleted files are looked for again
/// if they were listed; a failure ends the whole restore.
pub open spec fn restore_followed(
    before: RestorePage,
    event: ChildEvent,
    after: RestorePage,
    effects: Seq<Effect>,
    now: i64,
) -> bool {
    match before.running {
        None => after == before && nothing(effects),
        Some(run) => match event {
            ChildEvent::Started => after == RestorePage {
                running: Some(Running { started: true, ..run }),
                ..before
            } && nothing(effects),
            ChildEvent::Progress(progress) => after == RestorePage {
                running: Some(Running { progress: Some(progress), ..run }),
                ..before
            } && nothing(effects),
            ChildEvent::Done(done) => if run.queue@.len() > 0 {
                &&& after == RestorePage { running: after.running, ..before }
                &&& after.running matches Some(next) && !next.started && next.progress is None && request_views(
                    next.queue@,
                ) == request_views(run.queue@).drop_first()
                &&& effects.len() == 1
                &&& effects[0] matches Effect::Restore(r) && request_view(r) == request_view(run.queue@[0])
            } else {
                let cleared = RestorePage {
                    running: None,
                    selection: after.selection,
                    missing_selection: after.missing_selection,
                    diff_selection: after.diff_selection,
                    ..before
                };
                &&& after.selection@.len() == 0 && after.diff_selection@.len() == 0
                &&& effects.len() >= 1
                &&& effects[0] == Effect::Restored(
                    match done.restored {
                        Some(r) => r,
                        None => nothing_restored(),
                    },
                )
                &&& if before.tab == Tab::Deleted && before.missing is Some {
                    missing_searched(
                        RestorePage { missing_selection: cleared.missing_selection, ..cleared },
                        after,
                        effects.drop_first(),
                        now,
                    )
                } else {
                    after == cleared && after.missing_selection@.len() == 0 && effects.len() == 1
                }
            },
            ChildEvent::Failed(error) => after == RestorePage { running: None, ..before } && effects.len() == 1
                && shows(effects[0], "restore-failed"@, error),
        },
    }
}

/// A choice made in the sheet.
pub enum Choice {
    Original,
    Folder(String),
    Policy(ConflictPolicy),
    Verify(bool),
    Ownership(Ownership),
}

/// `sheet` with `choice` made.
pub open spec fn chosen(sheet: Sheet, choice: Choice) -> Sheet {
    match choice {
        Choice::Original => Sheet { target: TargetChoice::Original, ..sheet },
        Choice::Folder(folder) => Sheet { target: TargetChoice::Folder(Some(folder)), ..sheet },
        Choice::Policy(policy) => Sheet { policy, ..sheet },
        Choice::Verify(on) => Sheet { verify_existing: on, ..sheet },
        Choice::Ownership(ownership) => Sheet { ownership, ..sheet },
    }
}

/// A choice made in the open sheet asks for a new dry run.
pub open spec fn sheet_changed(before: RestorePage, choice: Choice, after: RestorePage, effects: Seq<Effect>) -> bool {
    match before.sheet {
        Some(s) => refreshed(RestorePage { sheet: Some(chosen(s, choice)), ..before }, after, effects),
        None => after == before && nothing(effects),
    }
}

/// A dry run's answer counts only for the choices it was asked for: an
/// answer for choices the user has since changed is dropped.
pub open spec fn preview_taken(
    before: RestorePage,
    asked: Vec<RestoreRequest>,
    result: Result<RestorePreview, EngineError>,
    after: RestorePage,
    effects: Seq<Effect>,
) -> bool {
    &&& nothing(effects)
    &&& match before.sheet {
        Some(s) => if finished_views(s) == Some(request_views(asked@)) {
            after == RestorePage { sheet: Some(Sheet { previewing: false, preview: Some(result), ..s }), ..before }
        } else {
            after == before
        },
        None => after == before,
    }
}

/// Nothing is written until the dry run has said what will happen, for
/// exactly these choices: then the sheet closes and the first request
/// starts, the rest queued behind it.
pub open spec fn restore_started(before: RestorePage, after: RestorePage, effects: Seq<Effect>) -> bool {
    match before.sheet {
        Some(s) => if !s.previewing && (s.preview matches Some(Ok(_))) && finished_views(s) is Some {
            let requests = finished_views(s).unwrap();
            if requests.len() == 0 {
                after == RestorePage { sheet: None, ..before } && nothing(effects)
            } else {
                &&& after == RestorePage { sheet: None, running: after.running, ..before }
                &&& after.running matches Some(run) && !run.started && run.progress is None && request_views(
                    run.queue@,
                ) == requests.drop_first()
                &&& effects.len() == 1
                &&& effects[0] matches Effect::Restore(first) && request_view(first) == requests[0]
            }
        } else {
            after == before && nothing(effects)
        },
        None => after == before && nothing(effects),
    }
}

/// The messages of the restore sheet, the restore itself and the mount.
pub open spec fn sheet_stepped(
    before: RestorePage,
    message: Message,
    after: RestorePage,
    effects: Seq<Effect>,
    now: i64,
) -> bool {
    let id = id_at(before.snapshots@, before.snapshot);
    match message {
        Message::RestoreSelection => sheet_opened(before, selection_views(before), after, effects),
        Message::RestoreVersion(snapshot, path) => sheet_opened(
            before,
            seq![plain_request(snapshot@, seq![path@])],
            after,
            effects,
        ),
        Message::TargetOriginal => sheet_changed(before, Choice::Original, after, effects),
        Message::TargetFolder => after == with_sheet(
            before,
            match before.sheet {
                Some(s) => Some(Sheet { target: TargetChoice::Folder(None), preview: None, ..s }),
                None => None,
            },
        ) && effects.len() == 1 && effects[0] is PickTarget,
        Message::TargetChosen(folder) => sheet_changed(before, Choice::Folder(folder), after, effects),
        Message::Policy(policy) => sheet_changed(before, Choice::Policy(policy), after, effects),
        Message::VerifyExisting(on) => sheet_changed(before, Choice::Verify(on), after, effects),
        Message::Ownership(ownership) => sheet_changed(before, Choice::Ownership(ownership), after, effects),
        Message::Previewed(asked, result) => preview_taken(before, asked, result, after, effects),
        Message::CancelSheet => after == RestorePage { sheet: None, ..before } && nothing(effects),
        Message::StartRestore => restore_started(before, after, effects),
        Message::Restore(event) => restore_followed(before, event, after, effects, now),
        Message::CancelRestore => match before.running {
            Some(run) => {
                &&& after == RestorePage { running: after.running, ..before }
                &&& after.running matches Some(r) && r.started == run.started && r.progress == run.progress
                    && r.queue@.len() == 0
                &&& if run.started {
                    effects.len() == 1 && effects[0] is CancelRestore
                } else {
                    nothing(effects)
                }
            },
            None => after == before && nothing(effects),
        },
        Message::Mount => after == before && effects.len() == 1 && effects[0] is PickMountPoint,
        Message::MountPointChosen(point) => after == before && match id {
            Some(id) => effects.len() == 1 && (effects[0] matches Effect::Mount { snapshot, point: p }
                && snapshot@ == id && p == point),
            None => nothing(effects),
        },
        Message::Mounted(result) => match result {
            Ok(handle) => after == RestorePage { mounted: Some(handle), ..before } && nothing(effects),
            Err(error) => after == before && effects.len() == 1 && shows(effects[0], "mount-failed"@, error),
        },
        Message::OpenMountedFolder => after == before && match before.mounted {
            Some(handle) => effects.len() == 1 && (effects[0] matches Effect::OpenMounted(p) && p@
                == handle.point@),
            None => nothing(effects),
        },
        Message::Unmount => match before.mounted {
            Some(handle) => after == RestorePage { mounted: None, ..before } && effects == seq![
                Effect::Unmount(handle),
            ],
            None => after == before && nothing(effects),
        },
        Message::Close => match before.mounted {
            Some(handle) => after == RestorePage { mounted: None, ..before } && effects == seq![
                Effect::Unmount(handle),
                Effect::Close,
            ],
            None => after == before && effects == seq![Effect::Close],
        },
        _ => false,
    }
}

/// `message` belongs to the Browse tab.
pub open spec fn of_browse(message: Message) -> bool {
    ||| message is Loaded
    ||| message is Tab
    ||| message is PickSnapshot
    ||| message is Open
    ||| message is Up
    ||| message is Listed
    ||| message is Search
    ||| message is SearchNow
    ||| message is Found
    ||| message is ShowVersions
    ||| message is VersionsLoaded
    ||| message is Toggle
    ||| message is JumpToMatch
    ||| message is OpenCopy
    ||| message is Download
    ||| message is DownloadVersion
}

/// `message` belongs to the Deleted, Compare or Search tabs.
pub open spec fn of_search(message: Message) -> bool {
    ||| message is ChooseScope
    ||| message is ScopeChosen
    ||| message is FindMissing
    ||| message is MissingFound
    ||| message is ToggleMissing
    ||| message is PickFrom
    ||| message is PickTo
    ||| message is Compare
    ||| message is Compared
    ||| message is ToggleDiff
    ||| message is ToggleDiffFolder
    ||| message is GlobalSearch
    ||| message is GlobalSearchNow
    ||| message is GlobalFound
}

/// `after` and `effects` are what `message` at `now` makes of `before`.
pub open spec fn stepped(before: RestorePage, message: Message, after: RestorePage, effects: Seq<Effect>, now: i64) -> bool {
    if of_browse(message) {
        browse_stepped(before, message, after, effects)
    } else if of_search(message) {
        search_stepped(before, message, after, effects, now)
    } else {
        sheet_stepped(before, message, after, effects, now)
    }
}

/// Whether `a` and `b` are the same requests.
fn same_requests(a: &Vec<RestoreRequest>, b: &Vec<RestoreRequest>) -> (r: bool)
    ensures
        r == (request_views(a@) == request_views(b@)),
{
    if a.len() != b.len() {
        assert(request_views(a@).len() != request_views(b@).len());
        return false;
    }
    let mut i: usize = 0;
    while i < a.len()
        invariant
            a@.len() == b@.len(),
            i <= a@.len(),
            forall|j: int| 0 <= j < i ==> request_view(#[trigger] a@[j]) == request_view(b@[j]),
        decreases a@.len() - i,
    {
        let x = &a[i];
        let y = &b[i];
        let same_target = match (&x.target, &y.target) {
            (Target::Original, Target::Original) => true,
            (Target::Folder(f), Target::Folder(g)) => *f == *g,
            _ => false,
        };
        let same_paths = x.paths.len() == y.paths.len() && {
            let mut k: usize = 0;
            let mut all = true;
            while k < x.paths.len()
                invariant
                    x.paths@.len() == y.paths@.len(),
                    k <= x.paths@.len(),
                    all == forall|t: int| 0 <= t < k ==> (#[trigger] x.paths@[t])@ == y.paths@[t]@,
                decreases x.paths@.len() - k,
            {
                if x.paths[k] != y.paths[k] {
                    all = false;
                }
                k = k + 1;
            }
            all
        };
        if !(x.snapshot == y.snapshot && same_paths && same_target && x.policy == y.policy
            && x.verify_existing == y.verify_existing && x.ownership == y.ownership) {
            proof {
                if request_views(a@) == request_views(b@) {
                    assert(request_view(a@[i as int]) == request_views(a@)[i as int]);
                    assert(request_view(b@[i as int]) == request_views(b@)[i as int]);
                    if x.paths@.len() == y.paths@.len() {
                        assert forall|t: int| 0 <= t < x.paths@.len() implies (#[trigger] x.paths@[t])@
                            == y.paths@[t]@ by {
                            assert(texts(x.paths@)[t] == x.paths@[t]@);
                            assert(texts(y.paths@)[t] == y.paths@[t]@);
                        }
                    } else {
                        assert(texts(x.paths@).len() != texts(y.paths@).len());
                    }
                }
            }
            return false;
        }
        assert(texts(x.paths@) =~= texts(y.paths@));
        i = i + 1;
    }
    assert(request_views(a@) =~= request_views(b@));
    true
}

impl RestorePage {
    /// The page for the profile `profile_id`, browsing from `root`, the
    /// profile's first folder; the repository is to be opened.
    pub fn new(profile_id: String, root: String) -> (r: (RestorePage, Vec<Effect>))
        ensures
            r.0.profile_id == profile_id,
            !r.0.loaded,
            r.0.snapshots@.len() == 0,
            r.0.tab == Tab::Browse,
            r.0.snapshot is None,
            r.0.dir == root,
            r.0.root == root,
            r.0.scope == root,
            r.0.entries is None,
            r.0.search@.len() == 0,
            r.0.results is None,
            r.0.expanded is None,
            r.0.versions is None,
            r.0.selection@.len() == 0,
            r.0.missing is None,
            r.0.missing_selection@.len() == 0,
            r.0.from is None,
            r.0.to is None,
            r.0.diff is None,
            r.0.diff_selection@.len() == 0,
            r.0.diff_expanded@.len() == 0,
            r.0.global_query@.len() == 0,
            r.0.global_results is None,
            r.0.sheet is None,
            r.0.running is None,
            !r.0.busy,
            r.0.mounted is None,
            r.1@ == seq![Effect::Load],
    {
        let page = RestorePage {
            profile_id,
            loaded: false,
            snapshots: Vec::new(),
            tab: Tab::Browse,
            snapshot: None,
            dir: root.clone(),
            root: root.clone(),
            entries: None,
            search: String::new(),
            results: None,
            expanded: None,
            versions: None,
            selection: Vec::new(),
            scope: root,
            missing: None,
            missing_selection: Vec::new(),
            from: None,
            to: None,
            diff: None,
            diff_selection: Vec::new(),
            diff_expanded: Vec::new(),
            global_query: String::new(),
            global_results: None,
            sheet: None,
            running: None,
            busy: false,
            mounted: None,
        };
        (page, only(Effect::Load))
    }

    /// A restore is running.
    pub fn is_restoring(&self) -> (r: bool)
        ensures
            r == self.running is Some,
    {
        self.running.is_some()
    }

    /// The snapshot browsed, by its identifier.
    pub fn snapshot_id(&self) -> (r: Option<String>)
        ensures
            match r {
                Some(id) => id_at(self.snapshots@, self.snapshot) == Some(id@),
                None => id_at(self.snapshots@, self.snapshot) is None,
            },
    {
        match self.snapshot {
            Some(index) => {
                if index < self.snapshots.len() {
                    Some(self.snapshots[index].id.clone())
                } else {
                    None
                }
            },
            None => None,
        }
    }

    /// List the folder browsed.
    fn list(&mut self) -> (r: Vec<Effect>)
        ensures
            listed(*old(self), *final(self), r@),
    {
        match self.snapshot_id() {
            Some(snapshot) => {
                self.entries = None;
                self.expanded = None;
                only(Effect::List { snapshot, dir: self.dir.clone() })
            },
            None => Vec::new(),
        }
    }

    /// Ask for a dry run of the sheet's choices as they are now.
    fn refresh_preview(&mut self) -> (r: Vec<Effect>)
        ensures
            refreshed(*old(self), *final(self), r@),
    {
        match self.sheet.take() {
            Some(mut sheet) => {
                sheet.preview = None;
                match sheet.finished_requests() {
                    Some(requests) => {
                        sheet.previewing = true;
                        self.sheet = Some(sheet);
                        only(Effect::Preview(requests))
                    },
                    None => {
                        self.sheet = Some(sheet);
                        Vec::new()
                    },
                }
            },
            None => Vec::new(),
        }
    }

    /// Open the sheet for `requests`, unless they restore nothing.
    fn open_sheet(&mut self, requests: Vec<RestoreRequest>) -> (r: Vec<Effect>)
        ensures
            sheet_opened(*old(self), request_views(requests@), *final(self), r@),
    {
        let ghost wanted = request_views(requests@);
        let mut any = false;
        let mut i: usize = 0;
        while i < requests.len()
            invariant
                i <= requests@.len(),
                wanted == request_views(requests@),
                any == exists|j: int| 0 <= j < i && (#[trigger] wanted[j]).paths.len() > 0,
            decreases requests@.len() - i,
        {
            assert(wanted[i as int].paths.len() == requests@[i as int].paths@.len());
            if requests[i].paths.len() > 0 {
                any = true;
            }
            i = i + 1;
        }
        if !any {
            return Vec::new();
        }
        let sheet = Sheet {
            requests,
            target: TargetChoice::Original,
            policy: ConflictPolicy::KeepBoth,
            verify_existing: false,
            ownership: Ownership::Preserve,
            preview: None,
            previewing: false,
        };
        let ghost opened = sheet;
        self.sheet = Some(sheet);
        let effects = self.refresh_preview();
        proof {
            let f = finished_views(opened).unwrap();
            assert(f =~= as_opened(wanted));
        }
        effects
    }

    /// The selection on the current tab, as restore requests.
    pub fn selection_requests(&self) -> (r: Vec<RestoreRequest>)
        ensures
            request_views(r@) == selection_views(*self),
    {
        match self.tab {
            Tab::Browse => match self.snapshot_id() {
                Some(id) => {
                    let r = vec![
                        RestoreRequest {
                            snapshot: id,
                            paths: sorted_by_path(&self.selection),
                            target: Target::Original,
                            policy: ConflictPolicy::KeepBoth,
                            verify_existing: false,
                            ownership: Ownership::Preserve,
                        },
                    ];
                    assert(request_views(r@) =~= selection_views(*self));
                    r
                },
                None => {
                    let r: Vec<RestoreRequest> = Vec::new();
                    assert(request_views(r@) =~= selection_views(*self));
                    r
                },
            },
            Tab::Deleted => match &self.missing {
                Some(missing) => sort_requests(deleted_requests_of(missing, &self.missing_selection)),
                None => {
                    let r: Vec<RestoreRequest> = Vec::new();
                    assert(request_views(r@) =~= selection_views(*self));
                    r
                },
            },
            Tab::Compare => {
                let from = match self.from {
                    Some(index) => {
                        if index < self.snapshots.len() {
                            Some(self.snapshots[index].id.clone())
                        } else {
                            None
                        }
                    },
                    None => None,
                };
                match from {
                    Some(id) => {
                        let r = vec![
                            RestoreRequest {
                                snapshot: id,
                                paths: sorted_by_path(&self.diff_selection),
                                target: Target::Original,
                                policy: ConflictPolicy::KeepBoth,
                                verify_existing: false,
                                ownership: Ownership::Preserve,
                            },
                        ];
                        assert(request_views(r@) =~= selection_views(*self));
                        r
                    },
                    None => {
                        let r: Vec<RestoreRequest> = Vec::new();
                        assert(request_views(r@) =~= selection_views(*self));
                        r
                    },
                }
            },
            Tab::Search => {
                let r: Vec<RestoreRequest> = Vec::new();
                assert(request_views(r@) =~= selection_views(*self));
                r
            },
        }
    }

    /// How many paths are selected on the current tab.
    pub fn selection_count(&self) -> (r: usize)
        ensures
            r == match self.tab {
                Tab::Browse => self.selection@.len(),
                Tab::Deleted => self.missing_selection@.len(),
                Tab::Compare => self.diff_selection@.len(),
                Tab::Search => 0,
            },
    {
        match self.tab {
            Tab::Browse => self.selection.len(),
            Tab::Deleted => self.missing_selection.len(),
            Tab::Compare => self.diff_selection.len(),
            Tab::Search => 0,
        }
    }
}

/// Whether the path `p` is `q`.
fn is_path(p: &str, q: &str) -> (r: bool)
    ensures
        r == (components(p@) == components(q@)),
{
    crate::path::same_path_chars(chars_of(p).as_slice(), chars_of(q).as_slice())
}

impl RestorePage {
    /// Look for deleted files under the scope, since the window before `now`.
    fn find_missing(&mut self, now: i64) -> (r: Vec<Effect>)
        ensures
            missing_searched(*old(self), *final(self), r@, now),
    {
        self.busy = true;
        self.missing = None;
        self.missing_selection = Vec::new();
        let since = if now < i64::MIN + DELETED_WINDOW {
            i64::MIN
        } else {
            now - DELETED_WINDOW
        };
        only(Effect::Missing { scope: self.scope.clone(), since })
    }

    fn update_browse(&mut self, message: Message) -> (r: Vec<Effect>)
        requires
            of_browse(message),
        ensures
            browse_stepped(*old(self), message, *final(self), r@),
    {
        match message {
            Message::Loaded(Ok(snapshots)) => {
                let empty = snapshots.len() == 0;
                let many = snapshots.len() > 1;
                self.snapshots = snapshots;
                self.loaded = true;
                if empty {
                    return Vec::new();
                }
                self.snapshot = Some(0);
                self.from = if many {
                    Some(1)
                } else {
                    None
                };
                self.to = Some(0);
                self.list()
            },
            Message::Loaded(Err(error)) => {
                let mut effects: Vec<Effect> = Vec::new();
                effects.push(Effect::ShowError(Phrase::plain("open-repo-failed"), error));
                effects.push(Effect::Close);
                effects
            },
            Message::Tab(tab) => {
                self.tab = tab;
                Vec::new()
            },
            Message::PickSnapshot(index) => {
                self.snapshot = Some(index);
                self.selection = Vec::new();
                self.results = None;
                self.list()
            },
            Message::Open(dir) => {
                self.dir = dir;
                self.results = None;
                self.list()
            },
            Message::Up => {
                match parent_of_path(self.dir.as_str()) {
                    Some(parent) => self.dir = parent,
                    None => {},
                }
                self.list()
            },
            Message::Listed(dir, result) => {
                if !is_path(dir.as_str(), self.dir.as_str()) {
                    return Vec::new();
                }
                match result {
                    Ok(entries) => {
                        self.entries = Some(entries);
                        Vec::new()
                    },
                    Err(error) => {
                        if is_path(self.dir.as_str(), "/") {
                            self.entries = Some(Vec::new());
                            only(Effect::ShowError(Phrase::plain("browse-failed"), error))
                        } else if !is_path(self.dir.as_str(), self.root.as_str()) {
                            self.dir = self.root.clone();
                            self.list()
                        } else {
                            self.dir = "/".to_owned();
                            proof {
                                reveal_strlit("/");
                            }
                            self.list()
                        }
                    },
                }
            },
            Message::Search(text) => {
                let empty = text.as_str().is_empty();
                self.search = text;
                if empty {
                    self.results = None;
                }
                Vec::new()
            },
            Message::SearchNow => match self.snapshot_id() {
                Some(snapshot) => {
                    let query = trimmed(self.search.as_str());
                    if query.as_str().is_empty() {
                        Vec::new()
                    } else {
                        self.busy = true;
                        only(Effect::Search { snapshot, query })
                    }
                },
                None => Vec::new(),
            },
            Message::Found(result) => {
                self.busy = false;
                match result {
                    Ok(found) => {
                        self.results = Some(found);
                        Vec::new()
                    },
                    Err(error) => only(Effect::ShowError(Phrase::plain("browse-failed"), error)),
                }
            },
            Message::ShowVersions(path) => {
                let open = match &self.expanded {
                    Some(x) => is_path(x.as_str(), path.as_str()),
                    None => false,
                };
                if open {
                    self.expanded = None;
                    return Vec::new();
                }
                self.expanded = Some(path.clone());
                self.versions = None;
                only(Effect::Versions(path))
            },
            Message::VersionsLoaded(path, result) => {
                let open = match &self.expanded {
                    Some(x) => is_path(x.as_str(), path.as_str()),
                    None => false,
                };
                if !open {
                    return Vec::new();
                }
                match result {
                    Ok(versions) => {
                        self.versions = Some(versions);
                        Vec::new()
                    },
                    Err(error) => only(Effect::ShowError(Phrase::plain("browse-failed"), error)),
                }
            },
            Message::Toggle(path, on) => {
                set_path(&mut self.selection, path, on);
                Vec::new()
            },
            Message::JumpToMatch(snapshot, path) => {
                let index = match position_of_snapshot(&self.snapshots, &snapshot) {
                    Some(index) => index,
                    None => {
                        proof {
                            assert(!exists|i: int|
                                0 <= i < self.snapshots@.len() && self.snapshots@[i].id@ == snapshot@);
                        }
                        return Vec::new();
                    },
                };
                proof {
                    let c = choose|c: int|
                        0 <= c < self.snapshots@.len() && self.snapshots@[c].id@ == snapshot@ && forall|j: int|
                            0 <= j < c ==> (#[trigger] self.snapshots@[j]).id@ != snapshot@;
                    if c < index {
                        assert(self.snapshots@[c].id@ != snapshot@);
                    } else if c > index {
                        assert(self.snapshots@[index as int].id@ != snapshot@);
                    }
                }
                self.tab = Tab::Browse;
                self.snapshot = Some(index);
                self.selection = Vec::new();
                self.results = None;
                self.expanded = None;
                self.dir = match parent_of_path(path.as_str()) {
                    Some(parent) => parent,
                    None => {
                        proof {
                            reveal_strlit("/");
                        }
                        "/".to_owned()
                    },
                };
                self.list()
            },
            Message::OpenCopy(snapshot, path) => only(Effect::OpenCopy { snapshot, path }),
            Message::Download(path, is_folder) => match self.snapshot_id() {
                Some(snapshot) => only(Effect::Download { snapshot, path, is_folder }),
                None => Vec::new(),
            },
            Message::DownloadVersion(snapshot, path) => only(
                Effect::Download { snapshot, path, is_folder: false },
            ),
            _ => Vec::new(),
        }
    }
}

impl RestorePage {
    fn update_search(&mut self, message: Message, now: i64) -> (r: Vec<Effect>)
        requires
            of_search(message),
        ensures
            search_stepped(*old(self), message, *final(self), r@, now),
    {
        match message {
            Message::ChooseScope => only(Effect::PickScope),
            Message::ScopeChosen(scope) => {
                self.scope = scope;
                self.find_missing(now)
            },
            Message::FindMissing => self.find_missing(now),
            Message::MissingFound(result) => {
                self.busy = false;
                match result {
                    Ok(found) => {
                        self.missing = Some(found);
                        Vec::new()
                    },
                    Err(error) => only(Effect::ShowError(Phrase::plain("browse-failed"), error)),
                }
            },
            Message::ToggleMissing(path, on) => {
                set_path(&mut self.missing_selection, path, on);
                Vec::new()
            },
            Message::PickFrom(index) => {
                self.from = Some(index);
                self.diff = None;
                Vec::new()
            },
            Message::PickTo(index) => {
                self.to = Some(index);
                self.diff = None;
                Vec::new()
            },
            Message::Compare => {
                let from = match self.from {
                    Some(i) => {
                        if i < self.snapshots.len() {
                            Some(self.snapshots[i].id.clone())
                        } else {
                            None
                        }
                    },
                    None => None,
                };
                let to = match self.to {
                    Some(i) => {
                        if i < self.snapshots.len() {
                            Some(self.snapshots[i].id.clone())
                        } else {
                            None
                        }
                    },
                    None => None,
                };
                match (from, to) {
                    (Some(from), Some(to)) => {
                        self.busy = true;
                        self.diff_selection = Vec::new();
                        self.diff_expanded = Vec::new();
                        only(Effect::Diff { from, to })
                    },
                    _ => Vec::new(),
                }
            },
            Message::Compared(result) => {
                self.busy = false;
                match result {
                    Ok(diff) => {
                        self.diff = Some(diff);
                        Vec::new()
                    },
                    Err(error) => only(Effect::ShowError(Phrase::plain("browse-failed"), error)),
                }
            },
            Message::ToggleDiff(path, on) => {
                set_path(&mut self.diff_selection, path, on);
                Vec::new()
            },
            Message::ToggleDiffFolder(folder) => {
                let open = match find_path(&self.diff_expanded, folder.as_str()) {
                    Some(i) => {
                        assert(path_set(self.diff_expanded@).contains(components(folder@))) by {
                            assert(components(self.diff_expanded@[i as int]@) == components(folder@));
                        }
                        true
                    },
                    None => false,
                };
                set_path(&mut self.diff_expanded, folder, !open);
                Vec::new()
            },
            Message::GlobalSearch(text) => {
                self.global_query = text;
                Vec::new()
            },
            Message::GlobalSearchNow => {
                if trimmed(self.global_query.as_str()).as_str().is_empty() {
                    self.global_results = None;
                    return Vec::new();
                }
                self.busy = true;
                only(Effect::GlobalSearch { query: self.global_query.clone() })
            },
            Message::GlobalFound(result) => {
                self.busy = false;
                match result {
                    Ok(found) => {
                        self.global_results = Some(found);
                        Vec::new()
                    },
                    Err(error) => only(Effect::ShowError(Phrase::plain("browse-failed"), error)),
                }
            },
            _ => Vec::new(),
        }
    }

    /// Follow the restore running in a child process.
    fn on_restore(&mut self, event: ChildEvent, now: i64) -> (r: Vec<Effect>)
        ensures
            restore_followed(*old(self), event, *final(self), r@, now),
    {
        let mut running = match self.running.take() {
            Some(running) => running,
            None => return Vec::new(),
        };
        match event {
            ChildEvent::Started => {
                running.started = true;
                self.running = Some(running);
                Vec::new()
            },
            ChildEvent::Progress(progress) => {
                running.progress = Some(progress);
                self.running = Some(running);
                Vec::new()
            },
            ChildEvent::Done(done) => {
                if running.queue.len() > 0 {
                    let ghost queue = running.queue@;
                    let next = running.queue.remove(0);
                    assert(request_views(running.queue@) =~= request_views(queue).drop_first());
                    running.started = false;
                    running.progress = None;
                    self.running = Some(running);
                    return only(Effect::Restore(next));
                }
                self.selection = Vec::new();
                self.missing_selection = Vec::new();
                self.diff_selection = Vec::new();
                let restored = match done.restored {
                    Some(r) => r,
                    None => RestorePreview { files: 0, bytes: 0, conflicts: 0, unchanged: 0 },
                };
                let mut effects = only(Effect::Restored(restored));
                if self.tab == Tab::Deleted && self.missing.is_some() {
                    let ghost head = effects@;
                    let mut more = self.find_missing(now);
                    let ghost tail = more@;
                    effects.append(&mut more);
                    assert(effects@.drop_first() =~= tail);
                }
                effects
            },
            ChildEvent::Failed(error) => only(Effect::ShowError(Phrase::plain("restore-failed"), error)),
        }
    }

    /// Open the sheet for the current tab's selection.
    fn restore_selection(&mut self) -> (r: Vec<Effect>)
        ensures
            sheet_opened(*old(self), selection_views(*old(self)), *final(self), r@),
    {
        let requests = self.selection_requests();
        self.open_sheet(requests)
    }

    /// Open the sheet for one version of one file.
    fn restore_version(&mut self, snapshot: String, path: String) -> (r: Vec<Effect>)
        ensures
            sheet_opened(*old(self), seq![plain_request(snapshot@, seq![path@])], *final(self), r@),
    {
        let ghost wanted = seq![plain_request(snapshot@, seq![path@])];
        let mut paths: Vec<String> = Vec::new();
        paths.push(path);
        assert(texts(paths@) =~= seq![path@]);
        let requests = vec![
            RestoreRequest {
                snapshot,
                paths,
                target: Target::Original,
                policy: ConflictPolicy::KeepBoth,
                verify_existing: false,
                ownership: Ownership::Preserve,
            },
        ];
        assert(request_views(requests@) =~= wanted);
        self.open_sheet(requests)
    }

    /// Make `choice` in the open sheet, and ask for a new dry run.
    fn change_sheet(&mut self, choice: Choice) -> (r: Vec<Effect>)
        ensures
            sheet_changed(*old(self), choice, *final(self), r@),
    {
        match self.sheet.take() {
            Some(mut sheet) => {
                match choice {
                    Choice::Original => sheet.target = TargetChoice::Original,
                    Choice::Folder(folder) => sheet.target = TargetChoice::Folder(Some(folder)),
                    Choice::Policy(policy) => sheet.policy = policy,
                    Choice::Verify(on) => sheet.verify_existing = on,
                    Choice::Ownership(ownership) => sheet.ownership = ownership,
                }
                self.sheet = Some(sheet);
                self.refresh_preview()
            },
            None => Vec::new(),
        }
    }

    /// Keep a dry run's answer if it is for the choices as they are now.
    fn take_preview(&mut self, asked: Vec<RestoreRequest>, result: Result<RestorePreview, EngineError>) -> (r:
        Vec<Effect>)
        ensures
            preview_taken(*old(self), asked, result, *final(self), r@),
    {
        match self.sheet.take() {
            Some(mut sheet) => {
                let current = match sheet.finished_requests() {
                    Some(requests) => same_requests(&requests, &asked),
                    None => false,
                };
                if current {
                    sheet.previewing = false;
                    sheet.preview = Some(result);
                }
                self.sheet = Some(sheet);
            },
            None => {},
        }
        Vec::new()
    }

    /// Start the restore the sheet describes, once its dry run is in.
    fn start_restore(&mut self) -> (r: Vec<Effect>)
        ensures
            restore_started(*old(self), *final(self), r@),
    {
        let ready = match &self.sheet {
            Some(sheet) => !sheet.previewing && match &sheet.preview {
                Some(Ok(_)) => true,
                _ => false,
            },
            None => false,
        };
        if !ready {
            return Vec::new();
        }
        let requests = match &self.sheet {
            Some(sheet) => match sheet.finished_requests() {
                Some(requests) => requests,
                None => return Vec::new(),
            },
            None => return Vec::new(),
        };
        self.sheet = None;
        if requests.len() == 0 {
            return Vec::new();
        }
        let ghost all = request_views(requests@);
        let mut queue = requests;
        let first = queue.remove(0);
        assert(request_views(queue@) =~= all.drop_first());
        self.running = Some(Running { started: false, progress: None, queue });
        only(Effect::Restore(first))
    }

    fn update_sheet(&mut self, message: Message, now: i64) -> (r: Vec<Effect>)
        requires
            of_sheet(message),
        ensures
            sheet_stepped(*old(self), message, *final(self), r@, now),
    {
        match message {
            Message::RestoreSelection => self.restore_selection(),
            Message::RestoreVersion(snapshot, path) => self.restore_version(snapshot, path),
            Message::TargetOriginal => self.change_sheet(Choice::Original),
            Message::TargetFolder => {
                match self.sheet.take() {
                    Some(mut sheet) => {
                        sheet.target = TargetChoice::Folder(None);
                        sheet.preview = None;
                        self.sheet = Some(sheet);
                    },
                    None => {},
                }
                only(Effect::PickTarget)
            },
            Message::TargetChosen(folder) => self.change_sheet(Choice::Folder(folder)),
            Message::Policy(policy) => self.change_sheet(Choice::Policy(policy)),
            Message::VerifyExisting(on) => self.change_sheet(Choice::Verify(on)),
            Message::Ownership(ownership) => self.change_sheet(Choice::Ownership(ownership)),
            Message::Previewed(asked, result) => self.take_preview(asked, result),
            Message::CancelSheet => {
                self.sheet = None;
                Vec::new()
            },
            Message::StartRestore => self.start_restore(),
            _ => Vec::new(),
        }
    }

    fn update_run(&mut self, message: Message, now: i64) -> (r: Vec<Effect>)
        requires
            !of_browse(message),
            !of_search(message),
            !of_sheet(message),
        ensures
            sheet_stepped(*old(self), message, *final(self), r@, now),
    {
        match message {
            Message::Restore(event) => self.on_restore(event, now),
            Message::CancelRestore => {
                match self.running.take() {
                    Some(mut running) => {
                        running.queue = Vec::new();
                        let started = running.started;
                        self.running = Some(running);
                        if started {
                            only(Effect::CancelRestore)
                        } else {
                            Vec::new()
                        }
                    },
                    None => Vec::new(),
                }
            },
            Message::Mount => only(Effect::PickMountPoint),
            Message::MountPointChosen(point) => match self.snapshot_id() {
                Some(snapshot) => only(Effect::Mount { snapshot, point }),
                None => Vec::new(),
            },
            Message::Mounted(result) => match result {
                Ok(handle) => {
                    self.mounted = Some(handle);
                    Vec::new()
                },
                Err(error) => only(Effect::ShowError(Phrase::plain("mount-failed"), error)),
            },
            Message::OpenMountedFolder => match &self.mounted {
                Some(handle) => only(Effect::OpenMounted(handle.point.clone())),
                None => Vec::new(),
            },
            Message::Unmount => match self.mounted.take() {
                Some(handle) => only(Effect::Unmount(handle)),
                None => Vec::new(),
            },
            Message::Close => {
                let mut effects: Vec<Effect> = Vec::new();
                match self.mounted.take() {
                    Some(handle) => effects.push(Effect::Unmount(handle)),
                    None => {},
                }
                effects.push(Effect::Close);
                proof {
                    match old(self).mounted {
                        Some(h) => assert(effects@ =~= seq![Effect::Unmount(h), Effect::Close]),
                        None => assert(effects@ =~= seq![Effect::Close]),
                    }
                }
                effects
            },
            _ => Vec::new(),
        }
    }

    /// The page's answer to `message`, at the Unix time `now`.
    pub fn update(&mut self, message: Message, now: i64) -> (r: Vec<Effect>)
        ensures
            stepped(*old(self), message, *final(self), r@, now),
    {
        if message_of_browse(&message) {
            self.update_browse(message)
        } else if message_of_search(&message) {
            self.update_search(message, now)
        } else if message_of_sheet(&message) {
            self.update_sheet(message, now)
        } else {
            self.update_run(message, now)
        }
    }
}

/// Whether `message` belongs to the Browse tab.
fn message_of_browse(message: &Message) -> (r: bool)
    ensures
        r == of_browse(*message),
{
    match message {
        Message::Loaded(_) | Message::Tab(_) | Message::PickSnapshot(_) | Message::Open(_) | Message::Up
        | Message::Listed(..) | Message::Search(_) | Message::SearchNow | Message::Found(_)
        | Message::ShowVersions(_) | Message::VersionsLoaded(..) | Message::Toggle(..)
        | Message::JumpToMatch(..) | Message::OpenCopy(..) | Message::Download(..)
        | Message::DownloadVersion(..) => true,
        _ => false,
    }
}

/// Whether `message` belongs to the Deleted, Compare or Search tabs.
fn message_of_search(message: &Message) -> (r: bool)
    ensures
        r == of_search(*message),
{
    match message {
        Message::ChooseScope | Message::ScopeChosen(_) | Message::FindMissing | Message::MissingFound(_)
        | Message::ToggleMissing(..) | Message::PickFrom(_) | Message::PickTo(_) | Message::Compare
        | Message::Compared(_) | Message::ToggleDiff(..) | Message::ToggleDiffFolder(_)
        | Message::GlobalSearch(_) | Message::GlobalSearchNow | Message::GlobalFound(_) => true,
        _ => false,
    }
}

/// `message` belongs to the restore sheet.
pub open spec fn of_sheet(message: Message) -> bool {
    ||| message is RestoreSelection
    ||| message is RestoreVersion
    ||| message is TargetOriginal
    ||| message is TargetFolder
    ||| message is TargetChosen
    ||| message is Policy
    ||| message is VerifyExisting
    ||| message is Ownership
    ||| message is Previewed
    ||| message is CancelSheet
    ||| message is StartRestore
}

/// Whether `message` belongs to the restore sheet.
fn message_of_sheet(message: &Message) -> (r: bool)
    ensures
        r == of_sheet(*message),
{
    match message {
        Message::RestoreSelection | Message::RestoreVersion(..) | Message::TargetOriginal
        | Message::TargetFolder | Message::TargetChosen(_) | Message::Policy(_) | Message::VerifyExisting(_)
        | Message::Ownership(_) | Message::Previewed(..) | Message::CancelSheet | Message::StartRestore => true,
        _ => false,
    }
}

/// Nothing is written until the dry run has answered, for exactly the
/// choices the sheet holds: a restore starts only from an open sheet whose
/// dry run succeeded and is not being redone.
pub proof fn lemma_a_restore_waits_for_its_dry_run(
    before: RestorePage,
    after: RestorePage,
    effects: Seq<Effect>,
    now: i64,
)
    requires
        stepped(before, Message::StartRestore, after, effects, now),
        effects.len() > 0,
    ensures
        before.sheet matches Some(s) && !s.previewing && (s.preview matches Some(Ok(_))),
        effects[0] is Restore,
        after.running is Some,
{
}

/// A dry run's answer for choices the user has since changed is dropped.
pub proof fn lemma_a_stale_dry_run_is_ignored(
    before: RestorePage,
    asked: Vec<RestoreRequest>,
    result: Result<RestorePreview, EngineError>,
    after: RestorePage,
    effects: Seq<Effect>,
    now: i64,
)
    requires
        stepped(before, Message::Previewed(asked, result), after, effects, now),
        before.sheet matches Some(s) && finished_views(s) != Some(request_views(asked@)),
    ensures
        after == before,
        nothing(effects),
{
}

/// The answer for a folder the page has left is dropped.
pub proof fn lemma_a_stale_listing_is_ignored(
    before: RestorePage,
    dir: String,
    result: Result<Vec<TreeEntry>, EngineError>,
    after: RestorePage,
    effects: Seq<Effect>,
    now: i64,
)
    requires
        stepped(before, Message::Listed(dir, result), after, effects, now),
        components(dir@) != components(before.dir@),
    ensures
        after == before,
        nothing(effects),
{
}

/// A folder a snapshot cannot list falls back to where browsing started,
/// then to the top, and only then is reported, never looping: each failure
/// either reports or moves to a folder nearer the top of that chain.
pub proof fn lemma_a_missing_folder_falls_back_then_gives_up(
    before: RestorePage,
    error: EngineError,
    after: RestorePage,
    effects: Seq<Effect>,
    now: i64,
)
    requires
        stepped(before, Message::Listed(before.dir, Err(error)), after, effects, now),
    ensures
        components(before.dir@) == components("/"@) ==> effects.len() == 1 && shows(
            effects[0],
            "browse-failed"@,
            error,
        ),
        components(before.dir@) != components("/"@) && components(before.dir@) != components(before.root@)
            ==> after.dir@ == before.root@,
        components(before.dir@) != components("/"@) && components(before.dir@) == components(before.root@)
            ==> after.dir@ == "/"@,
{
}

/// Cancelling a restore drops what is queued behind the running part.
pub proof fn lemma_cancelling_drops_the_queue(
    before: RestorePage,
    after: RestorePage,
    effects: Seq<Effect>,
    now: i64,
)
    requires
        stepped(before, Message::CancelRestore, after, effects, now),
        before.running is Some,
    ensures
        after.running matches Some(r) && r.queue@.len() == 0,
{
}

/// Each part of a restore of several runs in turn: when one is done, the
/// next queued starts and the queue shrinks by one.
pub proof fn lemma_the_queue_runs_in_turn(
    before: RestorePage,
    done: crate::engine::Done,
    after: RestorePage,
    effects: Seq<Effect>,
    now: i64,
)
    requires
        stepped(before, Message::Restore(ChildEvent::Done(done)), after, effects, now),
        before.running matches Some(run) && run.queue@.len() > 0,
    ensures
        effects.len() == 1,
        effects[0] matches Effect::Restore(r) && request_view(r) == request_view(before.running.unwrap().queue@[0]),
        after.running matches Some(run) && run.queue@.len() == before.running.unwrap().queue@.len() - 1,
{
    let run = before.running.unwrap();
    assert(request_views(run.queue@).drop_first().len() == run.queue@.len() - 1);
    assert(request_views(after.running.unwrap().queue@).len() == after.running.unwrap().queue@.len());
}

/// Deleted files restore from their own snapshots: every path a request
/// asks for is a selected missing file whose newest snapshot is the
/// request's.
pub proof fn lemma_deleted_files_restore_from_their_own_snapshots(
    missing: Seq<MissingEntry>,
    selected: Set<Seq<Seq<char>>>,
    i: int,
    j: int,
)
    requires
        0 <= i < deleted_requests(missing, selected).len(),
        0 <= j < deleted_requests(missing, selected)[i].paths.len(),
    ensures
        exists|k: int|
            0 <= k < missing.len() && (#[trigger] missing[k]).path@ == deleted_requests(missing, selected)[i].paths[j]
                && missing[k].last_seen.id@ == deleted_requests(missing, selected)[i].snapshot
                && selected.contains(components(missing[k].path@)),
    decreases missing.len(),
{
    let rs = deleted_requests(missing.drop_last(), selected);
    let e = missing.last();
    let n = missing.len() - 1;
    if selected.contains(components(e.path@)) {
        match request_for(rs, e.last_seen.id@) {
            Some(f) => {
                if i == f && j == rs[f].paths.len() {
                    assert(missing[n] == e);
                } else {
                    lemma_deleted_files_restore_from_their_own_snapshots(missing.drop_last(), selected, i, j);
                    let k = choose|k: int|
                        0 <= k < missing.drop_last().len() && (#[trigger] missing.drop_last()[k]).path@
                            == rs[i].paths[j] && missing.drop_last()[k].last_seen.id@ == rs[i].snapshot
                            && selected.contains(components(missing.drop_last()[k].path@));
                    assert(missing[k] == missing.drop_last()[k]);
                }
            },
            None => {
                if i == rs.len() {
                    assert(missing[n] == e);
                } else {
                    lemma_deleted_files_restore_from_their_own_snapshots(missing.drop_last(), selected, i, j);
                    let k = choose|k: int|
                        0 <= k < missing.drop_last().len() && (#[trigger] missing.drop_last()[k]).path@
                            == rs[i].paths[j] && missing.drop_last()[k].last_seen.id@ == rs[i].snapshot
                            && selected.contains(components(missing.drop_last()[k].path@));
                    assert(missing[k] == missing.drop_last()[k]);
                }
            },
        }
    } else {
        lemma_deleted_files_restore_from_their_own_snapshots(missing.drop_last(), selected, i, j);
        let k = choose|k: int|
            0 <= k < missing.drop_last().len() && (#[trigger] missing.drop_last()[k]).path@ == rs[i].paths[j]
                && missing.drop_last()[k].last_seen.id@ == rs[i].snapshot && selected.contains(
                components(missing.drop_last()[k].path@),
            );
        assert(missing[k] == missing.drop_last()[k]);
    }
}

} // verus!
