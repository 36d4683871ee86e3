//! The overview of every backup: every folder backed up on this computer,
//! and every storage location in use, each listed once with the backups
//! that use it.

use vstd::prelude::*;
use crate::path::{components_of, same_path, same_path_chars};
use crate::profile::{Destination, DestinationView, Profile};
use crate::text::chars_of;

verus! {

/// Every folder the backups cover, with the name of the backup, in the
/// order the backups and their folders are given.
pub open spec fn covered(profiles: Seq<Profile>) -> Seq<(Seq<char>, Seq<char>)>
    decreases profiles.len(),
{
    if profiles.len() == 0 {
        Seq::empty()
    } else {
        let p = profiles.last();
        covered(profiles.drop_last()) + p.sources@.map_values(|s: String| (s@, p.name@))
    }
}

/// The names of the entries of `pairs` whose folder is `folder` (as `Path`
/// compares them), in order.
pub open spec fn names_for(pairs: Seq<(Seq<char>, Seq<char>)>, folder: Seq<char>) -> Seq<Seq<char>>
    decreases pairs.len(),
{
    if pairs.len() == 0 {
        Seq::empty()
    } else {
        let rest = names_for(pairs.drop_last(), folder);
        if same_path(pairs.last().0, folder) {
            rest.push(pairs.last().1)
        } else {
            rest
        }
    }
}

/// `rows` lists every folder of `pairs` once, in the order each first
/// comes, with the names of the backups that cover it: `first[i]` is where
/// the folder of row `i` first comes.
pub open spec fn folder_rows(
    pairs: Seq<(Seq<char>, Seq<char>)>,
    rows: Seq<(Seq<char>, Seq<Seq<char>>)>,
    first: Seq<int>,
) -> bool {
    &&& first.len() == rows.len()
    &&& forall|i: int|
        0 <= i < rows.len() ==> {
            &&& 0 <= #[trigger] first[i] < pairs.len()
            &&& pairs[first[i]].0 == rows[i].0
            &&& forall|m: int| 0 <= m < first[i] ==> !same_path(pairs[m].0, rows[i].0)
            &&& rows[i].1 == names_for(pairs, rows[i].0)
        }
    &&& forall|i: int, j: int| 0 <= i < j < rows.len() ==> first[i] < first[j]
    &&& forall|m: int| 0 <= m < pairs.len() ==> exists|i: int| 0 <= i < rows.len() && same_path(#[trigger] pairs[m].0, rows[i].0)
}

/// The texts of `v`.
pub open spec fn name_views(v: Seq<String>) -> Seq<Seq<char>> {
    v.map_values(|s: String| s@)
}

/// Rows of folders and names, as texts.
pub open spec fn row_views(v: Seq<(String, Vec<String>)>) -> Seq<(Seq<char>, Seq<Seq<char>>)> {
    v.map_values(|r: (String, Vec<String>)| (r.0@, name_views(r.1@)))
}

/// Pairs of texts, as texts.
pub open spec fn pair_views(v: Seq<(String, String)>) -> Seq<(Seq<char>, Seq<char>)> {
    v.map_values(|p: (String, String)| (p.0@, p.1@))
}

proof fn lemma_names_for_none(pairs: Seq<(Seq<char>, Seq<char>)>, folder: Seq<char>)
    requires
        forall|m: int| 0 <= m < pairs.len() ==> !same_path(#[trigger] pairs[m].0, folder),
    ensures
        names_for(pairs, folder) == Seq::<Seq<char>>::empty(),
    decreases pairs.len(),
{
    if pairs.len() > 0 {
        assert forall|m: int| 0 <= m < pairs.drop_last().len() implies !same_path(
            #[trigger] pairs.drop_last()[m].0,
            folder,
        ) by {
            assert(pairs.drop_last()[m] == pairs[m]);
        }
        lemma_names_for_none(pairs.drop_last(), folder);
        assert(pairs.last() == pairs[pairs.len() - 1]);
    }
}

/// Every folder the backups cover, with the name of the backup.
fn covered_pairs(profiles: &[Profile]) -> (r: Vec<(String, String)>)
    ensures
        pair_views(r@) == covered(profiles@),
{
    let mut out: Vec<(String, String)> = Vec::new();
    let mut i: usize = 0;
    while i < profiles.len()
        invariant
            i <= profiles@.len(),
            pair_views(out@) == covered(profiles@.take(i as int)),
        decreases profiles@.len() - i,
    {
        let p = &profiles[i];
        let ghost start = out@;
        let mut j: usize = 0;
        while j < p.sources.len()
            invariant
                j <= p.sources@.len(),
                p == profiles@[i as int],
                start.len() <= out@.len(),
                pair_views(start) == covered(profiles@.take(i as int)),
                pair_views(out@) == pair_views(start) + p.sources@.take(j as int).map_values(
                    |s: String| (s@, p.name@),
                ),
            decreases p.sources@.len() - j,
        {
            let ghost before = out@;
            out.push((p.sources[j].clone(), p.name.clone()));
            assert(pair_views(out@) =~= pair_views(before).push((p.sources@[j as int]@, p.name@)));
            assert(p.sources@.take(j + 1).map_values(|s: String| (s@, p.name@)) =~= p.sources@.take(
                j as int,
            ).map_values(|s: String| (s@, p.name@)).push((p.sources@[j as int]@, p.name@)));
            j = j + 1;
        }
        assert(p.sources@.take(p.sources@.len() as int) =~= p.sources@);
        assert(profiles@.take(i + 1).drop_last() =~= profiles@.take(i as int));
        assert(profiles@.take(i + 1).last() == profiles@[i as int]);
        i = i + 1;
    }
    assert(profiles@.take(profiles@.len() as int) =~= profiles@);
    out
}

/// The rows name different folders.
pub open spec fn distinct_folders(rows: Seq<(Seq<char>, Seq<Seq<char>>)>) -> bool {
    forall|i: int, j: int| 0 <= i < rows.len() && 0 <= j < rows.len() && i != j ==> !same_path(rows[i].0, rows[j].0)
}

/// A pair whose folder has a row already joins that row.
proof fn lemma_row_joined(
    taken: Seq<(Seq<char>, Seq<char>)>,
    pair: (Seq<char>, Seq<char>),
    rows: Seq<(Seq<char>, Seq<Seq<char>>)>,
    first: Seq<int>,
    f: int,
)
    requires
        folder_rows(taken, rows, first),
        distinct_folders(rows),
        0 <= f < rows.len(),
        same_path(rows[f].0, pair.0),
    ensures
        folder_rows(taken.push(pair), rows.update(f, (rows[f].0, rows[f].1.push(pair.1))), first),
        distinct_folders(rows.update(f, (rows[f].0, rows[f].1.push(pair.1)))),
{
    let next = taken.push(pair);
    let after = rows.update(f, (rows[f].0, rows[f].1.push(pair.1)));
    assert(next.drop_last() =~= taken);
    assert forall|i: int| 0 <= i < after.len() implies {
        &&& 0 <= #[trigger] first[i] < next.len()
        &&& next[first[i]].0 == after[i].0
        &&& forall|m: int| 0 <= m < first[i] ==> !same_path(next[m].0, after[i].0)
        &&& after[i].1 == names_for(next, after[i].0)
    } by {
        assert(0 <= first[i] < taken.len());
        assert(next[first[i]] == taken[first[i]]);
        assert forall|m: int| 0 <= m < first[i] implies !same_path(next[m].0, after[i].0) by {
            assert(next[m] == taken[m]);
        }
        if i != f && same_path(pair.0, rows[i].0) {
            assert(same_path(rows[f].0, rows[i].0));
        }
    }
    assert forall|m: int| 0 <= m < next.len() implies exists|i: int| 0 <= i < after.len() && same_path(#[trigger] next[m].0, after[i].0) by {
        if m < taken.len() {
            assert(next[m] == taken[m]);
            let i = choose|i: int| 0 <= i < rows.len() && same_path(taken[m].0, rows[i].0);
            assert(after[i].0 == rows[i].0);
        } else {
            assert(after[f].0 == rows[f].0);
        }
    }
}

/// A pair whose folder has no row yet starts one, last.
proof fn lemma_row_added(
    taken: Seq<(Seq<char>, Seq<char>)>,
    pair: (Seq<char>, Seq<char>),
    rows: Seq<(Seq<char>, Seq<Seq<char>>)>,
    first: Seq<int>,
)
    requires
        folder_rows(taken, rows, first),
        distinct_folders(rows),
        forall|j: int| 0 <= j < rows.len() ==> !same_path(#[trigger] rows[j].0, pair.0),
    ensures
        folder_rows(taken.push(pair), rows.push((pair.0, seq![pair.1])), first.push(taken.len() as int)),
        distinct_folders(rows.push((pair.0, seq![pair.1]))),
{
    let next = taken.push(pair);
    let after = rows.push((pair.0, seq![pair.1]));
    let later = first.push(taken.len() as int);
    assert(next.drop_last() =~= taken);
    assert forall|m: int| 0 <= m < taken.len() implies !same_path(#[trigger] taken[m].0, pair.0) by {
        let i = choose|i: int| 0 <= i < rows.len() && same_path(taken[m].0, rows[i].0);
        assert(!same_path(rows[i].0, pair.0));
    }
    lemma_names_for_none(taken, pair.0);
    assert(names_for(next, pair.0) =~= seq![pair.1]);
    assert forall|i: int| 0 <= i < after.len() implies {
        &&& 0 <= #[trigger] later[i] < next.len()
        &&& next[later[i]].0 == after[i].0
        &&& forall|m: int| 0 <= m < later[i] ==> !same_path(next[m].0, after[i].0)
        &&& after[i].1 == names_for(next, after[i].0)
    } by {
        if i < rows.len() {
            assert(0 <= first[i] < taken.len());
            assert(later[i] == first[i]);
            assert(next[first[i]] == taken[first[i]]);
            assert forall|m: int| 0 <= m < first[i] implies !same_path(next[m].0, after[i].0) by {
                assert(next[m] == taken[m]);
            }
            assert(!same_path(rows[i].0, pair.0));
        } else {
            assert forall|m: int| 0 <= m < later[i] implies !same_path(next[m].0, after[i].0) by {
                assert(next[m] == taken[m]);
            }
        }
    }
    assert forall|m: int| 0 <= m < next.len() implies exists|i: int| 0 <= i < after.len() && same_path(#[trigger] next[m].0, after[i].0) by {
        if m < taken.len() {
            assert(next[m] == taken[m]);
            let i = choose|i: int| 0 <= i < rows.len() && same_path(taken[m].0, rows[i].0);
            assert(after[i].0 == rows[i].0);
        } else {
            assert(after[rows.len() as int].0 == pair.0);
        }
    }
    assert forall|i: int, j: int| 0 <= i < after.len() && 0 <= j < after.len() && i != j implies !same_path(after[i].0, after[j].0) by {
        if i == rows.len() {
            assert(!same_path(rows[j].0, pair.0));
        } else if j == rows.len() {
            assert(!same_path(rows[i].0, pair.0));
        }
    }
}

/// The names of the entries of `pairs` kept at `place`, in order.
pub open spec fn users_of(pairs: Seq<(DestinationView, Seq<char>)>, place: DestinationView) -> Seq<Seq<char>>
    decreases pairs.len(),
{
    if pairs.len() == 0 {
        Seq::empty()
    } else {
        let rest = users_of(pairs.drop_last(), place);
        if (pairs.last().0 == place) {
            rest.push(pairs.last().1)
        } else {
            rest
        }
    }
}

/// `rows` lists every place of `pairs` once, in the order each first
/// comes, with the names of the backups kept there: `first[i]` is where the
/// place of row `i` first comes.
pub open spec fn place_rows(
    pairs: Seq<(DestinationView, Seq<char>)>,
    rows: Seq<(DestinationView, Seq<Seq<char>>)>,
    first: Seq<int>,
) -> bool {
    &&& first.len() == rows.len()
    &&& forall|i: int|
        0 <= i < rows.len() ==> {
            &&& 0 <= #[trigger] first[i] < pairs.len()
            &&& pairs[first[i]].0 == rows[i].0
            &&& forall|m: int| 0 <= m < first[i] ==> !(pairs[m].0 == rows[i].0)
            &&& rows[i].1 == users_of(pairs, rows[i].0)
        }
    &&& forall|i: int, j: int| 0 <= i < j < rows.len() ==> first[i] < first[j]
    &&& forall|m: int| 0 <= m < pairs.len() ==> exists|i: int| 0 <= i < rows.len() && (#[trigger] pairs[m].0 == rows[i].0)
}

proof fn lemma_users_of_none(pairs: Seq<(DestinationView, Seq<char>)>, place: DestinationView)
    requires
        forall|m: int| 0 <= m < pairs.len() ==> !(#[trigger] pairs[m].0 == place),
    ensures
        users_of(pairs, place) == Seq::<Seq<char>>::empty(),
    decreases pairs.len(),
{
    if pairs.len() > 0 {
        assert forall|m: int| 0 <= m < pairs.drop_last().len() implies !(#[trigger] pairs.drop_last()[m].0 == place) by {
            assert(pairs.drop_last()[m] == pairs[m]);
        }
        lemma_users_of_none(pairs.drop_last(), place);
        assert(pairs.last() == pairs[pairs.len() - 1]);
    }
}

/// The rows name different places.
pub open spec fn distinct_places(rows: Seq<(DestinationView, Seq<Seq<char>>)>) -> bool {
    forall|i: int, j: int| 0 <= i < rows.len() && 0 <= j < rows.len() && i != j ==> !(rows[i].0 == rows[j].0)
}

/// A backup whose place has a row already joins that row.
proof fn lemma_place_joined(
    taken: Seq<(DestinationView, Seq<char>)>,
    pair: (DestinationView, Seq<char>),
    rows: Seq<(DestinationView, Seq<Seq<char>>)>,
    first: Seq<int>,
    f: int,
)
    requires
        place_rows(taken, rows, first),
        distinct_places(rows),
        0 <= f < rows.len(),
        (rows[f].0 == pair.0),
    ensures
        place_rows(taken.push(pair), rows.update(f, (rows[f].0, rows[f].1.push(pair.1))), first),
        distinct_places(rows.update(f, (rows[f].0, rows[f].1.push(pair.1)))),
{
    let next = taken.push(pair);
    let after = rows.update(f, (rows[f].0, rows[f].1.push(pair.1)));
    assert(next.drop_last() =~= taken);
    assert forall|i: int| 0 <= i < after.len() implies {
        &&& 0 <= #[trigger] first[i] < next.len()
        &&& next[first[i]].0 == after[i].0
        &&& forall|m: int| 0 <= m < first[i] ==> !(next[m].0 == after[i].0)
        &&& after[i].1 == users_of(next, after[i].0)
    } by {
        assert(0 <= first[i] < taken.len());
        assert(next[first[i]] == taken[first[i]]);
        assert forall|m: int| 0 <= m < first[i] implies !(next[m].0 == after[i].0) by {
            assert(next[m] == taken[m]);
        }
        if i != f && (pair.0 == rows[i].0) {
            assert((rows[f].0 == rows[i].0));
        }
    }
    assert forall|m: int| 0 <= m < next.len() implies exists|i: int| 0 <= i < after.len() && (#[trigger] next[m].0 == after[i].0) by {
        if m < taken.len() {
            assert(next[m] == taken[m]);
            let i = choose|i: int| 0 <= i < rows.len() && (taken[m].0 == rows[i].0);
            assert(after[i].0 == rows[i].0);
        } else {
            assert(after[f].0 == rows[f].0);
        }
    }
}

/// A backup whose place has no row yet starts one, last.
proof fn lemma_place_added(
    taken: Seq<(DestinationView, Seq<char>)>,
    pair: (DestinationView, Seq<char>),
    rows: Seq<(DestinationView, Seq<Seq<char>>)>,
    first: Seq<int>,
)
    requires
        place_rows(taken, rows, first),
        distinct_places(rows),
        forall|j: int| 0 <= j < rows.len() ==> !(#[trigger] rows[j].0 == pair.0),
    ensures
        place_rows(taken.push(pair), rows.push((pair.0, seq![pair.1])), first.push(taken.len() as int)),
        distinct_places(rows.push((pair.0, seq![pair.1]))),
{
    let next = taken.push(pair);
    let after = rows.push((pair.0, seq![pair.1]));
    let later = first.push(taken.len() as int);
    assert(next.drop_last() =~= taken);
    assert forall|m: int| 0 <= m < taken.len() implies !(#[trigger] taken[m].0 == pair.0) by {
        let i = choose|i: int| 0 <= i < rows.len() && (taken[m].0 == rows[i].0);
        assert(!(rows[i].0 == pair.0));
    }
    lemma_users_of_none(taken, pair.0);
    assert(users_of(next, pair.0) =~= seq![pair.1]);
    assert forall|i: int| 0 <= i < after.len() implies {
        &&& 0 <= #[trigger] later[i] < next.len()
        &&& next[later[i]].0 == after[i].0
        &&& forall|m: int| 0 <= m < later[i] ==> !(next[m].0 == after[i].0)
        &&& after[i].1 == users_of(next, after[i].0)
    } by {
        if i < rows.len() {
            assert(0 <= first[i] < taken.len());
            assert(later[i] == first[i]);
            assert(next[first[i]] == taken[first[i]]);
            assert forall|m: int| 0 <= m < first[i] implies !(next[m].0 == after[i].0) by {
                assert(next[m] == taken[m]);
            }
            assert(!(rows[i].0 == pair.0));
        } else {
            assert forall|m: int| 0 <= m < later[i] implies !(next[m].0 == after[i].0) by {
                assert(next[m] == taken[m]);
            }
        }
    }
    assert forall|m: int| 0 <= m < next.len() implies exists|i: int| 0 <= i < after.len() && (#[trigger] next[m].0 == after[i].0) by {
        if m < taken.len() {
            assert(next[m] == taken[m]);
            let i = choose|i: int| 0 <= i < rows.len() && (taken[m].0 == rows[i].0);
            assert(after[i].0 == rows[i].0);
        } else {
            assert(after[rows.len() as int].0 == pair.0);
        }
    }
    assert forall|i: int, j: int| 0 <= i < after.len() && 0 <= j < after.len() && i != j implies !(after[i].0 == after[j].0) by {
        if i == rows.len() {
            assert(!(rows[j].0 == pair.0));
        } else if j == rows.len() {
            assert(!(rows[i].0 == pair.0));
        }
    }
}

/// Add `name` to row `f`.
fn join_row(rows: &mut Vec<(String, Vec<String>)>, f: usize, name: String)
    requires
        f < old(rows)@.len(),
    ensures
        final(rows)@.len() == old(rows)@.len(),
        forall|j: int| 0 <= j < final(rows)@.len() ==> (#[trigger] final(rows)@[j]).0 == old(rows)@[j].0,
        row_views(final(rows)@) == row_views(old(rows)@).update(
            f as int,
            (old(rows)@[f as int].0@, name_views(old(rows)@[f as int].1@).push(name@)),
        ),
{
    let ghost before = rows@;
    let (folder, mut names) = rows.remove(f);
    let ghost old_names = names@;
    names.push(name);
    assert(name_views(names@) =~= name_views(old_names).push(name@));
    rows.insert(f, (folder, names));
    assert forall|j: int| 0 <= j < rows@.len() implies (#[trigger] rows@[j]).0 == before[j].0 by {
        if j != f {
            assert(rows@[j] == before[j]);
        }
    }
    assert(row_views(rows@) =~= row_views(before).update(
        f as int,
        (before[f as int].0@, name_views(before[f as int].1@).push(name@)),
    ));
}

/// Add a row for `folder`, naming `name`.
fn add_row(rows: &mut Vec<(String, Vec<String>)>, folder: String, name: String)
    ensures
        row_views(final(rows)@) == row_views(old(rows)@).push((folder@, seq![name@])),
        final(rows)@ == old(rows)@.push(final(rows)@.last()),
        final(rows)@.last().0 == folder,
{
    let mut names: Vec<String> = Vec::new();
    names.push(name);
    assert(name_views(names@) =~= seq![name@]);
    rows.push((folder, names));
    assert(row_views(rows@) =~= row_views(old(rows)@).push((folder@, seq![name@])));
}

/// Every folder backed up on this computer, with the name of each backup
/// that includes it, in the order the backups are given. Two backups
/// covering the very same folder appear once, naming both.
pub fn local_folders(profiles: &[Profile]) -> (r: Vec<(String, Vec<String>)>)
    ensures
        exists|first: Seq<int>| folder_rows(covered(profiles@), row_views(r@), first),
        distinct_folders(row_views(r@)),
{
    let pairs = covered_pairs(profiles);
    let ghost pv = pair_views(pairs@);
    let mut rows: Vec<(String, Vec<String>)> = Vec::new();
    let mut keys: Vec<Vec<char>> = Vec::new();
    let ghost mut first: Seq<int> = Seq::empty();
    let mut n: usize = 0;
    while n < pairs.len()
        invariant
            n <= pairs@.len(),
            pv == pair_views(pairs@),
            keys@.len() == rows@.len(),
            forall|i: int| 0 <= i < keys@.len() ==> (#[trigger] keys@[i])@ == rows@[i].0@,
            folder_rows(pv.take(n as int), row_views(rows@), first),
            distinct_folders(row_views(rows@)),
        decreases pairs@.len() - n,
    {
        let ghost taken = pv.take(n as int);
        let ghost rv = row_views(rows@);
        assert(pv.take(n + 1) =~= taken.push(pv[n as int]));
        let source = chars_of(pairs[n].0.as_str());
        let mut found: Option<usize> = None;
        let mut i: usize = 0;
        while i < keys.len()
            invariant
                i <= keys@.len(),
                keys@.len() == rows@.len(),
                rv == row_views(rows@),
                forall|j: int| 0 <= j < keys@.len() ==> (#[trigger] keys@[j])@ == rows@[j].0@,
                source@ == pv[n as int].0,
                found is None ==> forall|j: int| 0 <= j < i ==> !same_path(#[trigger] rv[j].0, source@),
                found matches Some(f) ==> f < rows@.len() && same_path(rv[f as int].0, source@),
            decreases keys@.len() - i,
        {
            if found.is_none() && same_path_chars(keys[i].as_slice(), source.as_slice()) {
                found = Some(i);
            }
            i = i + 1;
        }
        let name = pairs[n].1.clone();
        assert(pv[n as int] == (pairs@[n as int].0@, pairs@[n as int].1@));
        match found {
            Some(f) => {
                join_row(&mut rows, f, name);
                proof {
                            lemma_row_joined(taken, pv[n as int], rv, first, f as int);
                }
            },
            None => {
                let folder = pairs[n].0.clone();
                add_row(&mut rows, folder, name);
                keys.push(source);
                proof {
                    lemma_row_added(taken, pv[n as int], rv, first);
                    first = first.push(n as int);
                }
            },
        }
        n = n + 1;
    }
    assert(pv.take(pv.len() as int) =~= pv);
    assert(folder_rows(covered(profiles@), row_views(rows@), first));
    rows
}

/// One storage location, and every backup that keeps a repository there.
#[derive(Debug, Clone, PartialEq, Eq)]
pub struct Location {
    pub destination: Destination,
    /// The names of the backups kept there, in the order they are given.
    pub used_by: Vec<String>,
}

/// Every backup's place and name, in order.
pub open spec fn places(profiles: Seq<Profile>) -> Seq<(DestinationView, Seq<char>)> {
    profiles.map_values(|p: Profile| (p.destination@, p.name@))
}

/// Locations, as their places and names.
pub open spec fn location_views(v: Seq<Location>) -> Seq<(DestinationView, Seq<Seq<char>>)> {
    v.map_values(|l: Location| (l.destination@, name_views(l.used_by@)))
}

/// Add `name` to location `f`.
fn join_location(rows: &mut Vec<Location>, f: usize, name: String)
    requires
        f < old(rows)@.len(),
    ensures
        location_views(final(rows)@) == location_views(old(rows)@).update(
            f as int,
            (old(rows)@[f as int].destination@, name_views(old(rows)@[f as int].used_by@).push(name@)),
        ),
{
    let ghost before = rows@;
    let mut place = rows.remove(f);
    let ghost old_names = place.used_by@;
    place.used_by.push(name);
    assert(name_views(place.used_by@) =~= name_views(old_names).push(name@));
    rows.insert(f, place);
    assert(location_views(rows@) =~= location_views(before).update(
        f as int,
        (before[f as int].destination@, name_views(before[f as int].used_by@).push(name@)),
    ));
}

/// Every storage location in use, with the name of each backup that keeps a
/// repository there. Two backups sharing a destination (the same folder,
/// the same server and path, …) appear once.
pub fn storage_locations(profiles: &[Profile]) -> (r: Vec<Location>)
    ensures
        exists|first: Seq<int>| place_rows(places(profiles@), location_views(r@), first),
        distinct_places(location_views(r@)),
{
    let ghost pv = places(profiles@);
    let mut rows: Vec<Location> = Vec::new();
    let ghost mut first: Seq<int> = Seq::empty();
    let mut n: usize = 0;
    while n < profiles.len()
        invariant
            n <= profiles@.len(),
            pv == places(profiles@),
            place_rows(pv.take(n as int), location_views(rows@), first),
            distinct_places(location_views(rows@)),
        decreases profiles@.len() - n,
    {
        let ghost taken = pv.take(n as int);
        let ghost rv = location_views(rows@);
        assert(pv.take(n + 1) =~= taken.push(pv[n as int]));
        let profile = &profiles[n];
        let mut found: Option<usize> = None;
        let mut i: usize = 0;
        while i < rows.len()
            invariant
                i <= rows@.len(),
                rv == location_views(rows@),
                n < profiles@.len(),
                *profile == profiles@[n as int],
                pv == places(profiles@),
                found is None ==> forall|j: int| 0 <= j < i ==> (#[trigger] rv[j]).0 != pv[n as int].0,
                found matches Some(f) ==> f < rows@.len() && rv[f as int].0 == pv[n as int].0,
            decreases rows@.len() - i,
        {
            assert(rv[i as int].0 == rows@[i as int].destination@);
            assert(pv[n as int].0 == profile.destination@);
            if found.is_none() && rows[i].destination.identical(&profile.destination) {
                found = Some(i);
            }
            i = i + 1;
        }
        let name = profile.name.clone();
        match found {
            Some(f) => {
                join_location(&mut rows, f, name);
                proof {
                    lemma_place_joined(taken, pv[n as int], rv, first, f as int);
                }
            },
            None => {
                let mut used_by: Vec<String> = Vec::new();
                used_by.push(name);
                assert(name_views(used_by@) =~= seq![pv[n as int].1]);
                rows.push(Location { destination: profile.destination.duplicate(), used_by });
                proof {
                    assert(location_views(rows@) =~= rv.push((pv[n as int].0, seq![pv[n as int].1])));
                    lemma_place_added(taken, pv[n as int], rv, first);
                    first = first.push(n as int);
                }
            },
        }
        n = n + 1;
    }
    assert(pv.take(pv.len() as int) =~= pv);
    rows
}

} // verus!
