//! The orders Stellarshot lists things in: text by character, as `String`
//! orders it, and paths component by component, as `Path` orders them.

use vstd::prelude::*;
use vstd::seq_lib::lemma_seq_contains_after_push;
use crate::path::{components, components_of, dot, slash};
use crate::profile::texts;
use crate::split::views;
use crate::text::{chars_of, same};

verus! {

/// `a` comes before `b` character by character, a text before any longer
/// one it starts: `String`'s `<`.
pub open spec fn text_less(a: Seq<char>, b: Seq<char>) -> bool
    decreases a.len(),
{
    if a.len() == 0 {
        b.len() > 0
    } else if b.len() == 0 {
        false
    } else if a[0] != b[0] {
        a[0] < b[0]
    } else {
        text_less(a.drop_first(), b.drop_first())
    }
}

/// Whether `a` comes before `b` as text.
pub fn text_before(a: &[char], b: &[char]) -> (r: bool)
    ensures
        r == text_less(a@, b@),
{
    let mut i: usize = 0;
    assert(a@.skip(0) =~= a@);
    assert(b@.skip(0) =~= b@);
    while i < a.len() && i < b.len()
        invariant
            i <= a@.len(),
            i <= b@.len(),
            forall|j: int| 0 <= j < i ==> a@[j] == b@[j],
            text_less(a@, b@) == text_less(a@.skip(i as int), b@.skip(i as int)),
        decreases a@.len() - i,
    {
        if a[i] != b[i] {
            return a[i] < b[i];
        }
        assert(a@.skip(i as int).drop_first() =~= a@.skip(i + 1));
        assert(b@.skip(i as int).drop_first() =~= b@.skip(i + 1));
        i = i + 1;
    }
    i == a.len() && i < b.len()
}

/// Where a component sorts among the kinds `Path` knows: the root first,
/// then `.`, then `..`, then names.
pub open spec fn rank(c: Seq<char>) -> int {
    if c == slash() {
        1
    } else if c == dot() {
        2
    } else if c == seq!['.', '.'] {
        3
    } else {
        4
    }
}

/// `a` comes before `b` as path components: by kind, then names as text.
pub open spec fn component_less(a: Seq<char>, b: Seq<char>) -> bool {
    rank(a) < rank(b) || (rank(a) == 4 && rank(b) == 4 && text_less(a, b))
}

/// `x` comes before `y` component by component, a path before any longer
/// one it starts.
pub open spec fn components_less(x: Seq<Seq<char>>, y: Seq<Seq<char>>) -> bool
    decreases x.len(),
{
    if x.len() == 0 {
        y.len() > 0
    } else if y.len() == 0 {
        false
    } else if x[0] != y[0] {
        component_less(x[0], y[0])
    } else {
        components_less(x.drop_first(), y.drop_first())
    }
}

/// `a` comes before `b` as `Path` orders them.
#[verifier::opaque]
pub open spec fn path_less(a: Seq<char>, b: Seq<char>) -> bool {
    components_less(components(a), components(b))
}

/// The kind of the component `c`.
fn rank_of(c: &[char]) -> (r: u8)
    ensures
        r == rank(c@),
{
    if c.len() == 1 && c[0] == '/' {
        assert(c@ =~= slash());
        1
    } else if c.len() == 1 && c[0] == '.' {
        assert(c@ =~= dot());
        2
    } else if c.len() == 2 && c[0] == '.' && c[1] == '.' {
        assert(c@ =~= seq!['.', '.']);
        3
    } else {
        proof {
            if c@ == slash() || c@ == dot() {
                assert(c@.len() == 1);
            }
            if c@ == seq!['.', '.'] {
                assert(c@.len() == 2);
            }
        }
        4
    }
}

/// Whether the path `a` comes before the path `b`.
pub fn path_before(a: &[char], b: &[char]) -> (r: bool)
    ensures
        r == path_less(a@, b@),
{
    assert(path_less(a@, b@) == components_less(components(a@), components(b@))) by {
        reveal(path_less);
    }
    let x = components_of(a);
    let y = components_of(b);
    let ghost xv = views(x@);
    let ghost yv = views(y@);
    let mut i: usize = 0;
    assert(xv.skip(0) =~= xv);
    assert(yv.skip(0) =~= yv);
    while i < x.len() && i < y.len()
        invariant
            xv == views(x@),
            yv == views(y@),
            xv == components(a@),
            yv == components(b@),
            path_less(a@, b@) == components_less(components(a@), components(b@)),
            i <= x@.len(),
            i <= y@.len(),
            components_less(xv, yv) == components_less(xv.skip(i as int), yv.skip(i as int)),
        decreases x@.len() - i,
    {
        assert(xv.skip(i as int)[0] == x@[i as int]@);
        assert(yv.skip(i as int)[0] == y@[i as int]@);
        if !same(x[i].as_slice(), y[i].as_slice()) {
            let p = rank_of(x[i].as_slice());
            let q = rank_of(y[i].as_slice());
            assert(xv.skip(i as int).len() > 0 && yv.skip(i as int).len() > 0);
            assert(components_less(xv.skip(i as int), yv.skip(i as int)) == component_less(x@[i as int]@, y@[i as int]@));
            let r = p < q || (p == 4 && q == 4 && text_before(x[i].as_slice(), y[i].as_slice()));
            assert(r == components_less(xv, yv));
            return r;
        }
        assert(xv.skip(i as int).drop_first() =~= xv.skip(i + 1));
        assert(yv.skip(i as int).drop_first() =~= yv.skip(i + 1));
        i = i + 1;
    }
    i == x.len() && i < y.len()
}

/// `t` with `x` put before the first path it comes before, or last.
pub open spec fn insert_by_path(t: Seq<Seq<char>>, x: Seq<char>) -> Seq<Seq<char>>
    decreases t.len(),
{
    if t.len() == 0 {
        seq![x]
    } else if path_less(x, t[0]) {
        seq![x] + t
    } else {
        seq![t[0]] + insert_by_path(t.drop_first(), x)
    }
}

/// The paths of `s` in `Path` order, those that compare equal in the order
/// they come.
pub open spec fn sort_by_path(s: Seq<Seq<char>>) -> Seq<Seq<char>>
    decreases s.len(),
{
    if s.len() == 0 {
        Seq::empty()
    } else {
        insert_by_path(sort_by_path(s.drop_last()), s.last())
    }
}

proof fn lemma_insert_by_path_at(t: Seq<Seq<char>>, x: Seq<char>, i: int)
    requires
        0 <= i <= t.len(),
        forall|j: int| 0 <= j < i ==> !path_less(x, #[trigger] t[j]),
    ensures
        insert_by_path(t, x) == t.take(i) + insert_by_path(t.skip(i), x),
    decreases i,
{
    if i > 0 {
        assert(!path_less(x, t[0]));
        lemma_insert_by_path_at(t.drop_first(), x, i - 1);
        assert(t.drop_first().take(i - 1) =~= t.take(i).drop_first());
        assert(t.drop_first().skip(i - 1) =~= t.skip(i));
        assert(t.take(i) =~= seq![t[0]] + t.take(i).drop_first());
    } else {
        assert(t.take(0) =~= Seq::<Seq<char>>::empty());
        assert(t.skip(0) =~= t);
    }
}

/// The paths of `v`, in `Path` order.
pub fn sorted_by_path(v: &Vec<String>) -> (r: Vec<String>)
    ensures
        texts(r@) == sort_by_path(texts(v@)),
{
    let mut out: Vec<String> = Vec::new();
    let mut k: usize = 0;
    while k < v.len()
        invariant
            k <= v@.len(),
            texts(out@) == sort_by_path(texts(v@).take(k as int)),
        decreases v@.len() - k,
    {
        let ghost before = texts(out@);
        let x = chars_of(v[k].as_str());
        let mut i: usize = 0;
        let mut here = false;
        while i < out.len() && !here
            invariant
                k < v@.len(),
                i <= out@.len(),
                x@ == v@[k as int]@,
                before == texts(out@),
                forall|j: int| 0 <= j < i ==> !path_less(x@, #[trigger] before[j]),
                here ==> i < out@.len() && path_less(x@, before[i as int]),
            decreases out@.len() - i, if here { 0int } else { 1int },
        {
            let y = chars_of(out[i].as_str());
            if path_before(x.as_slice(), y.as_slice()) {
                here = true;
            } else {
                i = i + 1;
            }
        }
        proof {
            lemma_insert_by_path_at(before, x@, i as int);
            if i < before.len() {
                assert(before.skip(i as int)[0] == before[i as int]);
            }
            assert(texts(v@).take(k + 1).drop_last() =~= texts(v@).take(k as int));
            assert(texts(v@).take(k + 1).last() == x@);
        }
        out.insert(i, v[k].clone());
        proof {
            if i < before.len() {
                assert(insert_by_path(before.skip(i as int), x@) == seq![x@] + before.skip(i as int));
            } else {
                assert(before.skip(i as int) =~= Seq::<Seq<char>>::empty());
            }
            assert(texts(out@) =~= before.take(i as int) + insert_by_path(before.skip(i as int), x@));
        }
        k = k + 1;
    }
    assert(texts(v@).take(v@.len() as int) =~= texts(v@));
    out
}

/// `text_less` orders texts: no text comes before itself, and it is
/// transitive.
pub proof fn lemma_text_order(a: Seq<char>, b: Seq<char>, c: Seq<char>)
    ensures
        !text_less(a, a),
        text_less(a, b) && text_less(b, c) ==> text_less(a, c),
    decreases a.len(),
{
    if a.len() > 0 {
        lemma_text_order(a.drop_first(), a.drop_first(), a.drop_first());
    }
    if text_less(a, b) && text_less(b, c) && a.len() > 0 && b.len() > 0 && c.len() > 0 {
        if a[0] == b[0] && b[0] == c[0] {
            lemma_text_order(a.drop_first(), b.drop_first(), c.drop_first());
        }
    }
}

/// `component_less` is transitive.
proof fn lemma_component_order(a: Seq<char>, b: Seq<char>, c: Seq<char>)
    ensures
        !component_less(a, a),
        component_less(a, b) && component_less(b, c) ==> component_less(a, c),
{
    lemma_text_order(a, b, c);
}

/// `components_less` orders paths' components: none comes before itself,
/// and it is transitive.
pub proof fn lemma_components_order(x: Seq<Seq<char>>, y: Seq<Seq<char>>, z: Seq<Seq<char>>)
    ensures
        !components_less(x, x),
        components_less(x, y) && components_less(y, z) ==> components_less(x, z),
    decreases x.len(),
{
    if x.len() > 0 {
        lemma_components_order(x.drop_first(), x.drop_first(), x.drop_first());
    }
    if components_less(x, y) && components_less(y, z) && x.len() > 0 && y.len() > 0 && z.len() > 0 {
        lemma_component_order(x[0], y[0], z[0]);
        if x[0] == y[0] && y[0] == z[0] {
            lemma_components_order(x.drop_first(), y.drop_first(), z.drop_first());
        }
    }
}

/// A path that comes before another is a different path.
pub proof fn lemma_path_less_differs(a: Seq<char>, b: Seq<char>)
    requires
        path_less(a, b),
    ensures
        components(a) != components(b),
{
    reveal(path_less);
    lemma_components_order(components(a), components(a), components(a));
}

/// `path_less` is transitive.
pub proof fn lemma_path_order(a: Seq<char>, b: Seq<char>, c: Seq<char>)
    ensures
        !path_less(a, a),
        path_less(a, b) && path_less(b, c) ==> path_less(a, c),
{
    reveal(path_less);
    lemma_components_order(components(a), components(b), components(c));
}

/// No path of `t` comes before an earlier one.
pub open spec fn in_path_order(t: Seq<Seq<char>>) -> bool {
    forall|i: int, j: int| 0 <= i < j < t.len() ==> !path_less(t[j], t[i])
}

proof fn lemma_insert_by_path_keeps(t: Seq<Seq<char>>, x: Seq<char>)
    requires
        in_path_order(t),
    ensures
        in_path_order(insert_by_path(t, x)),
        insert_by_path(t, x).len() == t.len() + 1,
        forall|e: Seq<char>| #[trigger] insert_by_path(t, x).contains(e) <==> (e == x || t.contains(e)),
    decreases t.len(),
{
    let r = insert_by_path(t, x);
    if t.len() == 0 {
        assert(r =~= seq![x]);
        assert forall|e: Seq<char>| r.contains(e) <==> (e == x || t.contains(e)) by {
            if r.contains(e) {
                assert(r[0] == e);
            }
            if e == x {
                assert(r[0] == x);
            }
        }
    } else if path_less(x, t[0]) {
        assert forall|i: int, j: int| 0 <= i < j < r.len() implies !path_less(r[j], r[i]) by {
            if i == 0 {
                assert(r[j] == t[j - 1]);
                if j - 1 > 0 {
                    assert(!path_less(t[j - 1], t[0]));
                }
                lemma_path_order(t[j - 1], x, t[0]);
            } else {
                assert(r[i] == t[i - 1]);
                assert(r[j] == t[j - 1]);
            }
        }
        assert forall|e: Seq<char>| r.contains(e) <==> (e == x || t.contains(e)) by {
            if r.contains(e) {
                let k = choose|k: int| 0 <= k < r.len() && r[k] == e;
                if k > 0 {
                    assert(t[k - 1] == e);
                }
            }
            if t.contains(e) {
                let k = choose|k: int| 0 <= k < t.len() && t[k] == e;
                assert(r[k + 1] == e);
            }
            if e == x {
                assert(r[0] == x);
            }
        }
    } else {
        let rest = t.drop_first();
        assert(in_path_order(rest)) by {
            assert forall|i: int, j: int| 0 <= i < j < rest.len() implies !path_less(rest[j], rest[i]) by {
                assert(rest[i] == t[i + 1]);
                assert(rest[j] == t[j + 1]);
            }
        }
        lemma_insert_by_path_keeps(rest, x);
        let tail = insert_by_path(rest, x);
        assert(r == seq![t[0]] + tail);
        assert forall|i: int, j: int| 0 <= i < j < r.len() implies !path_less(r[j], r[i]) by {
            if i == 0 {
                assert(r[j] == tail[j - 1]);
                assert(tail.contains(tail[j - 1]));
                if tail[j - 1] != x {
                    assert(rest.contains(tail[j - 1]));
                    let k = choose|k: int| 0 <= k < rest.len() && rest[k] == tail[j - 1];
                    assert(t[k + 1] == rest[k]);
                }
            } else {
                assert(r[i] == tail[i - 1]);
                assert(r[j] == tail[j - 1]);
            }
        }
        assert forall|e: Seq<char>| r.contains(e) <==> (e == x || t.contains(e)) by {
            if r.contains(e) {
                let k = choose|k: int| 0 <= k < r.len() && r[k] == e;
                if k > 0 {
                    assert(tail[k - 1] == e);
                    assert(tail.contains(e));
                    if e != x {
                        assert(rest.contains(e));
                        let m = choose|m: int| 0 <= m < rest.len() && rest[m] == e;
                        assert(rest[m] == t[m + 1]);
                    }
                } else {
                    assert(t[0] == e);
                }
            }
            if t.contains(e) {
                let k = choose|k: int| 0 <= k < t.len() && t[k] == e;
                if k > 0 {
                    assert(rest[k - 1] == e);
                    assert(tail.contains(e));
                    let m = choose|m: int| 0 <= m < tail.len() && tail[m] == e;
                    assert(r[m + 1] == e);
                } else {
                    assert(r[0] == e);
                }
            }
            if e == x {
                assert(insert_by_path(rest, x).contains(x));
                let m = choose|m: int| 0 <= m < tail.len() && tail[m] == x;
                assert(r[m + 1] == x);
            }
        }
    }
}

/// Sorting paths puts them in `Path` order, and keeps every path and no
/// other, as many as there were.
pub proof fn lemma_sort_by_path(s: Seq<Seq<char>>)
    ensures
        in_path_order(sort_by_path(s)),
        sort_by_path(s).len() == s.len(),
        forall|e: Seq<char>| #[trigger] sort_by_path(s).contains(e) <==> s.contains(e),
    decreases s.len(),
{
    if s.len() > 0 {
        let rest = s.drop_last();
        lemma_sort_by_path(rest);
        lemma_insert_by_path_keeps(sort_by_path(rest), s.last());
        assert(s =~= rest.push(s.last()));
        assert(sort_by_path(s) == insert_by_path(sort_by_path(rest), s.last()));
        assert forall|e: Seq<char>| sort_by_path(s).contains(e) <==> s.contains(e) by {
            lemma_seq_contains_after_push(rest, s.last(), e);
            assert(insert_by_path(sort_by_path(rest), s.last()).contains(e) <==> (e == s.last() || sort_by_path(rest).contains(e)));
            assert(sort_by_path(rest).contains(e) <==> rest.contains(e));
        }
    }
}

/// Of two different texts, one comes before the other.
pub proof fn lemma_text_total(a: Seq<char>, b: Seq<char>)
    requires
        a != b,
    ensures
        text_less(a, b) || text_less(b, a),
    decreases a.len(),
{
    if a.len() > 0 && b.len() > 0 && a[0] == b[0] {
        if a.drop_first() == b.drop_first() {
            assert(a =~= seq![a[0]] + a.drop_first());
            assert(b =~= seq![b[0]] + b.drop_first());
        }
        lemma_text_total(a.drop_first(), b.drop_first());
    }
    if a.len() > 0 && b.len() > 0 && a[0] != b[0] {
        assert(a[0] < b[0] || b[0] < a[0]);
    }
    if a.len() == 0 && b.len() == 0 {
        assert(a =~= b);
    }
}

/// Of two different components, one comes before the other.
proof fn lemma_component_total(a: Seq<char>, b: Seq<char>)
    requires
        a != b,
    ensures
        component_less(a, b) || component_less(b, a),
{
    if rank(a) == 4 && rank(b) == 4 {
        lemma_text_total(a, b);
    }
}

/// Of two paths with different components, one comes before the other.
pub proof fn lemma_components_total(x: Seq<Seq<char>>, y: Seq<Seq<char>>)
    requires
        x != y,
    ensures
        components_less(x, y) || components_less(y, x),
    decreases x.len(),
{
    if x.len() > 0 && y.len() > 0 {
        if x[0] == y[0] {
            if x.drop_first() == y.drop_first() {
                assert(x =~= seq![x[0]] + x.drop_first());
                assert(y =~= seq![y[0]] + y.drop_first());
            }
            lemma_components_total(x.drop_first(), y.drop_first());
        } else {
            lemma_component_total(x[0], y[0]);
        }
    }
    if x.len() == 0 && y.len() == 0 {
        assert(x =~= y);
    }
}

/// Of two different paths (as `Path` compares them), one comes before the
/// other.
pub proof fn lemma_path_total(a: Seq<char>, b: Seq<char>)
    requires
        components(a) != components(b),
    ensures
        path_less(a, b) || path_less(b, a),
{
    reveal(path_less);
    lemma_components_total(components(a), components(b));
}

/// The items placed so far: each is one of the first `k` of `all`, each of
/// those is placed, and their keys are in path order.
pub open spec fn placed<T>(out: Seq<(String, T)>, all: Seq<(String, T)>, k: int) -> bool {
    &&& forall|i: int| 0 <= i < out.len() ==> exists|j: int| 0 <= j < k && #[trigger] out[i] == all[j]
    &&& forall|j: int| 0 <= j < k ==> exists|i: int| 0 <= i < out.len() && out[i] == #[trigger] all[j]
    &&& forall|i: int, j: int| 0 <= i < j < out.len() ==> path_less(#[trigger] out[i].0@, #[trigger] out[j].0@)
}

/// Placing the next item keeps the keys in path order.
proof fn lemma_placed_order<T>(before: Seq<(String, T)>, x: (String, T), i: int)
    requires
        0 <= i <= before.len(),
        forall|a: int, b: int| 0 <= a < b < before.len() ==> path_less(#[trigger] before[a].0@, #[trigger] before[b].0@),
        forall|a: int| 0 <= a < before.len() ==> components(#[trigger] before[a].0@) != components(x.0@),
        forall|j: int| 0 <= j < i ==> !path_less(x.0@, #[trigger] before[j].0@),
        i < before.len() ==> path_less(x.0@, before[i].0@),
    ensures
        forall|a: int, b: int|
            0 <= a < b < before.insert(i, x).len() ==> path_less(
                #[trigger] before.insert(i, x)[a].0@,
                #[trigger] before.insert(i, x)[b].0@,
            ),
{
    let out = before.insert(i, x);
    assert forall|a: int, b: int| 0 <= a < b < out.len() implies path_less(#[trigger] out[a].0@, #[trigger] out[b].0@) by {
        if b < i {
            assert(out[a] == before[a] && out[b] == before[b]);
        } else if b == i {
            assert(out[a] == before[a]);
            lemma_path_total(x.0@, before[a].0@);
        } else if a == i {
            assert(out[b] == before[b - 1]);
            if b - 1 > i {
                assert(path_less(before[i].0@, before[b - 1].0@));
                lemma_path_order(x.0@, before[i].0@, before[b - 1].0@);
            }
        } else if a < i {
            assert(out[a] == before[a] && out[b] == before[b - 1]);
        } else {
            assert(out[a] == before[a - 1] && out[b] == before[b - 1]);
        }
    }
}

/// Placing the next item keeps every item placed, and no other.
proof fn lemma_placed_members<T>(before: Seq<(String, T)>, all: Seq<(String, T)>, k: int, i: int)
    requires
        0 <= k < all.len(),
        0 <= i <= before.len(),
        placed(before, all, k),
    ensures
        forall|a: int|
            0 <= a < before.insert(i, all[k]).len() ==> exists|j: int|
                0 <= j < k + 1 && #[trigger] before.insert(i, all[k])[a] == all[j],
        forall|j: int|
            0 <= j < k + 1 ==> exists|a: int|
                0 <= a < before.insert(i, all[k]).len() && before.insert(i, all[k])[a] == #[trigger] all[j],
{
    let out = before.insert(i, all[k]);
    assert forall|a: int| 0 <= a < out.len() implies exists|j: int| 0 <= j < k + 1 && #[trigger] out[a] == all[j] by {
        if a < i {
            assert(out[a] == before[a]);
        } else if a == i {
            assert(out[a] == all[k]);
        } else {
            assert(out[a] == before[a - 1]);
        }
    }
    assert forall|j: int| 0 <= j < k + 1 implies exists|a: int| 0 <= a < out.len() && out[a] == #[trigger] all[j] by {
        if j < k {
            let a = choose|a: int| 0 <= a < before.len() && before[a] == all[j];
            if a < i {
                assert(out[a] == before[a]);
            } else {
                assert(out[a + 1] == before[a]);
            }
        } else {
            assert(out[i] == all[k]);
        }
    }
}

/// Placing the next item before the first whose key comes after its own
/// keeps the items placed.
proof fn lemma_placed_insert<T>(before: Seq<(String, T)>, all: Seq<(String, T)>, k: int, i: int)
    requires
        0 <= k < all.len(),
        0 <= i <= before.len(),
        placed(before, all, k),
        forall|a: int, b: int|
            0 <= a < all.len() && 0 <= b < all.len() && a != b ==> components(all[a].0@) != components(all[b].0@),
        forall|j: int| 0 <= j < i ==> !path_less(all[k].0@, #[trigger] before[j].0@),
        i < before.len() ==> path_less(all[k].0@, before[i].0@),
    ensures
        placed(before.insert(i, all[k]), all, k + 1),
{
    assert forall|a: int| 0 <= a < before.len() implies components(#[trigger] before[a].0@) != components(all[k].0@) by {
        let j = choose|j: int| 0 <= j < k && before[a] == all[j];
        assert(j != k);
    }
    lemma_placed_order(before, all[k], i);
    lemma_placed_members(before, all, k, i);
}

/// `groups` in the path order of their keys, which must name different
/// paths.
pub fn sort_by_key_path<T>(groups: Vec<(String, T)>) -> (r: Vec<(String, T)>)
    requires
        forall|i: int, j: int|
            0 <= i < groups@.len() && 0 <= j < groups@.len() && i != j ==> components(groups@[i].0@) != components(
                groups@[j].0@,
            ),
    ensures
        placed(r@, groups@, groups@.len() as int),
{
    let ghost all = groups@;
    let mut rest = groups;
    let mut out: Vec<(String, T)> = Vec::new();
    let ghost mut k: int = 0;
    while rest.len() > 0
        invariant
            0 <= k <= all.len(),
            rest@ == all.skip(k),
            forall|i: int, j: int|
                0 <= i < all.len() && 0 <= j < all.len() && i != j ==> components(all[i].0@) != components(all[j].0@),
            placed(out@, all, k),
        decreases rest@.len(),
    {
        let ghost before = out@;
        let x = rest.remove(0);
        assert(rest@ =~= all.skip(k + 1));
        assert(x == all[k]) by {
            assert(all.skip(k)[0] == all[k]);
        }
        let key = chars_of(x.0.as_str());
        let mut i: usize = 0;
        let mut here = false;
        while i < out.len() && !here
            invariant
                i <= out@.len(),
                key@ == x.0@,
                before == out@,
                forall|j: int| 0 <= j < i ==> !path_less(x.0@, #[trigger] before[j].0@),
                here ==> i < out@.len() && path_less(x.0@, before[i as int].0@),
            decreases out@.len() - i, if here { 0int } else { 1int },
        {
            let other = chars_of(out[i].0.as_str());
            if path_before(key.as_slice(), other.as_slice()) {
                here = true;
            } else {
                i = i + 1;
            }
        }
        proof {
            lemma_placed_insert(before, all, k, i as int);
        }
        out.insert(i, x);
        proof {
            k = k + 1;
        }
    }
    assert(k == all.len());
    out
}

} // verus!
