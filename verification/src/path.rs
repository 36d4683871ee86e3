//! File system paths, held as text and compared the way `std::path::Path`
//! compares them: component by component.
//!
//! A path's components are its root (written `/`), a leading `.` of a
//! relative path, and its names; empty names and inner `.`s are skipped.
//! Two paths are equal, and one starts with another, by these components.

use vstd::prelude::*;
use crate::split::{split_at_char, split_char, views, lemma_split_char_nonempty};
use crate::text::{extend, same, slice};

verus! {

/// The text `.`.
pub open spec fn dot() -> Seq<char> {
    seq!['.']
}

/// The text `/`, which also stands for the root component.
pub open spec fn slash() -> Seq<char> {
    seq!['/']
}

/// The pieces of `parts` that name something: not empty and not `.`.
pub open spec fn named(parts: Seq<Seq<char>>) -> Seq<Seq<char>>
    decreases parts.len(),
{
    if parts.len() == 0 {
        Seq::empty()
    } else {
        let before = named(parts.drop_last());
        let p = parts.last();
        if p.len() == 0 || p == dot() {
            before
        } else {
            before.push(p)
        }
    }
}

/// The components of the path `p`, as `Path::components` yields them.
pub open spec fn components(p: Seq<char>) -> Seq<Seq<char>> {
    let parts = split_char(p, '/');
    if p.len() > 0 && p[0] == '/' {
        seq![slash()] + named(parts.drop_first())
    } else if parts[0] == dot() {
        seq![dot()] + named(parts.drop_first())
    } else {
        named(parts)
    }
}

/// `a` is `b` or starts it.
pub open spec fn is_prefix(a: Seq<Seq<char>>, b: Seq<Seq<char>>) -> bool {
    a.len() <= b.len() && b.subrange(0, a.len() as int) == a
}

/// `Path::starts_with`: the components of `base` begin those of `p`.
pub open spec fn path_starts_with(p: Seq<char>, base: Seq<char>) -> bool {
    is_prefix(components(base), components(p))
}

/// `Path`'s `==`: the same components.
pub open spec fn same_path(p: Seq<char>, q: Seq<char>) -> bool {
    components(p) == components(q)
}

/// The components joined back into a path, as collecting them into a
/// `PathBuf` writes it.
pub open spec fn from_components(c: Seq<Seq<char>>) -> Seq<char> {
    if c.len() > 0 && c[0] == slash() {
        slash() + join_names(c.drop_first())
    } else {
        join_names(c)
    }
}

/// Names joined with `/` between them.
pub open spec fn join_names(c: Seq<Seq<char>>) -> Seq<char>
    decreases c.len(),
{
    if c.len() == 0 {
        Seq::empty()
    } else if c.len() == 1 {
        c[0]
    } else {
        join_names(c.drop_last()) + slash() + c.last()
    }
}

/// The last component of `p`, if it is a name: `Path::file_name`.
pub open spec fn file_name(p: Seq<char>) -> Option<Seq<char>> {
    let c = components(p);
    if c.len() > 0 && c.last() != slash() && c.last() != dot() && c.last() != seq!['.', '.'] {
        Some(c.last())
    } else {
        None
    }
}

/// What is left of `p` after `base`, when `p` starts with `base`:
/// `Path::strip_prefix`, written as its components joined.
pub open spec fn strip_prefix(p: Seq<char>, base: Seq<char>) -> Option<Seq<char>> {
    if path_starts_with(p, base) {
        Some(join_names(components(p).skip(components(base).len() as int)))
    } else {
        None
    }
}

/// `p` with `rest` added: `PathBuf::push`. A `rest` that starts at the
/// root replaces `p`; otherwise a `/` goes between them unless `p` is empty
/// or already ends with one.
pub open spec fn join(p: Seq<char>, rest: Seq<char>) -> Seq<char> {
    if rest.len() > 0 && rest[0] == '/' {
        rest
    } else if p.len() == 0 || p.last() == '/' {
        p + rest
    } else {
        p + slash() + rest
    }
}

/// The names among `parts`.
fn named_of(parts: &Vec<Vec<char>>, from: usize) -> (r: Vec<Vec<char>>)
    requires
        from <= parts@.len(),
    ensures
        views(r@) == named(views(parts@).subrange(from as int, parts@.len() as int)),
{
    let ghost all = views(parts@).subrange(from as int, parts@.len() as int);
    let mut r: Vec<Vec<char>> = Vec::new();
    let mut i = from;
    assert(all.subrange(0, 0) =~= Seq::<Seq<char>>::empty());
    while i < parts.len()
        invariant
            from <= i <= parts@.len(),
            all == views(parts@).subrange(from as int, parts@.len() as int),
            views(r@) == named(all.subrange(0, i - from)),
        decreases parts@.len() - i,
    {
        let ghost pre = all.subrange(0, i - from);
        let ghost next = all.subrange(0, i - from + 1);
        assert(next.drop_last() =~= pre);
        assert(next.last() == parts@[i as int]@);
        let part = &parts[i];
        let is_dot = part.len() == 1 && part[0] == '.';
        assert(is_dot == (part@ == dot())) by {
            if part@.len() == 1 && part@[0] == '.' {
                assert(part@ =~= dot());
            }
        }
        if part.len() > 0 && !is_dot {
            let ghost before = views(r@);
            r.push(slice(part.as_slice(), 0, part.len()));
            assert(part@.subrange(0, part@.len() as int) =~= part@);
            assert(views(r@) =~= before.push(part@));
        }
        i = i + 1;
    }
    assert(all.subrange(0, parts@.len() - from) =~= all);
    r
}

/// The components of the path `v`.
pub fn components_of(v: &[char]) -> (r: Vec<Vec<char>>)
    ensures
        views(r@) == components(v@),
{
    let parts = split_at_char(v, '/');
    proof {
        lemma_split_char_nonempty(v@, '/');
    }
    let rooted = v.len() > 0 && v[0] == '/';
    let first_dot = parts[0].len() == 1 && parts[0][0] == '.';
    assert(first_dot == (views(parts@)[0] == dot())) by {
        if parts@[0]@.len() == 1 && parts@[0]@[0] == '.' {
            assert(parts@[0]@ =~= dot());
        }
    }
    if rooted || first_dot {
        let rest = named_of(&parts, 1);
        assert(views(parts@).subrange(1, parts@.len() as int) =~= views(parts@).drop_first());
        let mut r: Vec<Vec<char>> = Vec::new();
        let mut head: Vec<char> = Vec::new();
        if rooted {
            head.push('/');
            assert(head@ =~= slash());
        } else {
            head.push('.');
            assert(head@ =~= dot());
        }
        r.push(head);
        let mut i: usize = 0;
        while i < rest.len()
            invariant
                i <= rest@.len(),
                r@.len() == i + 1,
                views(r@) =~= seq![if rooted { slash() } else { dot() }] + views(rest@).subrange(0, i as int),
            decreases rest@.len() - i,
        {
            let ghost before = views(r@);
            r.push(slice(rest[i].as_slice(), 0, rest[i].len()));
            assert(rest@[i as int]@.subrange(0, rest@[i as int]@.len() as int) =~= rest@[i as int]@);
            assert(views(r@) =~= before.push(views(rest@)[i as int]));
            i = i + 1;
        }
        assert(views(rest@).subrange(0, rest@.len() as int) =~= views(rest@));
        r
    } else {
        let r = named_of(&parts, 0);
        assert(views(parts@).subrange(0, parts@.len() as int) =~= views(parts@));
        r
    }
}

/// Whether `a` begins `b`.
fn prefix_of(a: &Vec<Vec<char>>, b: &Vec<Vec<char>>) -> (r: bool)
    ensures
        r == is_prefix(views(a@), views(b@)),
{
    if a.len() > b.len() {
        return false;
    }
    let mut i: usize = 0;
    while i < a.len()
        invariant
            a@.len() <= b@.len(),
            i <= a@.len(),
            forall|j: int| 0 <= j < i ==> views(a@)[j] == views(b@)[j],
        decreases a@.len() - i,
    {
        if !same(a[i].as_slice(), b[i].as_slice()) {
            assert(views(b@).subrange(0, a@.len() as int)[i as int] != views(a@)[i as int]);
            return false;
        }
        i = i + 1;
    }
    assert(views(b@).subrange(0, a@.len() as int) =~= views(a@));
    true
}

/// Whether the path `p` starts with the path `base`: `Path::starts_with`.
pub fn starts_with_path(p: &[char], base: &[char]) -> (r: bool)
    ensures
        r == path_starts_with(p@, base@),
{
    let a = components_of(base);
    let b = components_of(p);
    prefix_of(&a, &b)
}

/// Whether `p` and `q` are the same path: `Path`'s `==`.
pub fn same_path_chars(p: &[char], q: &[char]) -> (r: bool)
    ensures
        r == same_path(p@, q@),
{
    let a = components_of(p);
    let b = components_of(q);
    if a.len() != b.len() {
        assert(views(a@).len() != views(b@).len());
        return false;
    }
    let r = prefix_of(&a, &b);
    assert(views(b@).subrange(0, a@.len() as int) =~= views(b@));
    r
}

/// The components of `c` from `from` on, joined with `/`.
pub fn join_names_of(c: &Vec<Vec<char>>, from: usize) -> (r: Vec<char>)
    requires
        from <= c@.len(),
    ensures
        r@ == join_names(views(c@).skip(from as int)),
{
    let ghost all = views(c@).skip(from as int);
    let mut r: Vec<char> = Vec::new();
    let mut i = from;
    assert(all.subrange(0, 0) =~= Seq::<Seq<char>>::empty());
    while i < c.len()
        invariant
            from <= i <= c@.len(),
            all == views(c@).skip(from as int),
            r@ == join_names(all.subrange(0, i - from)),
        decreases c@.len() - i,
    {
        let ghost next = all.subrange(0, i - from + 1);
        assert(next.drop_last() =~= all.subrange(0, i - from));
        assert(next.last() == c@[i as int]@);
        if i > from {
            r.push('/');
            proof {
                assert(seq!['/'] =~= slash());
            }
        }
        let ghost mid = r@;
        extend(&mut r, c[i].as_slice());
        proof {
            if i == from {
                assert(next.len() == 1);
                assert(r@ =~= next[0]);
            } else {
                assert(r@ =~= join_names(next.drop_last()) + slash() + next.last());
            }
        }
        i = i + 1;
    }
    assert(all.subrange(0, c@.len() - from) =~= all);
    r
}

/// The last component of `v`, if it is a name: `Path::file_name`.
pub fn file_name_of(v: &[char]) -> (r: Option<Vec<char>>)
    ensures
        match r {
            Some(n) => file_name(v@) == Some(n@),
            None => file_name(v@) is None,
        },
{
    let c = components_of(v);
    if c.len() == 0 {
        return None;
    }
    let last = &c[c.len() - 1];
    let is_root = last.len() == 1 && last[0] == '/';
    let is_dot = last.len() == 1 && last[0] == '.';
    let is_up = last.len() == 2 && last[0] == '.' && last[1] == '.';
    proof {
        let l = views(c@).last();
        assert(l == last@);
        if last@.len() == 1 {
            assert(is_root == (l =~= slash()));
            assert(is_dot == (l =~= dot()));
            assert(l != seq!['.', '.']);
        } else if last@.len() == 2 {
            assert(is_up == (l =~= seq!['.', '.']));
            assert(l != slash() && l != dot());
        } else {
            assert(l != slash() && l != dot() && l != seq!['.', '.']);
        }
    }
    if is_root || is_dot || is_up {
        None
    } else {
        Some(slice(last.as_slice(), 0, last.len()))
    }
}

/// What is left of `p` after `base`: `Path::strip_prefix`.
pub fn strip_prefix_of(p: &[char], base: &[char]) -> (r: Option<Vec<char>>)
    ensures
        match r {
            Some(rest) => strip_prefix(p@, base@) == Some(rest@),
            None => strip_prefix(p@, base@) is None,
        },
{
    let a = components_of(base);
    let b = components_of(p);
    if !prefix_of(&a, &b) {
        return None;
    }
    Some(join_names_of(&b, a.len()))
}

/// `p` with `rest` added: `PathBuf::push`.
pub fn join_path(p: &[char], rest: &[char]) -> (r: Vec<char>)
    ensures
        r@ == join(p@, rest@),
{
    if rest.len() > 0 && rest[0] == '/' {
        return slice(rest, 0, rest.len());
    }
    let mut r = slice(p, 0, p.len());
    if p.len() > 0 && p[p.len() - 1] != '/' {
        r.push('/');
        assert(seq!['/'] =~= slash());
    }
    extend(&mut r, rest);
    proof {
        assert(p@.subrange(0, p@.len() as int) =~= p@);
        assert(rest@.subrange(0, rest@.len() as int) =~= rest@);
        if p@.len() > 0 && p@.last() != '/' {
            assert(r@ =~= p@ + slash() + rest@);
        }
    }
    r
}

/// Components written back as a path.
pub fn from_components_of(c: &Vec<Vec<char>>) -> (r: Vec<char>)
    ensures
        r@ == from_components(views(c@)),
{
    if c.len() > 0 && c[0].len() == 1 && c[0][0] == '/' {
        assert(views(c@)[0] =~= slash());
        let mut r: Vec<char> = Vec::new();
        r.push('/');
        let rest = join_names_of(c, 1);
        extend(&mut r, rest.as_slice());
        assert(views(c@).skip(1) =~= views(c@).drop_first());
        assert(r@ =~= slash() + join_names(views(c@).drop_first()));
        r
    } else {
        proof {
            if c@.len() > 0 && views(c@)[0] == slash() {
                assert(c@[0]@.len() == 1 && c@[0]@[0] == '/');
            }
        }
        let r = join_names_of(c, 0);
        assert(views(c@).skip(0) =~= views(c@));
        r
    }
}

/// A path is the same path as itself.
pub proof fn lemma_same_path_reflexive(p: Seq<char>)
    ensures
        same_path(p, p),
{
}

/// Every path starts with itself.
pub proof fn lemma_starts_with_itself(p: Seq<char>)
    ensures
        path_starts_with(p, p),
{
    assert(components(p).subrange(0, components(p).len() as int) =~= components(p));
}

/// Starting with is transitive: a path inside `b`, which is inside `c`, is
/// inside `c`.
pub proof fn lemma_starts_with_transitive(a: Seq<char>, b: Seq<char>, c: Seq<char>)
    requires
        path_starts_with(a, b),
        path_starts_with(b, c),
    ensures
        path_starts_with(a, c),
{
    let ca = components(a);
    let cb = components(b);
    let cc = components(c);
    assert(ca.subrange(0, cc.len() as int) =~= cb.subrange(0, cc.len() as int));
}

} // verus!
