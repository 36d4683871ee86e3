//! Cutting text into pieces: at one character, into lines, and into words
//! separated by white space.

use vstd::prelude::*;
use crate::text::{is_space, slice, space};

verus! {

/// The texts `v` holds.
pub open spec fn views(v: Seq<Vec<char>>) -> Seq<Seq<char>> {
    v.map_values(|x: Vec<char>| x@)
}

/// The pieces of `s` between each `c`, as `str::split(c)` gives them: one
/// more piece than there are `c`s, empty ones included.
pub open spec fn split_char(s: Seq<char>, c: char) -> Seq<Seq<char>>
    decreases s.len(),
{
    if s.len() == 0 {
        seq![Seq::empty()]
    } else {
        let before = split_char(s.drop_last(), c);
        if s.last() == c {
            before.push(Seq::empty())
        } else {
            before.update(before.len() - 1, before.last().push(s.last()))
        }
    }
}

pub proof fn lemma_split_char_nonempty(s: Seq<char>, c: char)
    ensures
        split_char(s, c).len() >= 1,
    decreases s.len(),
{
    if s.len() > 0 {
        lemma_split_char_nonempty(s.drop_last(), c);
    }
}

/// The pieces of `v` between each `c`.
pub fn split_at_char(v: &[char], c: char) -> (r: Vec<Vec<char>>)
    ensures
        views(r@) == split_char(v@, c),
{
    let mut done: Vec<Vec<char>> = Vec::new();
    let mut cur: Vec<char> = Vec::new();
    let mut i: usize = 0;
    assert(v@.subrange(0, 0) =~= Seq::<char>::empty());
    while i < v.len()
        invariant
            i <= v@.len(),
            views(done@).push(cur@) == split_char(v@.subrange(0, i as int), c),
        decreases v@.len() - i,
    {
        let ghost before = v@.subrange(0, i as int);
        assert(v@.subrange(0, i + 1).drop_last() =~= before);
        proof {
            lemma_split_char_nonempty(before, c);
        }
        if v[i] == c {
            done.push(cur);
            cur = Vec::new();
            assert(views(done@) =~= split_char(before, c));
        } else {
            let ghost old_cur = cur@;
            cur.push(v[i]);
            assert(views(done@).push(cur@) =~= split_char(before, c).update(
                split_char(before, c).len() - 1,
                old_cur.push(v@[i as int]),
            ));
        }
        i = i + 1;
    }
    assert(v@.subrange(0, v@.len() as int) =~= v@);
    done.push(cur);
    done
}

/// `s` without one `\r` at its end.
pub open spec fn strip_cr(s: Seq<char>) -> Seq<char> {
    if s.len() > 0 && s.last() == '\r' {
        s.drop_last()
    } else {
        s
    }
}

/// The lines of `s`, as `str::lines` gives them: split at `\n`, a final
/// empty piece after the last `\n` dropped, and one `\r` dropped from the
/// end of each line that a `\n` ended.
pub open spec fn lines(s: Seq<char>) -> Seq<Seq<char>> {
    let p = split_char(s, '\n');
    let n = if p.last().len() == 0 {
        p.len() - 1
    } else {
        p.len() as int
    };
    Seq::new(
        n as nat,
        |i: int|
            if i < p.len() - 1 {
                strip_cr(p[i])
            } else {
                p[i]
            },
    )
}

/// The lines of `v`.
pub fn lines_of(v: &[char]) -> (r: Vec<Vec<char>>)
    ensures
        views(r@) == lines(v@),
{
    let pieces = split_at_char(v, '\n');
    proof {
        lemma_split_char_nonempty(v@, '\n');
    }
    let count = pieces.len();
    let n = if pieces[count - 1].len() == 0 {
        count - 1
    } else {
        count
    };
    let mut r: Vec<Vec<char>> = Vec::new();
    let mut i: usize = 0;
    while i < n
        invariant
            views(pieces@) == split_char(v@, '\n'),
            count == pieces@.len(),
            count >= 1,
            n <= count,
            n == (if views(pieces@).last().len() == 0 { count - 1 } else { count as int }),
            i <= n,
            views(r@) =~= lines(v@).subrange(0, i as int),
        decreases n - i,
    {
        let piece = &pieces[i];
        let ghost before = views(r@);
        assert(piece@ == views(pieces@)[i as int]);
        if i + 1 < count && piece.len() > 0 && piece[piece.len() - 1] == '\r' {
            r.push(slice(piece.as_slice(), 0, piece.len() - 1));
            assert(piece@.drop_last() =~= piece@.subrange(0, piece@.len() - 1));
        } else {
            r.push(slice(piece.as_slice(), 0, piece.len()));
            assert(piece@ =~= piece@.subrange(0, piece@.len() as int));
        }
        assert(views(r@) =~= before.push(lines(v@)[i as int]));
        i = i + 1;
    }
    r
}

/// The words found so far in `s`, and the word still being read.
pub open spec fn scan_words(s: Seq<char>) -> (Seq<Seq<char>>, Seq<char>)
    decreases s.len(),
{
    if s.len() == 0 {
        (Seq::empty(), Seq::empty())
    } else {
        let (done, cur) = scan_words(s.drop_last());
        if is_space(s.last()) {
            if cur.len() > 0 {
                (done.push(cur), Seq::empty())
            } else {
                (done, cur)
            }
        } else {
            (done, cur.push(s.last()))
        }
    }
}

/// The words of `s` as `str::split_whitespace` gives them: the longest runs
/// of characters that are not white space.
pub open spec fn words(s: Seq<char>) -> Seq<Seq<char>> {
    let (done, cur) = scan_words(s);
    if cur.len() > 0 {
        done.push(cur)
    } else {
        done
    }
}

/// The words of `v`.
pub fn words_of(v: &[char]) -> (r: Vec<Vec<char>>)
    ensures
        views(r@) == words(v@),
{
    let mut done: Vec<Vec<char>> = Vec::new();
    let mut cur: Vec<char> = Vec::new();
    let mut i: usize = 0;
    assert(v@.subrange(0, 0) =~= Seq::<char>::empty());
    while i < v.len()
        invariant
            i <= v@.len(),
            (views(done@), cur@) == scan_words(v@.subrange(0, i as int)),
        decreases v@.len() - i,
    {
        let ghost before = v@.subrange(0, i as int);
        assert(v@.subrange(0, i + 1).drop_last() =~= before);
        if space(v[i]) {
            if cur.len() > 0 {
                done.push(cur);
                cur = Vec::new();
                assert(views(done@) =~= scan_words(before).0.push(scan_words(before).1));
            }
        } else {
            cur.push(v[i]);
        }
        i = i + 1;
    }
    assert(v@.subrange(0, v@.len() as int) =~= v@);
    if cur.len() > 0 {
        let ghost d = views(done@);
        done.push(cur);
        assert(views(done@) =~= d.push(scan_words(v@).1));
    }
    done
}

} // verus!
