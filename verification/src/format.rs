//! How long ago something happened, and paths as the file manager shows
//! them.

use vstd::prelude::*;
use crate::path::{strip_prefix, strip_prefix_of};
use crate::text::{chars_of, extend, string_of};

verus! {

/// How long ago something happened, in the largest whole unit.
#[derive(Debug, Clone, Copy, PartialEq, Eq, Structural)]
pub enum Ago {
    JustNow,
    Minutes(i64),
    Hours(i64),
    Days(i64),
}

/// The age of `then` at `now`, in seconds, never below zero.
pub open spec fn age(now: i64, then: i64) -> int {
    if now - then > 0 {
        now - then
    } else {
        0
    }
}

/// How long before `now` the Unix time `then` was, in the largest whole unit.
pub open spec fn ago_spec(now: i64, then: i64) -> Ago {
    let s = age(now, then);
    if s < 60 {
        Ago::JustNow
    } else if s < 3600 {
        Ago::Minutes((s / 60) as i64)
    } else if s < 86_400 {
        Ago::Hours((s / 3600) as i64)
    } else {
        Ago::Days((s / 86_400) as i64)
    }
}

/// How long before `now` the Unix time `then` was. A time in the future (a
/// clock that moved) reads as "just now" rather than a negative age.
pub fn ago(now: i64, then: i64) -> (r: Ago)
    requires
        i64::MIN <= now - then <= i64::MAX,
    ensures
        r == ago_spec(now, then),
{
    let diff = now - then;
    let seconds = if diff > 0 { diff } else { 0 };
    if seconds < 60 {
        Ago::JustNow
    } else if seconds < 3600 {
        Ago::Minutes(seconds / 60)
    } else if seconds < 86_400 {
        Ago::Hours(seconds / 3600)
    } else {
        Ago::Days(seconds / 86_400)
    }
}

/// `path` as the file manager shows it, given the home folder: `~` for the
/// home folder itself, `~/rest` inside it, and the path unchanged elsewhere.
pub open spec fn shortened(path: Seq<char>, home: Option<Seq<char>>) -> Seq<char> {
    match home {
        Some(h) => match strip_prefix(path, h) {
            Some(rest) => if rest.len() == 0 {
                seq!['~']
            } else {
                seq!['~', '/'] + rest
            },
            None => path,
        },
        None => path,
    }
}

/// `path` with the home folder `home` written as `~`.
pub fn shorten(path: &str, home: Option<&str>) -> (r: String)
    ensures
        r@ == shortened(path@, match home {
            Some(h) => Some(h@),
            None => None,
        }),
{
    let p = chars_of(path);
    match home {
        Some(h) => {
            let hv = chars_of(h);
            match strip_prefix_of(p.as_slice(), hv.as_slice()) {
                Some(rest) => {
                    let mut out: Vec<char> = Vec::new();
                    out.push('~');
                    if rest.len() == 0 {
                        assert(out@ =~= seq!['~']);
                    } else {
                        out.push('/');
                        extend(&mut out, rest.as_slice());
                        assert(out@ =~= seq!['~', '/'] + rest@);
                    }
                    string_of(out.as_slice())
                },
                None => string_of(p.as_slice()),
            }
        },
        None => string_of(p.as_slice()),
    }
}

/// A time in the future is never reported as an age.
pub proof fn lemma_future_is_just_now(now: i64, then: i64)
    requires
        then >= now,
    ensures
        ago_spec(now, then) == Ago::JustNow,
{
}

} // verus!
