//! Déjà Dup's settings as GSettings keyfiles hold them, both the Flatpak's
//! keyfile and what `dconf dump` prints, and the GVariant strings and
//! string arrays in them.

use vstd::prelude::*;
use crate::number::{parse_i64, parse_i64_chars};
use crate::split::{lines, lines_of, views};
use crate::text::{chars_of, find, find_char, has_prefix, has_suffix, occurs_at, same, slice,
    string_of, trim, trim_both_matches, trim_chars, trim_matches, starts_with, ends_with};

verus! {

/// The GSettings path Déjà Dup's schema lives at.
pub open spec fn schema_path() -> Seq<char> {
    "org/gnome/deja-dup"@
}

/// The section a keyfile header `name` stands for, relative to the schema
/// path: `[org/gnome/deja-dup/google]` and `[google]` both become `google`,
/// `[org/gnome/deja-dup]` and `[/]` the empty section. Anything else with a
/// `/` inside it is not Déjà Dup's.
pub open spec fn section_of(name: Seq<char>) -> Option<Seq<char>> {
    if name == "/"@ || name == schema_path() {
        Some(Seq::empty())
    } else if has_prefix(name, schema_path() + "/"@) {
        Some(trim_matches(name.skip(schema_path().len() + 1int), '/'))
    } else if !name.contains('/') || (name.len() > 0 && name.last() == '/') {
        Some(trim_matches(name, '/'))
    } else {
        None
    }
}

/// The section for the header `name`.
pub fn normalise_section(name: &[char]) -> (r: Option<Vec<char>>)
    ensures
        match r {
            Some(s) => section_of(name@) == Some(s@),
            None => section_of(name@) is None,
        },
{
    let schema = chars_of("org/gnome/deja-dup");
    let root = chars_of("/");
    if same(name, root.as_slice()) || same(name, schema.as_slice()) {
        return Some(Vec::new());
    }
    let prefix = chars_of("org/gnome/deja-dup/");
    proof {
        reveal_strlit("org/gnome/deja-dup/");
        reveal_strlit("org/gnome/deja-dup");
        reveal_strlit("/");
        assert(prefix@ =~= schema_path() + "/"@);
    }
    if starts_with(name, prefix.as_slice()) {
        let rest = slice(name, prefix.len(), name.len());
        assert(rest@ =~= name@.skip(schema_path().len() + 1int));
        return Some(trim_both_matches(rest.as_slice(), '/'));
    }
    let has_slash = match find_char(name, '/') {
        Some(i) => {
            assert(name@[i as int] == '/');
            true
        },
        None => false,
    };
    if !has_slash || (name.len() > 0 && name[name.len() - 1] == '/') {
        Some(trim_both_matches(name, '/'))
    } else {
        None
    }
}

/// One setting: its section, its key and its value, as written.
pub open spec fn entry_view(e: (String, String, String)) -> (Seq<char>, Seq<char>, Seq<char>) {
    (e.0@, e.1@, e.2@)
}

/// Settings by section and key, in the order read; a later value for the
/// same section and key replaces an earlier one.
#[derive(Debug, Clone)]
pub struct Settings {
    pub entries: Vec<(String, String, String)>,
}

impl Settings {
    /// The settings as `(section, key, value)` texts, in the order read.
    pub open spec fn view_entries(&self) -> Seq<(Seq<char>, Seq<char>, Seq<char>)> {
        self.entries@.map_values(|e: (String, String, String)| entry_view(e))
    }

    /// Whether nothing was read.
    pub fn is_empty(&self) -> (r: bool)
        ensures
            r == (self.entries@.len() == 0),
    {
        self.entries.len() == 0
    }
}

/// The value the last of `entries` for `section` and `key` holds.
pub open spec fn lookup(
    entries: Seq<(Seq<char>, Seq<char>, Seq<char>)>,
    section: Seq<char>,
    key: Seq<char>,
) -> Option<Seq<char>>
    decreases entries.len(),
{
    if entries.len() == 0 {
        None
    } else if entries.last().0 == section && entries.last().1 == key {
        Some(entries.last().2)
    } else {
        lookup(entries.drop_last(), section, key)
    }
}

/// Where reading a keyfile has got to: the section under way, if it is
/// Déjà Dup's, and the settings read so far.
pub open spec fn read_line(
    state: (Option<Seq<char>>, Seq<(Seq<char>, Seq<char>, Seq<char>)>),
    raw: Seq<char>,
) -> (Option<Seq<char>>, Seq<(Seq<char>, Seq<char>, Seq<char>)>) {
    let line = trim(raw);
    let (section, entries) = state;
    if line.len() >= 2 && line[0] == '[' && line.last() == ']' {
        (section_of(line.subrange(1, line.len() - 1)), entries)
    } else if section is Some && line.contains('=') {
        let i = choose|i: int| 0 <= i < line.len() && line[i] == '=' && forall|j: int|
            0 <= j < i ==> line[j] != '=';
        (
            section,
            entries.push(
                (section->0, trim(line.subrange(0, i)), trim(line.subrange(i + 1, line.len() as int))),
            ),
        )
    } else {
        (section, entries)
    }
}

/// The state after reading `ls`, one line after another.
pub open spec fn read_lines(ls: Seq<Seq<char>>) -> (
    Option<Seq<char>>,
    Seq<(Seq<char>, Seq<char>, Seq<char>)>,
)
    decreases ls.len(),
{
    if ls.len() == 0 {
        (None, Seq::empty())
    } else {
        read_line(read_lines(ls.drop_last()), ls.last())
    }
}

/// The settings a keyfile `text` holds, in either flavour.
pub open spec fn parsed(text: Seq<char>) -> Seq<(Seq<char>, Seq<char>, Seq<char>)> {
    read_lines(lines(text)).1
}

/// Reads either keyfile flavour: `[section]` headers, then `key=value`
/// lines, with white space around each trimmed.
pub fn parse(text: &str) -> (r: Settings)
    ensures
        r.view_entries() == parsed(text@),
{
    let v = chars_of(text);
    let ls = lines_of(v.as_slice());
    let mut section: Option<Vec<char>> = None;
    let mut entries: Vec<(String, String, String)> = Vec::new();
    let mut k: usize = 0;
    assert(views(ls@).subrange(0, 0) =~= Seq::<Seq<char>>::empty());
    while k < ls.len()
        invariant
            k <= ls@.len(),
            views(ls@) == lines(text@),
            read_lines(views(ls@).subrange(0, k as int)) == (
                match section {
                    Some(s) => Some(s@),
                    None => None::<Seq<char>>,
                },
                entries@.map_values(|e: (String, String, String)| entry_view(e)),
            ),
        decreases ls@.len() - k,
    {
        let ghost pre = views(ls@).subrange(0, k as int);
        let ghost next = views(ls@).subrange(0, k + 1);
        assert(next.drop_last() =~= pre);
        assert(next.last() == ls@[k as int]@);
        let line = trim_chars(ls[k].as_slice());
        if line.len() >= 2 && line[0] == '[' && line[line.len() - 1] == ']' {
            let name = slice(line.as_slice(), 1, line.len() - 1);
            section = normalise_section(name.as_slice());
        } else {
            match &section {
                Some(s) => match find_char(line.as_slice(), '=') {
                    Some(i) => {
                        proof {
                            let ii = choose|ii: int| 0 <= ii < line@.len() && line@[ii] == '='
                                && forall|j: int| 0 <= j < ii ==> line@[j] != '=';
                            assert(ii == i as int) by {
                                if ii < i {
                                } else if ii > i {
                                }
                            }
                            assert(line@.contains('='));
                        }
                        let key = trim_chars(slice(line.as_slice(), 0, i).as_slice());
                        let value = trim_chars(slice(line.as_slice(), i + 1, line.len()).as_slice());
                        let ghost before = entries@.map_values(|e: (String, String, String)| entry_view(e));
                        entries.push((string_of(s.as_slice()), string_of(key.as_slice()), string_of(value.as_slice())));
                        assert(entries@.map_values(|e: (String, String, String)| entry_view(e)) =~= before.push(
                            entry_view(entries@.last()),
                        ));
                    },
                    None => {},
                },
                None => {},
            }
        }
        k = k + 1;
    }
    assert(views(ls@).subrange(0, ls@.len() as int) =~= views(ls@));
    Settings { entries }
}

/// The value of `key` in `section`, if it was set.
pub fn get(settings: &Settings, section: &str, key: &str) -> (r: Option<String>)
    ensures
        match r {
            Some(v) => lookup(settings.view_entries(), section@, key@) == Some(v@),
            None => lookup(settings.view_entries(), section@, key@) is None,
        },
{
    let mut i: usize = settings.entries.len();
    let ghost all = settings.view_entries();
    assert(all.subrange(0, all.len() as int) =~= all);
    while i > 0
        invariant
            i <= settings.entries@.len(),
            all == settings.view_entries(),
            lookup(all.subrange(0, i as int), section@, key@) == lookup(all, section@, key@),
        decreases i,
    {
        let ghost pre = all.subrange(0, i as int);
        assert(pre.drop_last() =~= all.subrange(0, i - 1));
        let e = &settings.entries[i - 1];
        if e.0.as_str().len() == section.len() && e.0 == section.to_owned() && e.1 == key.to_owned() {
            return Some(e.2.clone());
        }
        i = i - 1;
    }
    None
}

/// A GVariant string's content: `\` escapes the character after it, and a
/// `\` at the very end is dropped.
pub open spec fn unquoted(s: Seq<char>) -> Seq<char>
    decreases s.len(),
{
    if s.len() == 0 {
        Seq::empty()
    } else if s[0] == '\\' {
        if s.len() >= 2 {
            seq![s[1]] + unquoted(s.skip(2))
        } else {
            Seq::empty()
        }
    } else {
        seq![s[0]] + unquoted(s.skip(1))
    }
}

/// A GVariant string `'text'`, with `\'` and `\\` escapes, read.
pub open spec fn gstring(value: Seq<char>) -> Option<Seq<char>> {
    let t = trim(value);
    if t.len() >= 2 && t[0] == '\'' && t.last() == '\'' {
        Some(unquoted(t.subrange(1, t.len() - 1)))
    } else {
        None
    }
}

/// Reads a GVariant string.
pub fn string(value: &str) -> (r: Option<String>)
    ensures
        match r {
            Some(s) => gstring(value@) == Some(s@),
            None => gstring(value@) is None,
        },
{
    let t = trim_chars(chars_of(value).as_slice());
    if !(t.len() >= 2 && t[0] == '\'' && t[t.len() - 1] == '\'') {
        return None;
    }
    let inner = slice(t.as_slice(), 1, t.len() - 1);
    let mut out: Vec<char> = Vec::new();
    let mut i: usize = 0;
    assert(inner@.skip(0) =~= inner@);
    while i < inner.len()
        invariant
            i <= inner@.len(),
            out@ + unquoted(inner@.skip(i as int)) == unquoted(inner@),
        decreases inner@.len() - i,
    {
        let ghost rest = inner@.skip(i as int);
        let ghost before = out@;
        if inner[i] == '\\' {
            if i + 1 < inner.len() {
                out.push(inner[i + 1]);
                assert(rest.skip(2) =~= inner@.skip(i + 2));
                assert(out@ + unquoted(inner@.skip(i + 2)) =~= before + unquoted(rest));
                i = i + 2;
            } else {
                assert(inner@.skip(i + 1) =~= Seq::<char>::empty());
                i = i + 1;
            }
        } else {
            out.push(inner[i]);
            assert(rest.skip(1) =~= inner@.skip(i + 1));
            assert(out@ + unquoted(inner@.skip(i + 1)) =~= before + unquoted(rest));
            i = i + 1;
        }
    }
    Some(string_of(out.as_slice()))
}

/// Reading a string array: the items so far, the item under way, whether
/// inside quotes, and whether the last character was an escape.
pub open spec fn array_step(
    st: (Seq<Seq<char>>, Seq<char>, bool, bool),
    c: char,
) -> (Seq<Seq<char>>, Seq<char>, bool, bool) {
    let (items, current, quoted, escaped) = st;
    if quoted && escaped {
        (items, current.push(c), quoted, false)
    } else if c == '\\' && quoted {
        (items, current, quoted, true)
    } else if c == '\'' {
        if quoted {
            (items.push(current), Seq::empty(), false, escaped)
        } else {
            (items, current, true, escaped)
        }
    } else if quoted {
        (items, current.push(c), quoted, escaped)
    } else {
        st
    }
}

/// The state after reading `s`.
pub open spec fn array_scan(s: Seq<char>) -> (Seq<Seq<char>>, Seq<char>, bool, bool)
    decreases s.len(),
{
    if s.len() == 0 {
        (Seq::empty(), Seq::empty(), false, false)
    } else {
        array_step(array_scan(s.drop_last()), s.last())
    }
}

/// `s` without every leading `@as`.
pub open spec fn drop_type_marks(s: Seq<char>) -> Seq<char>
    decreases s.len(),
{
    if s.len() >= 3 && s[0] == '@' && s[1] == 'a' && s[2] == 's' {
        drop_type_marks(s.skip(3))
    } else {
        s
    }
}

/// A GVariant string array `['a', 'b']`, or `@as []` for an empty one,
/// read: the items quoted inside the brackets.
pub open spec fn garray(value: Seq<char>) -> Option<Seq<Seq<char>>> {
    let v = trim(drop_type_marks(trim(value)));
    if v.len() >= 2 && v[0] == '[' && v.last() == ']' {
        Some(array_scan(v.subrange(1, v.len() - 1)).0)
    } else {
        None
    }
}

/// Reads a GVariant string array.
pub fn string_array(value: &str) -> (r: Option<Vec<String>>)
    ensures
        match r {
            Some(items) => garray(value@) == Some(items@.map_values(|s: String| s@)),
            None => garray(value@) is None,
        },
{
    let t = trim_chars(chars_of(value).as_slice());
    let mut lo: usize = 0;
    assert(t@.skip(0) =~= t@);
    while t.len() - lo >= 3 && t[lo] == '@' && t[lo + 1] == 'a' && t[lo + 2] == 's'
        invariant
            lo <= t@.len(),
            drop_type_marks(t@.skip(lo as int)) == drop_type_marks(t@),
        decreases t@.len() - lo,
    {
        let ghost s = t@.skip(lo as int);
        assert(s.skip(3) =~= t@.skip(lo + 3));
        lo = lo + 3;
    }
    let rest = slice(t.as_slice(), lo, t.len());
    assert(rest@ =~= t@.skip(lo as int));
    let v = trim_chars(rest.as_slice());
    if !(v.len() >= 2 && v[0] == '[' && v[v.len() - 1] == ']') {
        return None;
    }
    let inner = slice(v.as_slice(), 1, v.len() - 1);
    let mut items: Vec<String> = Vec::new();
    let mut current: Vec<char> = Vec::new();
    let mut quoted = false;
    let mut escaped = false;
    let mut i: usize = 0;
    assert(inner@.subrange(0, 0) =~= Seq::<char>::empty());
    while i < inner.len()
        invariant
            i <= inner@.len(),
            array_scan(inner@.subrange(0, i as int)) == (
                items@.map_values(|s: String| s@),
                current@,
                quoted,
                escaped,
            ),
        decreases inner@.len() - i,
    {
        let ghost pre = inner@.subrange(0, i as int);
        assert(inner@.subrange(0, i + 1).drop_last() =~= pre);
        let c = inner[i];
        if quoted && escaped {
            current.push(c);
            escaped = false;
        } else if c == '\\' && quoted {
            escaped = true;
        } else if c == '\'' {
            if quoted {
                let ghost before = items@.map_values(|s: String| s@);
                items.push(string_of(current.as_slice()));
                assert(items@.map_values(|s: String| s@) =~= before.push(current@));
                current = Vec::new();
            }
            quoted = !quoted;
        } else if quoted {
            current.push(c);
        }
        i = i + 1;
    }
    assert(inner@.subrange(0, inner@.len() as int) =~= inner@);
    Some(items)
}

} // verus!
