//! Importing a Déjà Dup backup.
//!
//! Déjà Dup keeps its settings in GSettings: a Flatpak install in a keyfile
//! inside its sandbox, a native install in dconf, whose `dconf dump` prints
//! the same keyfile format. Keys the user never changed are absent and take
//! Déjà Dup's schema defaults. Only the settings are read; Déjà Dup's
//! password never is. Finding and reading the files is the application's
//! part; what they mean is worked out here.

use vstd::prelude::*;
use crate::gsettings::{garray, get, gstring, lookup, string, string_array, Settings};
use crate::number::{parse_i64, parse_i64_chars, parse_u16, parse_u16_chars};
use crate::path::{join, join_path};
use crate::profile::{Retention, Schedule};
use crate::split::{lines, lines_of, views};
use crate::text::{chars_of, find_char, has_prefix, has_suffix, replace, replace_all, rfind_char,
    same, slice, starts_with, ends_with, string_of, trim, trim_both_matches, trim_chars,
    trim_matches, trim_start_char, trim_start_matches, extend};

verus! {

/// Where a Déjà Dup backup is kept.
#[derive(Debug, Clone, PartialEq, Eq)]
pub enum Place {
    Folder(String),
    Drive { uuid: String, folder: String, label: String },
    Sftp { host: String, user: String, port: u16, path: String },
    Google { folder: String },
    Rclone { remote: String, folder: String },
    /// A backend Stellarshot cannot use, by Déjà Dup's name for it.
    Unsupported(String),
}

/// A place, as its texts.
pub enum PlaceView {
    Folder(Seq<char>),
    Drive { uuid: Seq<char>, folder: Seq<char>, label: Seq<char> },
    Sftp { host: Seq<char>, user: Seq<char>, port: u16, path: Seq<char> },
    Google { folder: Seq<char> },
    Rclone { remote: Seq<char>, folder: Seq<char> },
    Unsupported(Seq<char>),
}

impl Place {
    pub open spec fn view(&self) -> PlaceView {
        match self {
            Place::Folder(p) => PlaceView::Folder(p@),
            Place::Drive { uuid, folder, label } => PlaceView::Drive {
                uuid: uuid@,
                folder: folder@,
                label: label@,
            },
            Place::Sftp { host, user, port, path } => PlaceView::Sftp {
                host: host@,
                user: user@,
                port: *port,
                path: path@,
            },
            Place::Google { folder } => PlaceView::Google { folder: folder@ },
            Place::Rclone { remote, folder } => PlaceView::Rclone { remote: remote@, folder: folder@ },
            Place::Unsupported(name) => PlaceView::Unsupported(name@),
        }
    }
}

/// A Déjà Dup backup, as Stellarshot would set it up.
#[derive(Debug, Clone, PartialEq, Eq)]
pub struct Import {
    pub sources: Vec<String>,
    pub excludes: Vec<String>,
    pub place: Place,
    /// Déjà Dup recorded a format other than restic.
    pub other_format: bool,
    /// Déjà Dup's automatic backups: off, daily or weekly.
    pub schedule: Schedule,
    /// Déjà Dup's "Keep" setting.
    pub retention: Retention,
}

/// The XDG user directories Déjà Dup's `$TOKENS` stand for.
#[derive(Debug, Clone)]
pub struct UserDirs {
    pub home: String,
    /// `(name, path)`, as read; a later name replaces an earlier one.
    pub dirs: Vec<(String, String)>,
}

/// The text before the first `c` in `s` and the text after it.
#[verifier::opaque]
pub open spec fn split_once(s: Seq<char>, c: char) -> Option<(Seq<char>, Seq<char>)> {
    if s.contains(c) {
        let i = choose|i: int| 0 <= i < s.len() && s[i] == c && forall|j: int| 0 <= j < i ==> s[j] != c;
        Some((s.subrange(0, i), s.subrange(i + 1, s.len() as int)))
    } else {
        None
    }
}

/// The text before the last `c` in `s` and the text after it.
#[verifier::opaque]
pub open spec fn rsplit_once(s: Seq<char>, c: char) -> Option<(Seq<char>, Seq<char>)> {
    if s.contains(c) {
        let i = choose|i: int| 0 <= i < s.len() && s[i] == c && forall|j: int| i < j < s.len() ==> s[j] != c;
        Some((s.subrange(0, i), s.subrange(i + 1, s.len() as int)))
    } else {
        None
    }
}

/// Splits `v` at its first `c`.
pub fn split_once_chars(v: &[char], c: char) -> (r: Option<(Vec<char>, Vec<char>)>)
    ensures
        match r {
            Some((a, b)) => split_once(v@, c) == Some((a@, b@)),
            None => split_once(v@, c) is None,
        },
{
    reveal(split_once);
    match find_char(v, c) {
        Some(i) => {
            proof {
                assert(v@.contains(c));
                let k = choose|k: int| 0 <= k < v@.len() && v@[k] == c && forall|j: int| 0 <= j < k ==> v@[j] != c;
                assert(k == i as int) by {
                    if k < i {
                    } else if k > i {
                    }
                }
            }
            let n = v.len();
            Some((slice(v, 0, i), slice(v, i + 1, n)))
        },
        None => {
            assert(!v@.contains(c));
            None
        },
    }
}

/// Splits `v` at its last `c`.
pub fn rsplit_once_chars(v: &[char], c: char) -> (r: Option<(Vec<char>, Vec<char>)>)
    ensures
        match r {
            Some((a, b)) => rsplit_once(v@, c) == Some((a@, b@)),
            None => rsplit_once(v@, c) is None,
        },
{
    reveal(rsplit_once);
    match rfind_char(v, c) {
        Some(i) => {
            proof {
                assert(v@.contains(c));
                let k = choose|k: int| 0 <= k < v@.len() && v@[k] == c && forall|j: int| k < j < v@.len() ==> v@[j] != c;
                assert(k == i as int) by {
                    if k < i {
                    } else if k > i {
                    }
                }
            }
            let n = v.len();
            Some((slice(v, 0, i), slice(v, i + 1, n)))
        },
        None => {
            assert(!v@.contains(c));
            None
        },
    }
}

/// The user directory one line of `user-dirs.dirs` sets, if it sets one:
/// `XDG_NAME_DIR="value"`, with a leading `$HOME` standing for `home`.
pub open spec fn user_dir_line(home: Seq<char>, line: Seq<char>) -> Option<(Seq<char>, Seq<char>)> {
    match split_once(trim(line), '=') {
        Some((key, value)) => if has_prefix(key, "XDG_"@) && has_suffix(key.skip(4), "_DIR"@) {
            let name = key.subrange(4, key.len() - 4);
            let v = trim_matches(trim(value), '"');
            let path = if has_prefix(v, "$HOME"@) {
                join(home, trim_start_char(v.skip(5), '/'))
            } else {
                v
            };
            Some((name, path))
        } else {
            None
        },
        None => None,
    }
}

/// The user directories `ls` set, in order.
pub open spec fn user_dir_lines(home: Seq<char>, ls: Seq<Seq<char>>) -> Seq<(Seq<char>, Seq<char>)>
    decreases ls.len(),
{
    if ls.len() == 0 {
        Seq::empty()
    } else {
        let before = user_dir_lines(home, ls.drop_last());
        match user_dir_line(home, ls.last()) {
            Some(d) => before.push(d),
            None => before,
        }
    }
}

/// A pair of texts as views.
pub open spec fn pair_view(p: (String, String)) -> (Seq<char>, Seq<char>) {
    (p.0@, p.1@)
}

/// The user directory `line` sets.
fn read_user_dir(home: &[char], line: &[char]) -> (r: Option<(String, String)>)
    ensures
        match r {
            Some(d) => user_dir_line(home@, line@) == Some(pair_view(d)),
            None => user_dir_line(home@, line@) is None,
        },
{
    proof {
        reveal_strlit("XDG_");
        reveal_strlit("_DIR");
        reveal_strlit("$HOME");
    }
    let t = trim_chars(line);
    let (key, value) = match split_once_chars(t.as_slice(), '=') {
        Some(kv) => kv,
        None => return None,
    };
    if !starts_with(key.as_slice(), chars_of("XDG_").as_slice()) {
        return None;
    }
    let after = slice(key.as_slice(), 4, key.len());
    assert(after@ =~= key@.skip(4));
    if !ends_with(after.as_slice(), chars_of("_DIR").as_slice()) {
        return None;
    }
    let name = slice(key.as_slice(), 4, key.len() - 4);
    let v = trim_both_matches(trim_chars(value.as_slice()).as_slice(), '"');
    let path = if starts_with(v.as_slice(), chars_of("$HOME").as_slice()) {
        let rest = slice(v.as_slice(), 5, v.len());
        assert(rest@ =~= v@.skip(5));
        let rest = trim_start_matches(rest.as_slice(), '/');
        join_path(home, rest.as_slice())
    } else {
        v
    };
    Some((string_of(name.as_slice()), string_of(path.as_slice())))
}

impl UserDirs {
    /// The directories as `(name, path)` texts.
    pub open spec fn view_dirs(&self) -> Seq<(Seq<char>, Seq<char>)> {
        self.dirs@.map_values(|p: (String, String)| pair_view(p))
    }

    /// The user directories `text`, the content of `user-dirs.dirs`, sets
    /// for the home folder `home`.
    pub fn parse(home: &str, text: &str) -> (r: UserDirs)
        ensures
            r.home@ == home@,
            r.view_dirs() == user_dir_lines(home@, lines(text@)),
    {
        let h = chars_of(home);
        let ls = lines_of(chars_of(text).as_slice());
        let mut dirs: Vec<(String, String)> = Vec::new();
        let mut k: usize = 0;
        assert(views(ls@).subrange(0, 0) =~= Seq::<Seq<char>>::empty());
        while k < ls.len()
            invariant
                k <= ls@.len(),
                h@ == home@,
                views(ls@) == lines(text@),
                dirs@.map_values(|p: (String, String)| pair_view(p)) == user_dir_lines(
                    home@,
                    views(ls@).subrange(0, k as int),
                ),
            decreases ls@.len() - k,
        {
            let ghost next = views(ls@).subrange(0, k + 1);
            assert(next.drop_last() =~= views(ls@).subrange(0, k as int));
            assert(next.last() == ls@[k as int]@);
            let ghost before = dirs@.map_values(|p: (String, String)| pair_view(p));
            match read_user_dir(h.as_slice(), ls[k].as_slice()) {
                Some(d) => {
                    dirs.push(d);
                    assert(dirs@.map_values(|p: (String, String)| pair_view(p)) =~= before.push(
                        pair_view(dirs@.last()),
                    ));
                },
                None => {},
            }
            k = k + 1;
        }
        assert(views(ls@).subrange(0, ls@.len() as int) =~= views(ls@));
        UserDirs { home: string_of(h.as_slice()), dirs }
    }
}

/// The path the last of `dirs` named `name` gives.
pub open spec fn dir_named(dirs: Seq<(Seq<char>, Seq<char>)>, name: Seq<char>) -> Option<Seq<char>>
    decreases dirs.len(),
{
    if dirs.len() == 0 {
        None
    } else if dirs.last().0 == name {
        Some(dirs.last().1)
    } else {
        dir_named(dirs.drop_last(), name)
    }
}

/// The user directory `name`, or `fallback` inside the home folder.
pub open spec fn user_dir(d: UserDirs, name: Seq<char>, fallback: Seq<char>) -> Seq<char> {
    match dir_named(d.view_dirs(), name) {
        Some(p) => p,
        None => join(d.home@, fallback),
    }
}

impl UserDirs {
    /// The user directory `name`, or `fallback` inside the home folder.
    pub fn dir(&self, name: &str, fallback: &str) -> (r: String)
        ensures
            r@ == user_dir(*self, name@, fallback@),
    {
        let mut i: usize = self.dirs.len();
        let ghost all = self.view_dirs();
        assert(all.subrange(0, all.len() as int) =~= all);
        while i > 0
            invariant
                i <= self.dirs@.len(),
                all == self.view_dirs(),
                dir_named(all.subrange(0, i as int), name@) == dir_named(all, name@),
            decreases i,
        {
            assert(all.subrange(0, i as int).drop_last() =~= all.subrange(0, i - 1));
            if self.dirs[i - 1].0 == name.to_owned() {
                return self.dirs[i - 1].1.clone();
            }
            i = i - 1;
        }
        let p = join_path(chars_of(self.home.as_str()).as_slice(), chars_of(fallback).as_slice());
        string_of(p.as_slice())
    }
}

/// The folder one of Déjà Dup's `$TOKENS` stands for.
pub open spec fn token(d: UserDirs, name: Seq<char>) -> Option<Seq<char>> {
    if name == "$HOME"@ {
        Some(d.home@)
    } else if name == "$TRASH"@ {
        Some(join(d.home@, ".local/share/Trash"@))
    } else if name == "$DESKTOP"@ {
        Some(user_dir(d, "DESKTOP"@, "Desktop"@))
    } else if name == "$DOCUMENTS"@ {
        Some(user_dir(d, "DOCUMENTS"@, "Documents"@))
    } else if name == "$DOWNLOAD"@ {
        Some(user_dir(d, "DOWNLOAD"@, "Downloads"@))
    } else if name == "$MUSIC"@ {
        Some(user_dir(d, "MUSIC"@, "Music"@))
    } else if name == "$PICTURES"@ {
        Some(user_dir(d, "PICTURES"@, "Pictures"@))
    } else if name == "$PUBLIC_SHARE"@ {
        Some(user_dir(d, "PUBLICSHARE"@, "Public"@))
    } else if name == "$TEMPLATES"@ {
        Some(user_dir(d, "TEMPLATES"@, "Templates"@))
    } else if name == "$VIDEOS"@ {
        Some(user_dir(d, "VIDEOS"@, "Videos"@))
    } else {
        None
    }
}

/// `s` without the `~`s and `/`s at its start.
pub open spec fn trim_home_marks(s: Seq<char>) -> Seq<char>
    decreases s.len(),
{
    if s.len() > 0 && (s[0] == '~' || s[0] == '/') {
        trim_home_marks(s.drop_first())
    } else {
        s
    }
}

/// The folder one entry of Déjà Dup's include or exclude list names: a
/// `$TOKEN` and what follows it, a path after `~`, a path relative to the
/// home folder, or an absolute path.
pub open spec fn resolved(d: UserDirs, entry: Seq<char>) -> Seq<char> {
    let (head, rest) = match split_once(entry, '/') {
        Some((h, r)) => (h, r),
        None => (entry, Seq::empty()),
    };
    match token(d, head) {
        Some(base) => if rest.len() == 0 {
            base
        } else {
            join(base, rest)
        },
        None => if entry.len() > 0 && entry[0] == '~' {
            join(d.home@, trim_home_marks(entry))
        } else if !(entry.len() > 0 && entry[0] == '/') {
            join(d.home@, entry)
        } else {
            entry
        },
    }
}

/// Whether `v` holds exactly the text `s`.
fn is(v: &[char], s: &str) -> (r: bool)
    ensures
        r == (v@ == s@),
{
    same(v, chars_of(s).as_slice())
}

impl UserDirs {
    /// The folder `$TOKEN` `name` stands for.
    fn token(&self, name: &[char]) -> (r: Option<String>)
        ensures
            match r {
                Some(p) => token(*self, name@) == Some(p@),
                None => token(*self, name@) is None,
            },
    {
        if is(name, "$HOME") {
            Some(self.home.clone())
        } else if is(name, "$TRASH") {
            let p = join_path(chars_of(self.home.as_str()).as_slice(), chars_of(".local/share/Trash").as_slice());
            Some(string_of(p.as_slice()))
        } else if is(name, "$DESKTOP") {
            Some(self.dir("DESKTOP", "Desktop"))
        } else if is(name, "$DOCUMENTS") {
            Some(self.dir("DOCUMENTS", "Documents"))
        } else if is(name, "$DOWNLOAD") {
            Some(self.dir("DOWNLOAD", "Downloads"))
        } else if is(name, "$MUSIC") {
            Some(self.dir("MUSIC", "Music"))
        } else if is(name, "$PICTURES") {
            Some(self.dir("PICTURES", "Pictures"))
        } else if is(name, "$PUBLIC_SHARE") {
            Some(self.dir("PUBLICSHARE", "Public"))
        } else if is(name, "$TEMPLATES") {
            Some(self.dir("TEMPLATES", "Templates"))
        } else if is(name, "$VIDEOS") {
            Some(self.dir("VIDEOS", "Videos"))
        } else {
            None
        }
    }

    /// The folder one entry of Déjà Dup's include or exclude list names.
    pub fn resolve(&self, entry: &str) -> (r: String)
        ensures
            r@ == resolved(*self, entry@),
    {
        let e = chars_of(entry);
        let (head, rest) = match split_once_chars(e.as_slice(), '/') {
            Some((h, r)) => (h, r),
            None => (slice(e.as_slice(), 0, e.len()), Vec::new()),
        };
        assert(e@.subrange(0, e@.len() as int) =~= e@);
        let home = chars_of(self.home.as_str());
        match self.token(head.as_slice()) {
            Some(base) => {
                if rest.len() == 0 {
                    base
                } else {
                    let p = join_path(chars_of(base.as_str()).as_slice(), rest.as_slice());
                    string_of(p.as_slice())
                }
            },
            None => {
                if e.len() > 0 && e[0] == '~' {
                    let mut i: usize = 0;
                    assert(e@.skip(0) =~= e@);
                    while i < e.len() && (e[i] == '~' || e[i] == '/')
                        invariant
                            i <= e@.len(),
                            trim_home_marks(e@.skip(i as int)) == trim_home_marks(e@),
                        decreases e@.len() - i,
                    {
                        assert(e@.skip(i as int).drop_first() =~= e@.skip(i + 1));
                        i = i + 1;
                    }
                    let tail = slice(e.as_slice(), i, e.len());
                    assert(tail@ =~= e@.skip(i as int));
                    let p = join_path(home.as_slice(), tail.as_slice());
                    string_of(p.as_slice())
                } else if !(e.len() > 0 && e[0] == '/') {
                    let p = join_path(home.as_slice(), e.as_slice());
                    string_of(p.as_slice())
                } else {
                    entry.to_owned()
                }
            },
        }
    }
}

/// A string setting, or the schema default.
pub open spec fn setting_text(s: Settings, section: Seq<char>, key: Seq<char>, default: Seq<char>) -> Seq<char> {
    match lookup(s.view_entries(), section, key) {
        Some(v) => match gstring(v) {
            Some(t) => t,
            None => default,
        },
        None => default,
    }
}

/// A true/false setting, or the schema default.
pub open spec fn setting_flag(s: Settings, section: Seq<char>, key: Seq<char>, default: bool) -> bool {
    match lookup(s.view_entries(), section, key) {
        Some(v) => if trim(v) == "true"@ {
            true
        } else if trim(v) == "false"@ {
            false
        } else {
            default
        },
        None => default,
    }
}

/// A whole-number setting, or the schema default.
pub open spec fn setting_number(s: Settings, section: Seq<char>, key: Seq<char>, default: i64) -> i64 {
    match lookup(s.view_entries(), section, key) {
        Some(v) => match parse_i64(trim(v)) {
            Some(n) => n,
            None => default,
        },
        None => default,
    }
}

/// A string setting, or the schema default.
fn text(settings: &Settings, section: &str, key: &str, default: &str) -> (r: String)
    ensures
        r@ == setting_text(*settings, section@, key@, default@),
{
    match get(settings, section, key) {
        Some(v) => match string(v.as_str()) {
            Some(t) => t,
            None => default.to_owned(),
        },
        None => default.to_owned(),
    }
}

/// A true/false setting, or the schema default.
fn flag(settings: &Settings, section: &str, key: &str, default: bool) -> (r: bool)
    ensures
        r == setting_flag(*settings, section@, key@, default),
{
    match get(settings, section, key) {
        Some(v) => {
            let t = trim_chars(chars_of(v.as_str()).as_slice());
            if is(t.as_slice(), "true") {
                true
            } else if is(t.as_slice(), "false") {
                false
            } else {
                default
            }
        },
        None => default,
    }
}

/// A whole-number setting, or the schema default.
fn number(settings: &Settings, section: &str, key: &str, default: i64) -> (r: i64)
    ensures
        r == setting_number(*settings, section@, key@, default),
{
    match get(settings, section, key) {
        Some(v) => {
            let t = trim_chars(chars_of(v.as_str()).as_slice());
            match parse_i64_chars(t.as_slice()) {
                Some(n) => n,
                None => default,
            }
        },
        None => default,
    }
}

/// `folder` with `$HOSTNAME` standing for the machine's name `host`.
pub open spec fn with_host(folder: Seq<char>, host: Seq<char>) -> Seq<char> {
    replace_all(folder, "$HOSTNAME"@, host)
}

/// `folder` with `$HOSTNAME` replaced by `host`.
pub fn with_hostname(folder: &str, host: &str) -> (r: String)
    ensures
        r@ == with_host(folder@, host@),
{
    proof {
        reveal_strlit("$HOSTNAME");
    }
    let v = replace(chars_of(folder).as_slice(), chars_of("$HOSTNAME").as_slice(), chars_of(host).as_slice());
    string_of(v.as_slice())
}

/// A path and a folder inside it, each without `/` at either end, joined
/// with a `/` if both are there.
pub open spec fn joined(path: Seq<char>, folder: Seq<char>) -> Seq<char> {
    let a = trim_matches(path, '/');
    let b = trim_matches(folder, '/');
    if a.len() > 0 && b.len() > 0 {
        a + "/"@ + b
    } else if a.len() > 0 {
        a
    } else {
        b
    }
}

/// What follows `sftp://` or `ssh://` in `uri`.
pub open spec fn uri_rest(uri: Seq<char>) -> Option<Seq<char>> {
    if has_prefix(uri, "sftp://"@) {
        Some(uri.skip(7))
    } else if has_prefix(uri, "ssh://"@) {
        Some(uri.skip(6))
    } else {
        None
    }
}

/// The server `user@host:port/path` names, with `folder` inside `path`.
/// No user means an empty one, no port port 22; a port that is not a number
/// makes it no server at all.
pub open spec fn server_of(rest: Seq<char>, folder: Seq<char>) -> Option<PlaceView> {
    let (authority, path) = match split_once(rest, '/') {
        Some(p) => p,
        None => (rest, Seq::empty()),
    };
    let (user, host_port) = match rsplit_once(authority, '@') {
        Some(p) => p,
        None => (Seq::empty(), authority),
    };
    match host_port_of(host_port) {
        Some((host, port)) => Some(PlaceView::Sftp { host, user, port, path: joined(path, folder) }),
        None => None,
    }
}

/// The host and port `host:port` names; no port means port 22.
pub open spec fn host_port_of(hp: Seq<char>) -> Option<(Seq<char>, u16)> {
    match rsplit_once(hp, ':') {
        Some((host, port)) => match parse_u16(port) {
            Some(n) => Some((host, n)),
            None => None,
        },
        None => Some((hp, 22)),
    }
}

/// The host and port `hp` names.
fn host_and_port(hp: &[char]) -> (r: Option<(Vec<char>, u16)>)
    ensures
        match r {
            Some((h, n)) => host_port_of(hp@) == Some((h@, n)),
            None => host_port_of(hp@) is None,
        },
{
    match rsplit_once_chars(hp, ':') {
        Some((h, p)) => match parse_u16_chars(p.as_slice()) {
            Some(n) => Some((h, n)),
            None => None,
        },
        None => {
            let h = slice(hp, 0, hp.len());
            assert(hp@.subrange(0, hp@.len() as int) =~= hp@);
            Some((h, 22u16))
        },
    }
}

/// The server `sftp://user@host:port/path` (or `ssh://`) names, with Déjà
/// Dup's `folder` inside `path`.
pub open spec fn sftp_place(uri: Seq<char>, folder: Seq<char>) -> Option<PlaceView> {
    match uri_rest(uri) {
        Some(rest) => server_of(rest, folder),
        None => None,
    }
}

/// `path` and `folder` joined.
fn joined_chars(path: &[char], folder: &[char]) -> (r: Vec<char>)
    ensures
        r@ == joined(path@, folder@),
{
    proof {
        reveal_strlit("/");
    }
    let a = trim_both_matches(path, '/');
    let b = trim_both_matches(folder, '/');
    let mut full: Vec<char> = Vec::new();
    extend(&mut full, a.as_slice());
    if a.len() > 0 && b.len() > 0 {
        full.push('/');
    }
    extend(&mut full, b.as_slice());
    proof {
        if a@.len() > 0 && b@.len() > 0 {
            assert(full@ =~= a@ + "/"@ + b@);
        } else if a@.len() > 0 {
            assert(full@ =~= a@);
        } else {
            assert(full@ =~= b@);
        }
    }
    full
}

/// What follows the scheme of `uri`.
fn uri_rest_of(uri: &[char]) -> (r: Option<Vec<char>>)
    ensures
        match r {
            Some(rest) => uri_rest(uri@) == Some(rest@),
            None => uri_rest(uri@) is None,
        },
{
    proof {
        reveal_strlit("sftp://");
        reveal_strlit("ssh://");
    }
    if starts_with(uri, chars_of("sftp://").as_slice()) {
        let r = slice(uri, 7, uri.len());
        assert(r@ =~= uri@.skip(7));
        Some(r)
    } else if starts_with(uri, chars_of("ssh://").as_slice()) {
        let r = slice(uri, 6, uri.len());
        assert(r@ =~= uri@.skip(6));
        Some(r)
    } else {
        None
    }
}

/// The server `rest` names, with `folder` inside its path.
fn server(rest: &[char], folder: &[char]) -> (r: Option<Place>)
    ensures
        match r {
            Some(p) => server_of(rest@, folder@) == Some(p.view()),
            None => server_of(rest@, folder@) is None,
        },
{
    let (authority, path) = match split_once_chars(rest, '/') {
        Some(p) => p,
        None => (slice(rest, 0, rest.len()), Vec::new()),
    };
    assert(rest@.subrange(0, rest@.len() as int) =~= rest@);
    let (user, host_port) = match rsplit_once_chars(authority.as_slice(), '@') {
        Some(p) => p,
        None => (Vec::new(), slice(authority.as_slice(), 0, authority.len())),
    };
    assert(authority@.subrange(0, authority@.len() as int) =~= authority@);
    let (host, port) = match host_and_port(host_port.as_slice()) {
        Some(hp) => hp,
        None => return None,
    };
    let full = joined_chars(path.as_slice(), folder);
    Some(Place::Sftp {
        host: string_of(host.as_slice()),
        user: string_of(user.as_slice()),
        port,
        path: string_of(full.as_slice()),
    })
}

/// The server `uri` names, with `folder` inside its path.
pub fn sftp(uri: &str, folder: &str) -> (r: Option<Place>)
    ensures
        match r {
            Some(p) => sftp_place(uri@, folder@) == Some(p.view()),
            None => sftp_place(uri@, folder@) is None,
        },
{
    match uri_rest_of(chars_of(uri).as_slice()) {
        Some(rest) => server(rest.as_slice(), chars_of(folder).as_slice()),
        None => None,
    }
}

/// The folders a list setting names: Déjà Dup's own list, or the schema
/// default when it is not set or cannot be read.
pub open spec fn listed(s: Settings, key: Seq<char>, default: Seq<Seq<char>>) -> Seq<Seq<char>> {
    match lookup(s.view_entries(), ""@, key) {
        Some(v) => match garray(v) {
            Some(items) => items,
            None => default,
        },
        None => default,
    }
}

/// The folders in the list setting `key`, resolved.
fn list(settings: &Settings, dirs: &UserDirs, key: &str, default: &Vec<String>) -> (r: Vec<String>)
    ensures
        r@.map_values(|x: String| x@) == listed(*settings, key@, default@.map_values(|x: String| x@)).map_values(
            |e: Seq<char>| resolved(*dirs, e),
        ),
{
    let items: Vec<String> = match get(settings, "", key) {
        Some(v) => match string_array(v.as_str()) {
            Some(items) => items,
            None => default.clone(),
        },
        None => default.clone(),
    };
    let ghost names = items@.map_values(|x: String| x@);
    assert(names == listed(*settings, key@, default@.map_values(|x: String| x@)));
    let mut out: Vec<String> = Vec::new();
    let mut i: usize = 0;
    while i < items.len()
        invariant
            i <= items@.len(),
            names == items@.map_values(|x: String| x@),
            out@.map_values(|x: String| x@) =~= names.subrange(0, i as int).map_values(
                |e: Seq<char>| resolved(*dirs, e),
            ),
        decreases items@.len() - i,
    {
        let ghost before = out@.map_values(|x: String| x@);
        out.push(dirs.resolve(items[i].as_str()));
        assert(items@[i as int]@ == names[i as int]);
        assert(out@.map_values(|x: String| x@) =~= before.push(resolved(*dirs, names[i as int])));
        assert(names.subrange(0, i + 1).map_values(|e: Seq<char>| resolved(*dirs, e)) =~= names.subrange(
            0,
            i as int,
        ).map_values(|e: Seq<char>| resolved(*dirs, e)).push(resolved(*dirs, names[i as int])));
        i = i + 1;
    }
    assert(names.subrange(0, items@.len() as int) =~= names);
    out
}

/// The place Déjà Dup's `backend` setting and its own section describe.
pub open spec fn place_of(s: Settings, d: UserDirs, host: Seq<char>) -> PlaceView {
    let backend = setting_text(s, ""@, "backend"@, "auto"@);
    if backend == "local"@ || backend == "file"@ {
        PlaceView::Folder(resolved(d, with_host(setting_text(s, "local"@, "folder"@, "$HOSTNAME"@), host)))
    } else if backend == "drive"@ {
        PlaceView::Drive {
            uuid: setting_text(s, "drive"@, "uuid"@, ""@),
            folder: with_host(setting_text(s, "drive"@, "folder"@, "$HOSTNAME"@), host),
            label: setting_text(s, "drive"@, "name"@, ""@),
        }
    } else if backend == "google"@ {
        PlaceView::Google { folder: with_host(setting_text(s, "google"@, "folder"@, "$HOSTNAME"@), host) }
    } else if backend == "rclone"@ {
        PlaceView::Rclone {
            remote: setting_text(s, "rclone"@, "remote"@, ""@),
            folder: with_host(setting_text(s, "rclone"@, "folder"@, "$HOSTNAME"@), host),
        }
    } else if backend == "remote"@ {
        let uri = setting_text(s, "remote"@, "uri"@, ""@);
        let folder = with_host(setting_text(s, "remote"@, "folder"@, "$HOSTNAME"@), host);
        match sftp_place(uri, folder) {
            Some(p) => p,
            None => PlaceView::Unsupported(uri),
        }
    } else {
        PlaceView::Unsupported(backend)
    }
}

/// Déjà Dup's automatic backups: off unless `periodic` is set, daily when
/// they run more often than every 7 days, weekly otherwise.
pub open spec fn schedule_of(s: Settings) -> Schedule {
    if !setting_flag(s, ""@, "periodic"@, false) {
        Schedule::Manual
    } else if setting_number(s, ""@, "periodic-period"@, 7) < 7 {
        Schedule::Daily
    } else {
        Schedule::Weekly
    }
}

/// Déjà Dup's "Keep": 0 days (the default) or fewer means forever.
pub open spec fn retention_of(s: Settings) -> Retention {
    let days = setting_number(s, ""@, "delete-after"@, 0);
    if days <= 0 {
        Retention::KeepForever
    } else if days > u32::MAX {
        Retention::KeepFor { days: u32::MAX }
    } else {
        Retention::KeepFor { days: days as u32 }
    }
}

/// The place Déjà Dup's settings describe.
fn place(settings: &Settings, dirs: &UserDirs, host: &str) -> (r: Place)
    ensures
        r.view() == place_of(*settings, *dirs, host@),
{
    let backend = text(settings, "", "backend", "auto");
    let b = chars_of(backend.as_str());
    if is(b.as_slice(), "local") || is(b.as_slice(), "file") {
        let folder = with_hostname(text(settings, "local", "folder", "$HOSTNAME").as_str(), host);
        Place::Folder(dirs.resolve(folder.as_str()))
    } else if is(b.as_slice(), "drive") {
        Place::Drive {
            uuid: text(settings, "drive", "uuid", ""),
            folder: with_hostname(text(settings, "drive", "folder", "$HOSTNAME").as_str(), host),
            label: text(settings, "drive", "name", ""),
        }
    } else if is(b.as_slice(), "google") {
        Place::Google { folder: with_hostname(text(settings, "google", "folder", "$HOSTNAME").as_str(), host) }
    } else if is(b.as_slice(), "rclone") {
        Place::Rclone {
            remote: text(settings, "rclone", "remote", ""),
            folder: with_hostname(text(settings, "rclone", "folder", "$HOSTNAME").as_str(), host),
        }
    } else if is(b.as_slice(), "remote") {
        let uri = text(settings, "remote", "uri", "");
        let folder = with_hostname(text(settings, "remote", "folder", "$HOSTNAME").as_str(), host);
        match sftp(uri.as_str(), folder.as_str()) {
            Some(p) => p,
            None => Place::Unsupported(uri),
        }
    } else {
        Place::Unsupported(backend)
    }
}

/// Turns Déjà Dup's settings into a Stellarshot backup, with `host` as the
/// machine's name. Déjà Dup backs up the home folder and leaves out the
/// Trash and the downloads folder unless told otherwise.
pub fn import(settings: &Settings, dirs: &UserDirs, host: &str) -> (r: Import)
    ensures
        r.sources@.map_values(|x: String| x@) == listed(*settings, "include-list"@, seq!["$HOME"@]).map_values(
            |e: Seq<char>| resolved(*dirs, e),
        ),
        r.excludes@.map_values(|x: String| x@) == listed(
            *settings,
            "exclude-list"@,
            seq!["$TRASH"@, "$DOWNLOAD"@],
        ).map_values(|e: Seq<char>| resolved(*dirs, e)),
        r.place.view() == place_of(*settings, *dirs, host@),
        r.other_format == ({
            let tool = setting_text(*settings, ""@, "tool"@, "unset"@);
            tool == "duplicity"@ || tool == "borg"@
        }),
        r.schedule == schedule_of(*settings),
        r.retention == retention_of(*settings),
{
    let mut include_default: Vec<String> = Vec::new();
    include_default.push("$HOME".to_owned());
    assert(include_default@.map_values(|x: String| x@) =~= seq!["$HOME"@]);
    let mut exclude_default: Vec<String> = Vec::new();
    exclude_default.push("$TRASH".to_owned());
    exclude_default.push("$DOWNLOAD".to_owned());
    assert(exclude_default@.map_values(|x: String| x@) =~= seq!["$TRASH"@, "$DOWNLOAD"@]);
    let sources = list(settings, dirs, "include-list", &include_default);
    let excludes = list(settings, dirs, "exclude-list", &exclude_default);
    let tool = text(settings, "", "tool", "unset");
    let t = chars_of(tool.as_str());
    let other_format = is(t.as_slice(), "duplicity") || is(t.as_slice(), "borg");
    let schedule = if !flag(settings, "", "periodic", false) {
        Schedule::Manual
    } else if number(settings, "", "periodic-period", 7) < 7 {
        Schedule::Daily
    } else {
        Schedule::Weekly
    };
    let days = number(settings, "", "delete-after", 0);
    let retention = if days <= 0 {
        Retention::KeepForever
    } else if days > u32::MAX as i64 {
        Retention::KeepFor { days: u32::MAX }
    } else {
        Retention::KeepFor { days: days as u32 }
    };
    Import { sources, excludes, place: place(settings, dirs, host), other_format, schedule, retention }
}

/// Each backend Stellarshot can use is imported as a place of its own kind,
/// filled from that backend's own section, with `$HOSTNAME` standing for
/// the machine's name; only an address the remote backend cannot reach by
/// sftp, or a backend of another name, is unsupported.
pub proof fn lemma_supported_backends_are_imported(s: Settings, d: UserDirs, host: Seq<char>)
    ensures
        setting_text(s, ""@, "backend"@, "auto"@) == "local"@ || setting_text(s, ""@, "backend"@, "auto"@)
            == "file"@ ==> place_of(s, d, host) == PlaceView::Folder(
            resolved(d, with_host(setting_text(s, "local"@, "folder"@, "$HOSTNAME"@), host)),
        ),
        setting_text(s, ""@, "backend"@, "auto"@) == "drive"@ ==> place_of(s, d, host) == (PlaceView::Drive {
            uuid: setting_text(s, "drive"@, "uuid"@, ""@),
            folder: with_host(setting_text(s, "drive"@, "folder"@, "$HOSTNAME"@), host),
            label: setting_text(s, "drive"@, "name"@, ""@),
        }),
        setting_text(s, ""@, "backend"@, "auto"@) == "google"@ ==> place_of(s, d, host) == (PlaceView::Google {
            folder: with_host(setting_text(s, "google"@, "folder"@, "$HOSTNAME"@), host),
        }),
        setting_text(s, ""@, "backend"@, "auto"@) == "rclone"@ ==> place_of(s, d, host) == (PlaceView::Rclone {
            remote: setting_text(s, "rclone"@, "remote"@, ""@),
            folder: with_host(setting_text(s, "rclone"@, "folder"@, "$HOSTNAME"@), host),
        }),
        setting_text(s, ""@, "backend"@, "auto"@) == "remote"@ && sftp_place(
            setting_text(s, "remote"@, "uri"@, ""@),
            with_host(setting_text(s, "remote"@, "folder"@, "$HOSTNAME"@), host),
        ) is Some ==> !(place_of(s, d, host) is Unsupported),
        place_of(s, d, host) is Unsupported ==> {
            let backend = setting_text(s, ""@, "backend"@, "auto"@);
            backend != "local"@ && backend != "file"@ && backend != "drive"@ && backend != "google"@
                && backend != "rclone"@
        },
{
    reveal_strlit("local");
    reveal_strlit("file");
    reveal_strlit("drive");
    reveal_strlit("google");
    reveal_strlit("rclone");
    reveal_strlit("remote");
    let names = seq!["local"@, "file"@, "drive"@, "google"@, "rclone"@];
    assert forall|k: int, m: int| 0 <= k < m < 5 implies names[k] != names[m] by {
        if names[k][0] == names[m][0] {
            assert(names[k][1] != names[m][1]);
        } else {
            assert(names[k][0] != names[m][0]);
        }
    }
    assert forall|k: int| 0 <= k < 5 implies names[k] != "remote"@ by {
        if k == 4 {
            assert(names[k][1] != "remote"@[1]);
        } else {
            assert(names[k][0] != "remote"@[0]);
        }
    }
}

} // verus!
