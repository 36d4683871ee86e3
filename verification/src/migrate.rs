//! Where settings saved under the upstream application ID are, and whether
//! they are copied to this one.
//!
//! `cosmic-config` stores each application's settings under
//! `$XDG_CONFIG_HOME/cosmic/<app-id>/v<version>/`, so changing the app ID
//! would otherwise make every existing backup disappear. Copying the files
//! is the application's part.

use vstd::prelude::*;
use crate::number::{decimal, decimal_chars};
use crate::path::{join, join_path};
use crate::text::{chars_of, string_of};

verus! {

/// The application ID this fork was created from.
pub const OLD_APP_ID: &'static str = "com.github.cosmic-utils.Stellarshot";

/// The directory per-user settings live under: `$XDG_CONFIG_HOME` when it
/// is set to an absolute path, else `.config` in the home folder.
pub open spec fn config_root_spec(xdg: Option<Seq<char>>, home: Option<Seq<char>>) -> Option<Seq<char>> {
    if xdg matches Some(x) && x.len() > 0 && x[0] == '/' {
        xdg
    } else {
        match home {
            Some(h) => Some(join(h, ".config"@)),
            None => None,
        }
    }
}

/// The text of an optional string.
pub open spec fn owned_text(s: Option<String>) -> Option<Seq<char>> {
    match s {
        Some(t) => Some(t@),
        None => None,
    }
}

/// The text of an optional string.
pub open spec fn borrowed_text(s: Option<&str>) -> Option<Seq<char>> {
    match s {
        Some(t) => Some(t@),
        None => None,
    }
}

/// The directory per-user settings live under, from the values of
/// `XDG_CONFIG_HOME` and `HOME`.
pub fn config_root(xdg: Option<&str>, home: Option<&str>) -> (r: Option<String>)
    ensures
        owned_text(r) == config_root_spec(borrowed_text(xdg), borrowed_text(home)),
{
    match xdg {
        Some(x) => {
            let v = chars_of(x);
            if v.len() > 0 && v[0] == '/' {
                return Some(x.to_owned());
            }
        },
        None => {},
    }
    match home {
        Some(h) => {
            proof {
                reveal_strlit(".config");
            }
            let joined = join_path(chars_of(h).as_slice(), chars_of(".config").as_slice());
            Some(string_of(joined.as_slice()))
        },
        None => None,
    }
}

/// Where the settings of `app_id`, in the layout `version`, are kept.
pub open spec fn version_dir_spec(config_root: Seq<char>, app_id: Seq<char>, version: nat) -> Seq<char> {
    join(join(join(config_root, "cosmic"@), app_id), "v"@ + decimal(version))
}

/// Where the settings of `app_id`, in the layout `version`, are kept.
pub fn version_dir(config_root: &str, app_id: &str, version: u64) -> (r: String)
    ensures
        r@ == version_dir_spec(config_root@, app_id@, version as nat),
{
    proof {
        reveal_strlit("cosmic");
        reveal_strlit("v");
    }
    let a = join_path(chars_of(config_root).as_slice(), chars_of("cosmic").as_slice());
    let b = join_path(a.as_slice(), chars_of(app_id).as_slice());
    let mut name = chars_of("v");
    let digits = decimal_chars(version);
    let mut i: usize = 0;
    let ghost start = name@;
    while i < digits.len()
        invariant
            i <= digits@.len(),
            name@ == start + digits@.take(i as int),
        decreases digits@.len() - i,
    {
        name.push(digits[i]);
        assert(digits@.take(i + 1) =~= digits@.take(i as int).push(digits@[i as int]));
        i = i + 1;
    }
    assert(digits@.take(digits@.len() as int) =~= digits@);
    let c = join_path(b.as_slice(), name.as_slice());
    string_of(c.as_slice())
}

/// Whether the old settings are copied: only when there are some, and
/// nothing is saved under the new ID yet (what is there is newer and is
/// never overwritten).
pub fn migrates(old_is_dir: bool, new_exists: bool) -> (r: bool)
    ensures
        r == (old_is_dir && !new_exists),
{
    old_is_dir && !new_exists
}

} // verus!
