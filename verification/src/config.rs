//! Stellarshot's settings. Loading and saving them is the application's
//! part; what they hold, and finding a profile among them, is here.

use vstd::prelude::*;
use crate::profile::Profile;

verus! {

/// The settings format's version. Version 2 replaced the `repositories`
/// list with backup profiles.
pub const CONFIG_VERSION: u64 = 2;

/// Stellarshot's settings.
#[derive(Clone, Default, Debug, Eq, PartialEq)]
pub struct StellarshotConfig {
    pub app_theme: AppTheme,
    pub profiles: Vec<Profile>,
    /// Glob patterns left out of every backup, set once instead of on each
    /// profile.
    pub global_exclude_patterns: Vec<String>,
    /// A cache folder to use instead of rustic's own default, unless
    /// `no_cache` is on.
    pub cache_dir: Option<String>,
    /// Do not cache repository index data locally at all.
    pub no_cache: bool,
    /// The web interface's settings; never any secret itself.
    pub web: WebConfig,
}

/// The place of the first profile with `id` among `profiles`.
pub open spec fn first_with(profiles: Seq<Profile>, id: Seq<char>) -> Option<int> {
    if exists|i: int| 0 <= i < profiles.len() && #[trigger] profiles[i].id@ == id {
        Some(choose|i: int| 0 <= i < profiles.len() && profiles[i].id@ == id && forall|j: int| 0 <= j < i ==> #[trigger] profiles[j].id@ != id)
    } else {
        None
    }
}

proof fn lemma_first_with(profiles: Seq<Profile>, id: Seq<char>, i: int)
    requires
        0 <= i < profiles.len(),
        profiles[i].id@ == id,
        forall|j: int| 0 <= j < i ==> #[trigger] profiles[j].id@ != id,
    ensures
        first_with(profiles, id) == Some(i),
{
    let k = choose|k: int| 0 <= k < profiles.len() && profiles[k].id@ == id && forall|j: int| 0 <= j < k ==> #[trigger] profiles[j].id@ != id;
    assert(0 <= k < profiles.len() && profiles[k].id@ == id && forall|j: int| 0 <= j < k ==> #[trigger] profiles[j].id@ != id);
    if k < i {
        assert(profiles[k].id@ != id);
    }
    if i < k {
        assert(profiles[i].id@ != id);
    }
}

proof fn lemma_first_with_none(profiles: Seq<Profile>, id: Seq<char>)
    requires
        forall|j: int| 0 <= j < profiles.len() ==> #[trigger] profiles[j].id@ != id,
    ensures
        first_with(profiles, id) is None,
{
}

/// `profiles` without those with `id`, in order.
pub open spec fn without(profiles: Seq<Profile>, id: Seq<char>) -> Seq<Profile>
    decreases profiles.len(),
{
    if profiles.len() == 0 {
        Seq::empty()
    } else {
        let rest = without(profiles.drop_last(), id);
        if profiles.last().id@ == id {
            rest
        } else {
            rest.push(profiles.last())
        }
    }
}

/// The profile the sidebar selects after it is rebuilt: the one with `keep`
/// as ID, if there is one (the last, were there two), else the first.
pub open spec fn nav_pick(profiles: Seq<Profile>, keep: Option<Seq<char>>, r: Option<usize>) -> bool {
    match r {
        None => profiles.len() == 0,
        Some(k) => {
            &&& k < profiles.len()
            &&& if keep matches Some(id) && exists|i: int| 0 <= i < profiles.len() && #[trigger] profiles[i].id@ == id {
                profiles[k as int].id@ == keep->0 && forall|j: int| k < j < profiles.len() ==> #[trigger] profiles[j].id@ != keep->0
            } else {
                k == 0
            }
        },
    }
}

/// Which profile the sidebar selects once rebuilt, keeping `keep` selected
/// while it still exists.
pub fn nav_choice(profiles: &[Profile], keep: Option<&str>) -> (r: Option<usize>)
    ensures
        nav_pick(profiles@, match keep {
            Some(k) => Some(k@),
            None => None,
        }, r),
{
    let ghost kv: Option<Seq<char>> = match keep {
        Some(k) => Some(k@),
        None => None,
    };
    let mut chosen: Option<usize> = None;
    let mut matched = false;
    let mut i: usize = 0;
    while i < profiles.len()
        invariant
            i <= profiles@.len(),
            kv == match keep {
                Some(k) => Some(k@),
                None => None::<Seq<char>>,
            },
            matched == (kv matches Some(id) && exists|j: int| 0 <= j < i && #[trigger] profiles@[j].id@ == id),
            i == 0 <==> chosen is None,
            chosen matches Some(c) ==> c < i && if matched {
                profiles@[c as int].id@ == kv->0 && forall|j: int| c < j < i ==> #[trigger] profiles@[j].id@ != kv->0
            } else {
                c == 0
            },
        decreases profiles@.len() - i,
    {
        let hit = match keep {
            Some(k) => profiles[i].id == k.to_owned(),
            None => false,
        };
        if hit || chosen.is_none() {
            chosen = Some(i);
        }
        if hit {
            matched = true;
        }
        i = i + 1;
    }
    chosen
}

impl StellarshotConfig {
    /// The first profile with `id`, if any.
    pub fn profile(&self, id: &str) -> (r: Option<&Profile>)
        ensures
            match r {
                Some(p) => exists|i: int|
                    0 <= i < self.profiles@.len() && self.profiles@[i] == *p && p.id@ == id@
                        && forall|j: int| 0 <= j < i ==> #[trigger] self.profiles@[j].id@ != id@,
                None => forall|j: int|
                    0 <= j < self.profiles@.len() ==> #[trigger] self.profiles@[j].id@ != id@,
            },
    {
        let mut i: usize = 0;
        while i < self.profiles.len()
            invariant
                i <= self.profiles@.len(),
                forall|j: int| 0 <= j < i ==> #[trigger] self.profiles@[j].id@ != id@,
            decreases self.profiles@.len() - i,
        {
            if self.profiles[i].id.as_str().len() == id.len() && self.profiles[i].id == id.to_owned() {
                return Some(&self.profiles[i]);
            }
            i = i + 1;
        }
        None
    }

    /// `profile` in place of the first profile with its ID, or added last
    /// when there is none.
    pub fn upsert_profile(&mut self, profile: Profile)
        ensures
            *final(self) == (StellarshotConfig { profiles: final(self).profiles, ..*old(self) }),
            match first_with(old(self).profiles@, profile.id@) {
                Some(i) => final(self).profiles@ == old(self).profiles@.update(i, profile),
                None => final(self).profiles@ == old(self).profiles@.push(profile),
            },
    {
        let mut i: usize = 0;
        while i < self.profiles.len()
            invariant
                i <= self.profiles@.len(),
                *self == *old(self),
                forall|j: int| 0 <= j < i ==> #[trigger] self.profiles@[j].id@ != profile.id@,
            decreases self.profiles@.len() - i,
        {
            if self.profiles[i].id == profile.id {
                proof {
                    lemma_first_with(self.profiles@, profile.id@, i as int);
                }
                self.profiles.set(i, profile);
                return;
            }
            i = i + 1;
        }
        proof {
            lemma_first_with_none(self.profiles@, profile.id@);
        }
        self.profiles.push(profile);
    }

    /// Forget every profile with `id`; the others keep their order.
    pub fn remove_profile(&mut self, id: &str)
        ensures
            *final(self) == (StellarshotConfig { profiles: final(self).profiles, ..*old(self) }),
            final(self).profiles@ == without(old(self).profiles@, id@),
    {
        let ghost start = self.profiles@;
        let mut i: usize = 0;
        let ghost mut k: int = 0;
        while i < self.profiles.len()
            invariant
                0 <= k <= start.len(),
                i <= self.profiles@.len(),
                self.profiles@ == without(start.take(k), id@) + start.skip(k),
                i == without(start.take(k), id@).len(),
                *self == (StellarshotConfig { profiles: self.profiles, ..*old(self) }),
            decreases self.profiles@.len() - i,
        {
            assert(start.take(k + 1).drop_last() =~= start.take(k));
            assert(start.take(k + 1).last() == start[k]);
            assert(start.skip(k) =~= seq![start[k]] + start.skip(k + 1));
            assert(self.profiles@[i as int] == start[k]);
            if self.profiles[i].id == id.to_owned() {
                let ghost before = self.profiles@;
                self.profiles.remove(i);
                assert(without(start.take(k + 1), id@) == without(start.take(k), id@));
                assert(self.profiles@ =~= without(start.take(k + 1), id@) + start.skip(k + 1));
            } else {
                assert(without(start.take(k + 1), id@) == without(start.take(k), id@).push(start[k]));
                assert(self.profiles@ =~= without(start.take(k + 1), id@) + start.skip(k + 1));
                i = i + 1;
            }
            proof {
                k = k + 1;
            }
        }
        assert(start.skip(k).len() == 0);
        assert(k == start.len());
        assert(start.take(k) =~= start);
        assert(self.profiles@ =~= without(start, id@));
    }
}

/// The window's theme.
#[derive(Clone, Copy, Debug, Eq, PartialEq, Structural)]
pub enum AppTheme {
    Dark,
    Light,
    System,
}

impl Default for AppTheme {
    fn default() -> (r: AppTheme)
        ensures
            r == AppTheme::System,
    {
        AppTheme::System
    }
}

/// Who can reach the web interface, network-wise.
#[derive(Clone, Copy, Debug, Eq, PartialEq, Structural)]
pub enum NetworkScope {
    /// The daemon does not listen at all.
    Off,
    /// Bound to `127.0.0.1` only.
    Localhost,
    /// Bound to every interface, reachable from the rest of the LAN.
    Lan,
}

impl Default for NetworkScope {
    /// A fresh install never comes up listening on a network by surprise.
    fn default() -> (r: NetworkScope)
        ensures
            r == NetworkScope::Off,
    {
        NetworkScope::Off
    }
}

/// The web interface's settings: what is turned on, never a secret.
#[derive(Clone, Debug, Eq, PartialEq)]
pub struct WebConfig {
    pub scope: NetworkScope,
    pub password_enabled: bool,
    pub token_enabled: bool,
    pub pam_enabled: bool,
    /// The current API token's SHA-256 hash, hex-encoded, once one was made.
    pub token_hash: Option<String>,
    /// Addresses or CIDR ranges allowed on top of what `scope` allows;
    /// empty means no further restriction.
    pub allowed_addresses: Vec<String>,
}

impl Default for WebConfig {
    /// Everything off: not listening, no way to sign in.
    fn default() -> (r: WebConfig)
        ensures
            r.scope == NetworkScope::Off,
            !r.password_enabled,
            !r.token_enabled,
            !r.pam_enabled,
            r.token_hash is None,
            r.allowed_addresses@.len() == 0,
    {
        WebConfig {
            scope: NetworkScope::Off,
            password_enabled: false,
            token_enabled: false,
            pam_enabled: false,
            token_hash: None,
            allowed_addresses: Vec::new(),
        }
    }
}

} // verus!
