//! A backup profile: what it backs up, where to, when it runs and what it
//! keeps.

use vstd::prelude::*;
use crate::path::join;
use crate::path::{same_path, same_path_chars};
use crate::text::{chars_of, string_of};
use crate::path::join_path;

verus! {

/// How often a backup runs by itself.
#[derive(Debug, Clone, Copy, PartialEq, Eq, Structural)]
pub enum Schedule {
    Manual,
    Hourly,
    Daily,
    Weekly,
    OnConnect,
}

/// Which snapshots a backup keeps.
#[derive(Debug, Clone, Copy, PartialEq, Eq, Structural)]
pub enum Retention {
    /// Every hourly snapshot for a day, daily ones for a month, weekly
    /// ones after that.
    Smart,
    KeepFor { days: u32 },
    KeepForever,
}

/// What the machine must be doing before a scheduled backup may start.
#[derive(Debug, Clone, Default, PartialEq, Eq)]
pub struct Conditions {
    pub require_ac: bool,
    pub min_battery_percent: Option<u8>,
    pub block_metered: bool,
    pub require_trusted_network: bool,
    /// Wi-Fi networks, by connection name, that count as trusted.
    pub trusted_networks: Vec<String>,
}

impl Conditions {
    /// No condition is set.
    pub open spec fn none_set(&self) -> bool {
        !self.require_ac && self.min_battery_percent is None && !self.block_metered
            && !self.require_trusted_network
    }

    /// Whether no condition is set.
    pub fn is_empty(&self) -> (r: bool)
        ensures
            r == self.none_set(),
    {
        !self.require_ac && self.min_battery_percent.is_none() && !self.block_metered
            && !self.require_trusted_network
    }
}

/// A command run before or after a backup.
#[derive(Debug, Clone, PartialEq, Eq)]
pub struct Hook {
    pub command: String,
    pub enabled: bool,
}

/// Where a backup's repository is kept.
#[derive(Debug, Clone, PartialEq, Eq)]
pub enum Destination {
    /// A folder on this computer.
    Local { path: String },
    /// A folder on a removable drive, found by the drive's UUID wherever it
    /// is mounted.
    Removable { uuid: String, relative_path: String, label: String },
    /// A folder on an SSH server.
    Sftp { host: String, user: String, port: u16, path: String },
    /// A folder on an rclone remote in Stellarshot's own configuration.
    Rclone { remote: String, path: String, provider: String },
}

/// A destination, as its texts.
pub enum DestinationView {
    Local { path: Seq<char> },
    Removable { uuid: Seq<char>, relative_path: Seq<char>, label: Seq<char> },
    Sftp { host: Seq<char>, user: Seq<char>, port: u16, path: Seq<char> },
    Rclone { remote: Seq<char>, path: Seq<char>, provider: Seq<char> },
}

/// Whether freeing space is on by default for a backup kept at `d`: on
/// for folders on this computer and on removable drives, off for storage
/// reached over the network.
pub open spec fn frees_space_by_default(d: DestinationView) -> bool {
    d is Local || d is Removable
}

impl View for Destination {
    type V = DestinationView;

    open spec fn view(&self) -> DestinationView {
        match self {
            Destination::Local { path } => DestinationView::Local { path: path@ },
            Destination::Removable { uuid, relative_path, label } => DestinationView::Removable {
                uuid: uuid@,
                relative_path: relative_path@,
                label: label@,
            },
            Destination::Sftp { host, user, port, path } => DestinationView::Sftp {
                host: host@,
                user: user@,
                port: *port,
                path: path@,
            },
            Destination::Rclone { remote, path, provider } => DestinationView::Rclone {
                remote: remote@,
                path: path@,
                provider: provider@,
            },
        }
    }
}

/// Two destinations name the same place, as `Destination`'s `==` finds:
/// a local folder and a folder on a removable drive are paths, compared by
/// their components (`/mnt/backup/` is `/mnt/backup`); every other field
/// is compared as it is.
pub open spec fn same_destination(a: DestinationView, b: DestinationView) -> bool {
    match a {
        DestinationView::Local { path } => b matches DestinationView::Local { path: q } && same_path(path, q),
        DestinationView::Removable { uuid, relative_path, label } => b matches DestinationView::Removable {
            uuid: u,
            relative_path: r,
            label: l,
        } && uuid == u && same_path(relative_path, r) && label == l,
        _ => a == b,
    }
}

impl Destination {
    /// The two destinations name the same place.
    pub open spec fn same(&self, other: &Destination) -> bool {
        same_destination(self@, other@)
    }

    /// Whether the two destinations name the same place: `==`.
    pub fn same_as(&self, other: &Destination) -> (r: bool)
        ensures
            r == self.same(other),
    {
        match (self, other) {
            (Destination::Local { path: a }, Destination::Local { path: b }) => same_path_chars(
                chars_of(a.as_str()).as_slice(),
                chars_of(b.as_str()).as_slice(),
            ),
            (
                Destination::Removable { uuid: u1, relative_path: p1, label: l1 },
                Destination::Removable { uuid: u2, relative_path: p2, label: l2 },
            ) => *u1 == *u2 && *l1 == *l2 && same_path_chars(
                chars_of(p1.as_str()).as_slice(),
                chars_of(p2.as_str()).as_slice(),
            ),
            (
                Destination::Sftp { host: h1, user: u1, port: n1, path: p1 },
                Destination::Sftp { host: h2, user: u2, port: n2, path: p2 },
            ) => *h1 == *h2 && *u1 == *u2 && *n1 == *n2 && *p1 == *p2,
            (
                Destination::Rclone { remote: r1, path: p1, provider: v1 },
                Destination::Rclone { remote: r2, path: p2, provider: v2 },
            ) => *r1 == *r2 && *p1 == *p2 && *v1 == *v2,
            _ => false,
        }
    }

    /// Whether the two destinations are written alike, field by field.
    pub fn identical(&self, other: &Destination) -> (r: bool)
        ensures
            r == (self@ == other@),
    {
        match (self, other) {
            (Destination::Local { path: a }, Destination::Local { path: b }) => *a == *b,
            (
                Destination::Removable { uuid: u1, relative_path: p1, label: l1 },
                Destination::Removable { uuid: u2, relative_path: p2, label: l2 },
            ) => *u1 == *u2 && *p1 == *p2 && *l1 == *l2,
            (
                Destination::Sftp { host: h1, user: u1, port: n1, path: p1 },
                Destination::Sftp { host: h2, user: u2, port: n2, path: p2 },
            ) => *h1 == *h2 && *u1 == *u2 && *n1 == *n2 && *p1 == *p2,
            (
                Destination::Rclone { remote: r1, path: p1, provider: v1 },
                Destination::Rclone { remote: r2, path: p2, provider: v2 },
            ) => *r1 == *r2 && *p1 == *p2 && *v1 == *v2,
            _ => false,
        }
    }

    /// A copy of this destination.
    pub fn duplicate(&self) -> (r: Destination)
        ensures
            r == *self,
    {
        match self {
            Destination::Local { path } => Destination::Local { path: path.clone() },
            Destination::Removable { uuid, relative_path, label } => Destination::Removable {
                uuid: uuid.clone(),
                relative_path: relative_path.clone(),
                label: label.clone(),
            },
            Destination::Sftp { host, user, port, path } => Destination::Sftp {
                host: host.clone(),
                user: user.clone(),
                port: *port,
                path: path.clone(),
            },
            Destination::Rclone { remote, path, provider } => Destination::Rclone {
                remote: remote.clone(),
                path: path.clone(),
                provider: provider.clone(),
            },
        }
    }

    /// Whether freeing space is on by default for a backup kept here: on
    /// for folders on this computer and on removable drives, off for
    /// storage reached over the network.
    pub open spec fn prunes_by_default(&self) -> bool {
        frees_space_by_default(self@)
    }
}

/// Naming the same place is an equivalence.
pub proof fn lemma_same_destination_is_equivalence(a: DestinationView, b: DestinationView, c: DestinationView)
    ensures
        same_destination(a, a),
        same_destination(a, b) ==> same_destination(b, a),
        same_destination(a, b) && same_destination(b, c) ==> same_destination(a, c),
{
}

/// A backup profile.
#[derive(Debug, Clone, PartialEq, Eq)]
pub struct Profile {
    pub id: String,
    pub name: String,
    pub destination: Destination,
    pub sources: Vec<String>,
    pub excludes: Vec<String>,
    pub exclude_patterns: Vec<String>,
    pub one_file_system: bool,
    pub exclude_caches: bool,
    pub git_ignore: bool,
    pub skip_if_unchanged: bool,
    pub schedule: Schedule,
    pub retention: Retention,
    /// Free up space automatically; `None` means the destination's default.
    pub prune: Option<bool>,
    pub append_only: bool,
    pub bandwidth_limit: String,
    pub conditions: Conditions,
    pub hooks: Vec<Hook>,
    /// The Unix time of the last successful backup.
    pub last_success: Option<i64>,
}

/// The plain texts of `v`.
pub open spec fn texts(v: Seq<String>) -> Seq<Seq<char>> {
    v.map_values(|s: String| s@)
}

/// A copy of `v`.
pub fn copy_texts(v: &Vec<String>) -> (r: Vec<String>)
    ensures
        texts(r@) == texts(v@),
{
    let r = v.clone();
    assert(texts(r@) =~= texts(v@));
    r
}

/// Scheduling conditions, as plain values.
pub struct ConditionsView {
    pub require_ac: bool,
    pub min_battery_percent: Option<u8>,
    pub block_metered: bool,
    pub require_trusted_network: bool,
    pub trusted_networks: Seq<Seq<char>>,
}

impl View for Conditions {
    type V = ConditionsView;

    open spec fn view(&self) -> ConditionsView {
        ConditionsView {
            require_ac: self.require_ac,
            min_battery_percent: self.min_battery_percent,
            block_metered: self.block_metered,
            require_trusted_network: self.require_trusted_network,
            trusted_networks: texts(self.trusted_networks@),
        }
    }
}

/// A profile, as plain values.
pub struct ProfileView {
    pub id: Seq<char>,
    pub name: Seq<char>,
    pub destination: DestinationView,
    pub sources: Seq<Seq<char>>,
    pub excludes: Seq<Seq<char>>,
    pub exclude_patterns: Seq<Seq<char>>,
    pub one_file_system: bool,
    pub exclude_caches: bool,
    pub git_ignore: bool,
    pub skip_if_unchanged: bool,
    pub schedule: Schedule,
    pub retention: Retention,
    pub prune: Option<bool>,
    pub append_only: bool,
    pub bandwidth_limit: Seq<char>,
    pub conditions: ConditionsView,
    pub hooks: Seq<(Seq<char>, bool)>,
    pub last_success: Option<i64>,
}

impl View for Profile {
    type V = ProfileView;

    open spec fn view(&self) -> ProfileView {
        ProfileView {
            id: self.id@,
            name: self.name@,
            destination: self.destination@,
            sources: texts(self.sources@),
            excludes: texts(self.excludes@),
            exclude_patterns: texts(self.exclude_patterns@),
            one_file_system: self.one_file_system,
            exclude_caches: self.exclude_caches,
            git_ignore: self.git_ignore,
            skip_if_unchanged: self.skip_if_unchanged,
            schedule: self.schedule,
            retention: self.retention,
            prune: self.prune,
            append_only: self.append_only,
            bandwidth_limit: self.bandwidth_limit@,
            conditions: self.conditions@,
            hooks: self.hooks@.map_values(|h: Hook| (h.command@, h.enabled)),
            last_success: self.last_success,
        }
    }
}

impl Conditions {
    /// A copy of these conditions.
    pub fn duplicate(&self) -> (r: Conditions)
        ensures
            r@ == self@,
    {
        Conditions {
            require_ac: self.require_ac,
            min_battery_percent: self.min_battery_percent,
            block_metered: self.block_metered,
            require_trusted_network: self.require_trusted_network,
            trusted_networks: copy_texts(&self.trusted_networks),
        }
    }
}

/// A copy of `hooks`.
fn copy_hooks(hooks: &Vec<Hook>) -> (r: Vec<Hook>)
    ensures
        r@.map_values(|h: Hook| (h.command@, h.enabled)) == hooks@.map_values(
            |h: Hook| (h.command@, h.enabled),
        ),
{
    let mut r: Vec<Hook> = Vec::new();
    let mut i: usize = 0;
    while i < hooks.len()
        invariant
            i <= hooks@.len(),
            r@.len() == i,
            forall|j: int|
                0 <= j < i ==> (#[trigger] r@[j]).command@ == hooks@[j].command@ && r@[j].enabled
                    == hooks@[j].enabled,
        decreases hooks@.len() - i,
    {
        r.push(Hook { command: hooks[i].command.clone(), enabled: hooks[i].enabled });
        i = i + 1;
    }
    assert(r@.map_values(|h: Hook| (h.command@, h.enabled)) =~= hooks@.map_values(
        |h: Hook| (h.command@, h.enabled),
    ));
    r
}

impl Profile {
    /// A new profile with `id` and `name` that backs up `sources` to
    /// `destination`, with every other setting at its default: no
    /// exclusions, staying on one file system, backing up by hand, keeping a
    /// smart history, no conditions and no hooks.
    pub fn new(id: String, name: String, destination: Destination, sources: Vec<String>) -> (r:
        Profile)
        ensures
            r.id == id,
            r.name == name,
            r.destination == destination,
            r.sources == sources,
            r.excludes@.len() == 0,
            r.exclude_patterns@.len() == 0,
            r.one_file_system,
            !r.exclude_caches,
            !r.git_ignore,
            !r.skip_if_unchanged,
            r.schedule == Schedule::Manual,
            r.retention == Retention::Smart,
            r.prune is None,
            !r.append_only,
            r.bandwidth_limit@.len() == 0,
            r.conditions.none_set(),
            r.conditions.trusted_networks@.len() == 0,
            r.hooks@.len() == 0,
            r.last_success is None,
    {
        Profile {
            id,
            name,
            destination,
            sources,
            excludes: Vec::new(),
            exclude_patterns: Vec::new(),
            one_file_system: true,
            exclude_caches: false,
            git_ignore: false,
            skip_if_unchanged: false,
            schedule: Schedule::Manual,
            retention: Retention::Smart,
            prune: None,
            append_only: false,
            bandwidth_limit: String::new(),
            conditions: Conditions {
                require_ac: false,
                min_battery_percent: None,
                block_metered: false,
                require_trusted_network: false,
                trusted_networks: Vec::new(),
            },
            hooks: Vec::new(),
            last_success: None,
        }
    }

    /// A copy of this profile.
    pub fn duplicate(&self) -> (r: Profile)
        ensures
            r@ == self@,
    {
        Profile {
            id: self.id.clone(),
            name: self.name.clone(),
            destination: self.destination.duplicate(),
            sources: copy_texts(&self.sources),
            excludes: copy_texts(&self.excludes),
            exclude_patterns: copy_texts(&self.exclude_patterns),
            one_file_system: self.one_file_system,
            exclude_caches: self.exclude_caches,
            git_ignore: self.git_ignore,
            skip_if_unchanged: self.skip_if_unchanged,
            schedule: self.schedule,
            retention: self.retention,
            prune: self.prune,
            append_only: self.append_only,
            bandwidth_limit: self.bandwidth_limit.clone(),
            conditions: self.conditions.duplicate(),
            hooks: copy_hooks(&self.hooks),
            last_success: self.last_success,
        }
    }

    /// Whether freeing space is on: the profile's own choice, or else the
    /// destination's default.
    pub open spec fn prunes(&self) -> bool {
        match self.prune {
            Some(on) => on,
            None => self.destination.prunes_by_default(),
        }
    }

    /// Whether freeing space is on.
    pub fn prune_enabled(&self) -> (r: bool)
        ensures
            r == self.prunes(),
    {
        match self.prune {
            Some(on) => on,
            None => match &self.destination {
                Destination::Local { .. } | Destination::Removable { .. } => true,
                _ => false,
            },
        }
    }
}

/// The folders a new backup of `home` leaves out: the cache, the Trash and
/// the downloads folder.
pub open spec fn default_excludes_spec(home: Seq<char>) -> Seq<Seq<char>> {
    seq![join(home, ".cache"@), join(home, ".local/share/Trash"@), join(home, "Downloads"@)]
}

/// The folders a new backup of `home` leaves out.
pub fn default_excludes(home: &str) -> (r: Vec<String>)
    ensures
        r@.len() == 3,
        forall|i: int| 0 <= i < 3 ==> #[trigger] r@[i]@ == default_excludes_spec(home@)[i],
{
    let h = chars_of(home);
    let a = join_path(h.as_slice(), chars_of(".cache").as_slice());
    let b = join_path(h.as_slice(), chars_of(".local/share/Trash").as_slice());
    let c = join_path(h.as_slice(), chars_of("Downloads").as_slice());
    let mut r: Vec<String> = Vec::new();
    r.push(string_of(a.as_slice()));
    r.push(string_of(b.as_slice()));
    r.push(string_of(c.as_slice()));
    r
}

} // verus!
