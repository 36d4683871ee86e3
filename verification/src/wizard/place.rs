//! The wizard's "where" step: a folder, a removable drive, an SSH server,
//! Google Drive, or one of the user's rclone remotes.
//!
//! Each kind collects what it needs and produces a [`Destination`]. Nothing is
//! accepted until the destination has been probed, and a probe only counts for
//! the destination it was run against, so editing a field after a check
//! always asks for a new one. Times are Unix seconds handed in by the caller.

use vstd::prelude::*;
use crate::drives::{best_drive, lemma_best_drive_unique, locate, on_drive, Drive};
use crate::errors::{EngineError, Probe};
use crate::ids::{is_remote_name, new_remote_name};
use crate::number::{decimal, decimal_chars, parse_u16, parse_u16_chars};
use crate::path::{file_name, file_name_of, strip_prefix};
use crate::profile::{lemma_same_destination_is_equivalence, same_destination, Destination, DestinationView};
use crate::text::{chars_of, string_of, trim, trim_both_matches, trim_chars, trim_matches, trimmed};

verus! {

/// The kinds of place a backup can go.
#[derive(Debug, Clone, Copy, PartialEq, Eq, Structural)]
pub enum Kind {
    Folder,
    Drive,
    Server,
    Google,
    Remote,
}

/// Default SSH port.
pub const SSH_PORT: u16 = 22;

/// The machine's name from the text of `/proc/sys/kernel/hostname`, or
/// "computer" when there is none.
pub open spec fn host_name(text: Option<Seq<char>>) -> Seq<char> {
    match text {
        Some(t) => if trim(t).len() > 0 {
            trim(t)
        } else {
            "computer"@
        },
        None => "computer"@,
    }
}

/// The machine's name, used for default folder names so two computers
/// backing up to the same drive do not collide: the trimmed `text` read
/// from the kernel, or "computer".
pub fn hostname(text: Option<&str>) -> (r: String)
    ensures
        r@ == host_name(
            match text {
                Some(t) => Some(t@),
                None => None,
            },
        ),
{
    match text {
        Some(t) => {
            let name = trimmed(t);
            if name.as_str().is_empty() {
                "computer".to_owned()
            } else {
                name
            }
        },
        None => "computer".to_owned(),
    }
}

/// The folder a new backup gets inside a drive or cloud account.
pub open spec fn default_folder(host: Seq<char>) -> Seq<char> {
    "Stellarshot/"@ + host
}

/// A folder typed into a form, without white space or slashes at either end.
pub open spec fn typed_folder(s: Seq<char>) -> Seq<char> {
    trim_matches(trim(s), '/')
}

/// The folder `s` describes, as [`typed_folder`] has it.
pub fn typed_folder_of(s: &str) -> (r: String)
    ensures
        r@ == typed_folder(s@),
{
    let v = chars_of(s);
    let t = trim_chars(v.as_slice());
    let f = trim_both_matches(t.as_slice(), '/');
    string_of(f.as_slice())
}

/// Where a folder is kept: on the removable drive it lies on, found again
/// by the drive's UUID, or else on this computer.
pub open spec fn folder_destination(folder: Seq<char>, drives: Seq<Drive>) -> DestinationView {
    if exists|k: int| best_drive(drives, folder, k) {
        let k = choose|k: int| best_drive(drives, folder, k);
        DestinationView::Removable {
            uuid: drives[k].uuid@,
            relative_path: match strip_prefix(folder, drives[k].mount_point@) {
                Some(rest) => rest,
                None => Seq::empty(),
            },
            label: drives[k].label@,
        }
    } else {
        DestinationView::Local { path: folder }
    }
}

/// The destination for `folder`, given the removable drives mounted now.
pub fn for_folder(folder: &str, drives: &[Drive]) -> (r: Destination)
    ensures
        r@ == folder_destination(folder@, drives@),
{
    match locate(drives, folder) {
        Some((drive, rest)) => {
            proof {
                let k = choose|k: int|
                    best_drive(drives@, folder@, k) && drive == drives@[k] && strip_prefix(
                        folder@,
                        drive.mount_point@,
                    ) == Some(rest@);
                let c = choose|c: int| best_drive(drives@, folder@, c);
                lemma_best_drive_unique(drives@, folder@, k, c);
            }
            Destination::Removable { uuid: drive.uuid, relative_path: rest, label: drive.label }
        },
        None => {
            assert(!exists|k: int| best_drive(drives@, folder@, k));
            Destination::Local { path: folder.to_owned() }
        },
    }
}

/// What the "where" step holds.
#[derive(Debug, Clone)]
pub struct Place {
    pub kind: Kind,
    pub folder: Option<String>,
    pub drives: Vec<Drive>,
    pub drive: Option<usize>,
    pub drive_folder: String,
    pub host: String,
    pub user: String,
    pub port: String,
    pub server_path: String,
    /// The remote a Google sign-in created in Stellarshot's configuration.
    pub google_remote: Option<String>,
    pub signing_in: bool,
    /// A Google API client of the user's own, instead of the one Stellarshot
    /// signs in with by default. Both empty means the default.
    pub google_client_id: String,
    pub google_client_secret: String,
    /// The custom-credentials fields are shown.
    pub google_advanced: bool,
    pub cloud_path: String,
    pub user_remotes: Vec<String>,
    /// The chosen user remote, and the copy of it in Stellarshot's
    /// configuration once made.
    pub user_remote: Option<(usize, Option<String>)>,
    pub remote_path: String,
    pub rclone_available: Option<bool>,
    /// The destination being checked, and since when.
    pub checking: Option<(Destination, u64)>,
    /// The last probe result, and the destination it is for.
    pub probed: Option<(Destination, Result<Probe, EngineError>)>,
    /// A problem to show under the form: a failed sign-in or copy.
    pub problem: Option<String>,
    /// Select the drive with this UUID once drives are listed (an import).
    pub preferred_drive: Option<String>,
    /// Pick the user remote with this name once remotes are listed (an import).
    pub preferred_remote: Option<String>,
    /// What Google Drive is called in the user's language, which is also
    /// the provider a Google destination records.
    pub google_drive: String,
}

/// What the step needs the application to do.
#[derive(Debug)]
pub enum Effect {
    PickFolder,
    ListDrives,
    CheckRclone,
    ListRemotes,
    /// Sign in to Google Drive, creating the remote `name`. `credentials`
    /// is the user's own client ID and secret, if they gave both; `None`
    /// signs in with Stellarshot's own.
    SignIn { name: String, credentials: Option<(String, String)> },
    /// Copy the user's remote `from` into Stellarshot's configuration as `to`.
    CopyRemote { index: usize, from: String, to: String },
    Probe(Destination),
}

/// `described` is a destination, and the same place as `d`.
pub open spec fn describes(described: Option<DestinationView>, d: DestinationView) -> bool {
    described matches Some(x) && same_destination(x, d)
}

/// The two descriptions are both none, or name the same place.
pub open spec fn same_described(a: Option<DestinationView>, b: Option<DestinationView>) -> bool {
    match a {
        Some(x) => describes(b, x),
        None => b is None,
    }
}

/// `p` is the step as it starts on a machine called `host`, where Google
/// Drive is called `google_drive`.
pub open spec fn is_new(p: Place, host: Seq<char>, google_drive: Seq<char>) -> bool {
    &&& p.kind == Kind::Folder
    &&& p.folder is None
    &&& p.drives@.len() == 0
    &&& p.drive is None
    &&& p.drive_folder@ == default_folder(host)
    &&& p.host@.len() == 0
    &&& p.user@.len() == 0
    &&& p.port@ == decimal(SSH_PORT as nat)
    &&& p.server_path@.len() == 0
    &&& p.google_remote is None
    &&& !p.signing_in
    &&& p.google_client_id@.len() == 0
    &&& p.google_client_secret@.len() == 0
    &&& !p.google_advanced
    &&& p.cloud_path@ == default_folder(host)
    &&& p.user_remotes@.len() == 0
    &&& p.user_remote is None
    &&& p.remote_path@ == default_folder(host)
    &&& p.rclone_available is None
    &&& p.checking is None
    &&& p.probed is None
    &&& p.problem is None
    &&& p.preferred_drive is None
    &&& p.preferred_remote is None
    &&& p.google_drive@ == google_drive
}

impl Place {
    /// The step as it starts on a machine called `host`, where Google Drive
    /// is called `google_drive`: a folder, nothing chosen, the default
    /// folder names and the SSH port.
    pub fn new(host: &str, google_drive: &str) -> (r: Place)
        ensures
            is_new(r, host@, google_drive@),
    {
        let mut folder = chars_of("Stellarshot/");
        let h = chars_of(host);
        crate::text::extend(&mut folder, h.as_slice());
        let port = decimal_chars(SSH_PORT as u64);
        Place {
            kind: Kind::Folder,
            folder: None,
            drives: Vec::new(),
            drive: None,
            drive_folder: string_of(folder.as_slice()),
            host: String::new(),
            user: String::new(),
            port: string_of(port.as_slice()),
            server_path: String::new(),
            google_remote: None,
            signing_in: false,
            google_client_id: String::new(),
            google_client_secret: String::new(),
            google_advanced: false,
            cloud_path: string_of(folder.as_slice()),
            user_remotes: Vec::new(),
            user_remote: None,
            remote_path: string_of(folder.as_slice()),
            rclone_available: None,
            checking: None,
            probed: None,
            problem: None,
            preferred_drive: None,
            preferred_remote: None,
            google_drive: google_drive.to_owned(),
        }
    }

    /// The destination the fields describe, if they are complete.
    pub open spec fn described(&self) -> Option<DestinationView> {
        match self.kind {
            Kind::Folder => match self.folder {
                Some(f) => Some(folder_destination(f@, self.drives@)),
                None => None,
            },
            Kind::Drive => match self.drive {
                Some(i) => if i < self.drives@.len() && typed_folder(self.drive_folder@).len() > 0 {
                    Some(
                        DestinationView::Removable {
                            uuid: self.drives@[i as int].uuid@,
                            relative_path: typed_folder(self.drive_folder@),
                            label: self.drives@[i as int].label@,
                        },
                    )
                } else {
                    None
                },
                None => None,
            },
            Kind::Server => match parse_u16(trim(self.port@)) {
                Some(port) => if trim(self.host@).len() > 0 && trim(self.server_path@).len() > 0 {
                    Some(
                        DestinationView::Sftp {
                            host: trim(self.host@),
                            user: trim(self.user@),
                            port,
                            path: trim(self.server_path@),
                        },
                    )
                } else {
                    None
                },
                None => None,
            },
            Kind::Google => match self.google_remote {
                Some(remote) => if typed_folder(self.cloud_path@).len() > 0 {
                    Some(
                        DestinationView::Rclone {
                            remote: remote@,
                            path: typed_folder(self.cloud_path@),
                            provider: self.google_drive@,
                        },
                    )
                } else {
                    None
                },
                None => None,
            },
            Kind::Remote => match self.user_remote {
                Some((index, Some(copy))) => if typed_folder(self.remote_path@).len() > 0 {
                    Some(
                        DestinationView::Rclone {
                            remote: copy@,
                            path: typed_folder(self.remote_path@),
                            provider: if index < self.user_remotes@.len() {
                                self.user_remotes@[index as int]@
                            } else {
                                Seq::empty()
                            },
                        },
                    )
                } else {
                    None
                },
                _ => None,
            },
        }
    }

    /// The destination the current fields describe, if they are complete.
    pub fn destination(&self) -> (r: Option<Destination>)
        ensures
            match r {
                Some(d) => self.described() == Some(d@),
                None => self.described() is None,
            },
    {
        match self.kind {
            Kind::Folder => match &self.folder {
                Some(f) => Some(for_folder(f.as_str(), self.drives.as_slice())),
                None => None,
            },
            Kind::Drive => match self.drive {
                Some(i) => {
                    if i < self.drives.len() {
                        let folder = typed_folder_of(self.drive_folder.as_str());
                        if folder.as_str().is_empty() {
                            None
                        } else {
                            let drive = &self.drives[i];
                            Some(
                                Destination::Removable {
                                    uuid: drive.uuid.clone(),
                                    relative_path: folder,
                                    label: drive.label.clone(),
                                },
                            )
                        }
                    } else {
                        None
                    }
                },
                None => None,
            },
            Kind::Server => {
                let host = trimmed(self.host.as_str());
                let path = trimmed(self.server_path.as_str());
                let port_text = trim_chars(chars_of(self.port.as_str()).as_slice());
                match parse_u16_chars(port_text.as_slice()) {
                    Some(port) => {
                        if !host.as_str().is_empty() && !path.as_str().is_empty() {
                            Some(
                                Destination::Sftp {
                                    host,
                                    user: trimmed(self.user.as_str()),
                                    port,
                                    path,
                                },
                            )
                        } else {
                            None
                        }
                    },
                    None => None,
                }
            },
            Kind::Google => match &self.google_remote {
                Some(remote) => {
                    let path = typed_folder_of(self.cloud_path.as_str());
                    if path.as_str().is_empty() {
                        None
                    } else {
                        Some(
                            Destination::Rclone {
                                remote: remote.clone(),
                                path,
                                provider: self.google_drive.clone(),
                            },
                        )
                    }
                },
                None => None,
            },
            Kind::Remote => match &self.user_remote {
                Some((index, Some(copy))) => {
                    let path = typed_folder_of(self.remote_path.as_str());
                    if path.as_str().is_empty() {
                        None
                    } else {
                        let provider = if *index < self.user_remotes.len() {
                            self.user_remotes[*index].clone()
                        } else {
                            String::new()
                        };
                        Some(Destination::Rclone { remote: copy.clone(), path, provider })
                    }
                },
                _ => None,
            },
        }
    }

    /// The last probe result, if it is for the destination as it is now.
    pub open spec fn current_probe(&self) -> Option<Result<Probe, EngineError>> {
        match self.probed {
            Some((d, result)) => if describes(self.described(), d@) {
                Some(result)
            } else {
                None
            },
            None => None,
        }
    }

    /// The probe result, if it is for the destination as it is now.
    pub fn probe(&self) -> (r: Option<&Result<Probe, EngineError>>)
        ensures
            match r {
                Some(result) => self.current_probe() == Some(*result),
                None => self.current_probe() is None,
            },
    {
        match self.destination() {
            Some(current) => match &self.probed {
                Some((probed, result)) => {
                    if current.same_as(probed) {
                        Some(result)
                    } else {
                        None
                    }
                },
                None => None,
            },
            None => None,
        }
    }

    /// When the check of the destination as it is now began, if it runs.
    pub open spec fn current_check(&self) -> Option<u64> {
        match self.checking {
            Some((d, since)) => if describes(self.described(), d@) {
                Some(since)
            } else {
                None
            },
            None => None,
        }
    }

    /// When the check of the destination as it is now began, while it runs.
    pub fn checking_since(&self) -> (r: Option<u64>)
        ensures
            r == self.current_check(),
    {
        match self.destination() {
            Some(current) => match &self.checking {
                Some((checked, since)) => {
                    if current.same_as(checked) {
                        Some(*since)
                    } else {
                        None
                    }
                },
                None => None,
            },
            None => None,
        }
    }

    /// The name the step suggests for the backup, from what was chosen.
    pub open spec fn suggestion(&self) -> Option<Seq<char>> {
        match self.kind {
            Kind::Folder => match self.folder {
                Some(f) => file_name(f@),
                None => None,
            },
            Kind::Drive => match self.drive {
                Some(i) => if i < self.drives@.len() {
                    Some(self.drives@[i as int].label@)
                } else {
                    None
                },
                None => None,
            },
            Kind::Server => if trim(self.host@).len() > 0 {
                Some(trim(self.host@))
            } else {
                None
            },
            Kind::Google => Some(self.google_drive@),
            Kind::Remote => match self.user_remote {
                Some((i, _)) => if i < self.user_remotes@.len() {
                    Some(self.user_remotes@[i as int]@)
                } else {
                    None
                },
                None => None,
            },
        }
    }

    /// A name for the backup, from what was chosen.
    pub fn suggested_name(&self) -> (r: Option<String>)
        ensures
            match r {
                Some(n) => self.suggestion() == Some(n@),
                None => self.suggestion() is None,
            },
    {
        match self.kind {
            Kind::Folder => match &self.folder {
                Some(f) => match file_name_of(chars_of(f.as_str()).as_slice()) {
                    Some(name) => Some(string_of(name.as_slice())),
                    None => None,
                },
                None => None,
            },
            Kind::Drive => match self.drive {
                Some(i) => {
                    if i < self.drives.len() {
                        Some(self.drives[i].label.clone())
                    } else {
                        None
                    }
                },
                None => None,
            },
            Kind::Server => {
                let host = trimmed(self.host.as_str());
                if host.as_str().is_empty() {
                    None
                } else {
                    Some(host)
                }
            },
            Kind::Google => Some(self.google_drive.clone()),
            Kind::Remote => match &self.user_remote {
                Some((i, _)) => {
                    if *i < self.user_remotes.len() {
                        Some(self.user_remotes[*i].clone())
                    } else {
                        None
                    }
                },
                None => None,
            },
        }
    }

    /// Whether this kind needs rclone: a server, Google Drive or a remote.
    pub fn needs_rclone(&self) -> (r: bool)
        ensures
            r == (self.kind == Kind::Server || self.kind == Kind::Google || self.kind == Kind::Remote),
    {
        match self.kind {
            Kind::Server | Kind::Google | Kind::Remote => true,
            _ => false,
        }
    }

    /// What to look up when the step is shown: the drives, and whether
    /// rclone is there.
    pub fn enter(&self) -> (r: Vec<Effect>)
        ensures
            r@.len() == 2,
            r@[0] is ListDrives,
            r@[1] is CheckRclone,
    {
        let mut effects: Vec<Effect> = Vec::new();
        effects.push(Effect::ListDrives);
        effects.push(Effect::CheckRclone);
        effects
    }
}

/// `after` and `effects` are what checking `before` at `now` gives: nothing
/// while the destination as it is now is already being checked or while
/// the fields describe none; otherwise that destination is probed, and
/// recorded as being checked since `now`.
pub open spec fn checked(before: Place, after: Place, effects: Seq<Effect>, now: u64) -> bool {
    if before.current_check() is Some || before.described() is None {
        after == before && effects.len() == 0
    } else {
        &&& after == Place { checking: after.checking, ..before }
        &&& after.checking matches Some((d, since)) && before.described() == Some(d@) && since == now
        &&& effects.len() == 1
        &&& effects[0] matches Effect::Probe(p) && before.described() == Some(p@)
    }
}

impl Place {
    /// Check the destination as it is now, unless that is already under way.
    pub fn check(&mut self, now: u64) -> (r: Vec<Effect>)
        ensures
            checked(*old(self), *final(self), r@, now),
    {
        if self.checking_since().is_some() {
            return Vec::new();
        }
        match self.destination() {
            Some(destination) => {
                self.checking = Some((destination.duplicate(), now));
                let mut effects: Vec<Effect> = Vec::new();
                effects.push(Effect::Probe(destination));
                effects
            },
            None => Vec::new(),
        }
    }
}

/// What reaches the step.
#[derive(Debug)]
pub enum Message {
    Kind(Kind),
    ChooseFolder,
    FolderChosen(String),
    DrivesListed(Vec<Drive>),
    PickDrive(usize),
    DriveFolder(String),
    Host(String),
    User(String),
    Port(String),
    ServerPath(String),
    SignIn,
    SignedIn(Result<String, EngineError>),
    ToggleGoogleAdvanced,
    GoogleClientId(String),
    GoogleClientSecret(String),
    CloudPath(String),
    RemotesListed(Result<Vec<String>, EngineError>),
    PickRemote(usize),
    RemoteCopied(usize, Result<String, EngineError>),
    RemotePath(String),
    RcloneChecked(bool),
    Check,
    Probed(Destination, Result<Probe, EngineError>),
}

/// No effect.
pub open spec fn nothing(effects: Seq<Effect>) -> bool {
    effects.len() == 0
}

/// `i` is the first of `drives` with `uuid`.
pub open spec fn is_first_drive(drives: Seq<Drive>, uuid: Seq<char>, i: int) -> bool {
    &&& 0 <= i < drives.len()
    &&& drives[i].uuid@ == uuid
    &&& forall|j: int| 0 <= j < i ==> (#[trigger] drives[j]).uuid@ != uuid
}

/// The first of `drives` with `uuid`, if one has it.
pub open spec fn first_drive(drives: Seq<Drive>, uuid: Seq<char>) -> Option<int> {
    if exists|i: int| is_first_drive(drives, uuid, i) {
        Some(choose|i: int| is_first_drive(drives, uuid, i))
    } else {
        None
    }
}

/// `i` is the first of `names` that is `name`.
pub open spec fn is_first_name(names: Seq<String>, name: Seq<char>, i: int) -> bool {
    &&& 0 <= i < names.len()
    &&& names[i]@ == name
    &&& forall|j: int| 0 <= j < i ==> (#[trigger] names[j])@ != name
}

/// The first of `names` that is `name`, if one is.
pub open spec fn first_name(names: Seq<String>, name: Seq<char>) -> Option<int> {
    if exists|i: int| is_first_name(names, name, i) {
        Some(choose|i: int| is_first_name(names, name, i))
    } else {
        None
    }
}

/// The index of the first of `drives` with `uuid`.
fn find_drive(drives: &[Drive], uuid: &String) -> (r: Option<usize>)
    ensures
        match r {
            Some(i) => first_drive(drives@, uuid@) == Some(i as int),
            None => first_drive(drives@, uuid@) is None,
        },
{
    let mut i: usize = 0;
    while i < drives.len()
        invariant
            i <= drives@.len(),
            forall|j: int| 0 <= j < i ==> (#[trigger] drives@[j]).uuid@ != uuid@,
        decreases drives@.len() - i,
    {
        if drives[i].uuid == *uuid {
            proof {
                let c = choose|c: int| is_first_drive(drives@, uuid@, c);
                assert(is_first_drive(drives@, uuid@, i as int));
                if c < i {
                    assert(drives@[c].uuid@ != uuid@);
                } else if c > i {
                    assert(drives@[i as int].uuid@ != uuid@);
                }
            }
            return Some(i);
        }
        i = i + 1;
    }
    None
}

/// The index of the first of `names` that is `name`.
fn find_name(names: &[String], name: &String) -> (r: Option<usize>)
    ensures
        match r {
            Some(i) => first_name(names@, name@) == Some(i as int),
            None => first_name(names@, name@) is None,
        },
{
    let mut i: usize = 0;
    while i < names.len()
        invariant
            i <= names@.len(),
            forall|j: int| 0 <= j < i ==> (#[trigger] names@[j])@ != name@,
        decreases names@.len() - i,
    {
        if names[i] == *name {
            proof {
                let c = choose|c: int| is_first_name(names@, name@, c);
                assert(is_first_name(names@, name@, i as int));
                if c < i {
                    assert(names@[c]@ != name@);
                } else if c > i {
                    assert(names@[i as int]@ != name@);
                }
            }
            return Some(i);
        }
        i = i + 1;
    }
    None
}

/// Listing `drives` forgets the chosen drive; the drive an import asked
/// for, if it is among them, is picked and checked.
pub open spec fn drives_listed(
    before: Place,
    drives: Vec<Drive>,
    after: Place,
    effects: Seq<Effect>,
    now: u64,
) -> bool {
    let listed = Place { drives, drive: None, problem: None, ..before };
    let preferred = match before.preferred_drive {
        Some(uuid) => first_drive(drives@, uuid@),
        None => None,
    };
    match preferred {
        Some(i) => checked(Place { drive: Some(i as usize), ..listed }, after, effects, now),
        None => after == listed && nothing(effects),
    }
}

/// The credentials a sign-in carries: the user's client ID and secret,
/// trimmed, when both are given; none otherwise.
pub open spec fn credentials_for(before: Place, credentials: Option<(String, String)>) -> bool {
    let id = trim(before.google_client_id@);
    let secret = trim(before.google_client_secret@);
    match credentials {
        Some((i, s)) => id.len() > 0 && secret.len() > 0 && i@ == id && s@ == secret,
        None => id.len() == 0 || secret.len() == 0,
    }
}

/// One sign-in at a time: a new one creates a remote with a fresh name.
pub open spec fn signing_in(before: Place, after: Place, effects: Seq<Effect>) -> bool {
    let base = Place { problem: None, ..before };
    if before.signing_in {
        after == base && nothing(effects)
    } else {
        &&& after == Place { signing_in: true, ..base }
        &&& effects.len() == 1
        &&& effects[0] matches Effect::SignIn { name, credentials } && is_remote_name(name@)
            && credentials_for(before, credentials)
    }
}

/// A finished sign-in: its remote is the destination's, checked at once;
/// a failed one is shown.
pub open spec fn signed_in(
    before: Place,
    result: Result<String, EngineError>,
    after: Place,
    effects: Seq<Effect>,
    now: u64,
) -> bool {
    let done = Place { signing_in: false, problem: None, ..before };
    match result {
        Ok(remote) => checked(Place { google_remote: Some(remote), ..done }, after, effects, now),
        Err(e) => after == Place { problem: Some(e.detail), ..done } && nothing(effects),
    }
}

/// Picking the user's remote `index` has it copied into Stellarshot's
/// configuration under a fresh name; an index past the list does nothing.
pub open spec fn picked_remote(before: Place, index: usize, after: Place, effects: Seq<Effect>) -> bool {
    let base = Place { problem: None, ..before };
    if index < before.user_remotes@.len() {
        &&& after == Place { user_remote: Some((index, None)), ..base }
        &&& effects.len() == 1
        &&& effects[0] matches Effect::CopyRemote { index: i, from, to } && i == index && from@
            == before.user_remotes@[index as int]@ && is_remote_name(to@)
    } else {
        after == base && nothing(effects)
    }
}

/// The user's remotes, listed or not: the one an import asked for is
/// picked, once.
pub open spec fn remotes_listed(
    before: Place,
    result: Result<Vec<String>, EngineError>,
    after: Place,
    effects: Seq<Effect>,
) -> bool {
    let listed = match result {
        Ok(remotes) => Place { user_remotes: remotes, preferred_remote: None, problem: None, ..before },
        Err(e) => Place { problem: Some(e.detail), preferred_remote: None, ..before },
    };
    let preferred = match before.preferred_remote {
        Some(name) => first_name(listed.user_remotes@, name@),
        None => None,
    };
    match preferred {
        Some(i) => picked_remote(listed, i as usize, after, effects),
        None => after == listed && nothing(effects),
    }
}

/// A copy of remote `index` was made: it counts only if that remote is
/// still the one chosen.
pub open spec fn remote_copied(
    before: Place,
    index: usize,
    result: Result<String, EngineError>,
    after: Place,
    effects: Seq<Effect>,
) -> bool {
    let base = Place { problem: None, ..before };
    &&& nothing(effects)
    &&& match result {
        Ok(copy) => match before.user_remote {
            Some((chosen, _)) => if chosen == index {
                after == Place { user_remote: Some((index, Some(copy))), ..base }
            } else {
                after == base
            },
            None => after == base,
        },
        Err(e) => after == Place { problem: Some(e.detail), ..base },
    }
}

/// A probe of `destination` finished: it ends the check of that
/// destination, and its result is kept only if the fields still describe
/// it.
pub open spec fn probed(
    before: Place,
    destination: Destination,
    result: Result<Probe, EngineError>,
    after: Place,
    effects: Seq<Effect>,
) -> bool {
    let base = Place { problem: None, ..before };
    let settled = match before.checking {
        Some((d, _)) => if same_destination(d@, destination@) {
            Place { checking: None, ..base }
        } else {
            base
        },
        None => base,
    };
    &&& nothing(effects)
    &&& if describes(settled.described(), destination@) {
        after == Place { probed: Some((destination, result)), ..settled }
    } else {
        after == settled
    }
}

/// `after` and `effects` are what `message` at `now` makes of `before`.
/// Every message first clears the problem shown.
#[verifier::opaque]
pub open spec fn stepped(before: Place, message: Message, after: Place, effects: Seq<Effect>, now: u64) -> bool {
    let base = Place { problem: None, ..before };
    match message {
        Message::Kind(kind) => after == Place { kind, ..base } && if kind == Kind::Remote
            && before.user_remotes@.len() == 0 {
            effects.len() == 1 && effects[0] is ListRemotes
        } else {
            nothing(effects)
        },
        Message::ChooseFolder => after == base && effects.len() == 1 && effects[0] is PickFolder,
        Message::FolderChosen(path) => checked(Place { folder: Some(path), ..base }, after, effects, now),
        Message::DrivesListed(drives) => drives_listed(before, drives, after, effects, now),
        Message::PickDrive(i) => checked(Place { drive: Some(i), ..base }, after, effects, now),
        Message::DriveFolder(folder) => after == Place { drive_folder: folder, ..base } && nothing(effects),
        Message::Host(host) => after == Place { host, ..base } && nothing(effects),
        Message::User(user) => after == Place { user, ..base } && nothing(effects),
        Message::Port(port) => after == Place { port, ..base } && nothing(effects),
        Message::ServerPath(path) => after == Place { server_path: path, ..base } && nothing(effects),
        Message::SignIn => signing_in(before, after, effects),
        Message::SignedIn(result) => signed_in(before, result, after, effects, now),
        Message::ToggleGoogleAdvanced => after == Place { google_advanced: !before.google_advanced, ..base }
            && nothing(effects),
        Message::GoogleClientId(id) => after == Place { google_client_id: id, ..base } && nothing(effects),
        Message::GoogleClientSecret(secret) => after == Place { google_client_secret: secret, ..base }
            && nothing(effects),
        Message::CloudPath(path) => after == Place { cloud_path: path, ..base } && nothing(effects),
        Message::RemotesListed(result) => remotes_listed(before, result, after, effects),
        Message::PickRemote(index) => picked_remote(before, index, after, effects),
        Message::RemoteCopied(index, result) => remote_copied(before, index, result, after, effects),
        Message::RemotePath(path) => after == Place { remote_path: path, ..base } && nothing(effects),
        Message::RcloneChecked(available) => after == Place { rclone_available: Some(available), ..base }
            && nothing(effects),
        Message::Check => checked(base, after, effects, now),
        Message::Probed(destination, result) => probed(before, destination, result, after, effects),
    }
}

impl Place {
    fn list_drives(&mut self, drives: Vec<Drive>, now: u64) -> (r: Vec<Effect>)
        ensures
            drives_listed(*old(self), drives, *final(self), r@, now),
    {
        self.problem = None;
        self.drives = drives;
        self.drive = None;
        let preferred = match &self.preferred_drive {
            Some(uuid) => find_drive(self.drives.as_slice(), uuid),
            None => None,
        };
        match preferred {
            Some(index) => {
                self.drive = Some(index);
                self.check(now)
            },
            None => Vec::new(),
        }
    }

    fn sign_in(&mut self) -> (r: Vec<Effect>)
        ensures
            signing_in(*old(self), *final(self), r@),
    {
        self.problem = None;
        if self.signing_in {
            return Vec::new();
        }
        self.signing_in = true;
        let id = trimmed(self.google_client_id.as_str());
        let secret = trimmed(self.google_client_secret.as_str());
        let credentials = if !id.as_str().is_empty() && !secret.as_str().is_empty() {
            Some((id, secret))
        } else {
            None
        };
        let mut effects: Vec<Effect> = Vec::new();
        effects.push(Effect::SignIn { name: new_remote_name(), credentials });
        effects
    }

    fn finish_sign_in(&mut self, result: Result<String, EngineError>, now: u64) -> (r: Vec<Effect>)
        ensures
            signed_in(*old(self), result, *final(self), r@, now),
    {
        self.problem = None;
        self.signing_in = false;
        match result {
            Ok(remote) => {
                self.google_remote = Some(remote);
                self.check(now)
            },
            Err(e) => {
                self.problem = Some(e.detail);
                Vec::new()
            },
        }
    }

    fn pick_remote(&mut self, index: usize) -> (r: Vec<Effect>)
        ensures
            picked_remote(*old(self), index, *final(self), r@),
    {
        self.problem = None;
        if index >= self.user_remotes.len() {
            return Vec::new();
        }
        let from = self.user_remotes[index].clone();
        self.user_remote = Some((index, None));
        let mut effects: Vec<Effect> = Vec::new();
        effects.push(Effect::CopyRemote { index, from, to: new_remote_name() });
        effects
    }

    fn list_remotes(&mut self, result: Result<Vec<String>, EngineError>) -> (r: Vec<Effect>)
        ensures
            remotes_listed(*old(self), result, *final(self), r@),
    {
        self.problem = None;
        match result {
            Ok(remotes) => self.user_remotes = remotes,
            Err(e) => self.problem = Some(e.detail),
        }
        let wanted = self.preferred_remote.take();
        let preferred = match &wanted {
            Some(name) => find_name(self.user_remotes.as_slice(), name),
            None => None,
        };
        match preferred {
            Some(index) => self.pick_remote(index),
            None => Vec::new(),
        }
    }

    fn copied_remote(&mut self, index: usize, result: Result<String, EngineError>) -> (r: Vec<Effect>)
        ensures
            remote_copied(*old(self), index, result, *final(self), r@),
    {
        self.problem = None;
        match result {
            Ok(copy) => {
                let chosen = match &self.user_remote {
                    Some((chosen, _)) => *chosen == index,
                    None => false,
                };
                if chosen {
                    self.user_remote = Some((index, Some(copy)));
                }
            },
            Err(e) => self.problem = Some(e.detail),
        }
        Vec::new()
    }

    fn finish_probe(&mut self, destination: Destination, result: Result<Probe, EngineError>) -> (r: Vec<
        Effect,
    >)
        ensures
            probed(*old(self), destination, result, *final(self), r@),
    {
        self.problem = None;
        let ended = match &self.checking {
            Some((checked, _)) => checked.same_as(&destination),
            None => false,
        };
        if ended {
            self.checking = None;
        }
        let current = match self.destination() {
            Some(current) => current.same_as(&destination),
            None => false,
        };
        if current {
            self.probed = Some((destination, result));
        }
        Vec::new()
    }

    /// The step's answer to `message`, at `now`.
    pub fn update(&mut self, message: Message, now: u64) -> (r: Vec<Effect>)
        ensures
            stepped(*old(self), message, *final(self), r@, now),
    {
        proof {
            reveal(stepped);
        }
        match message {
            Message::Kind(kind) => {
                self.problem = None;
                self.kind = kind;
                let mut effects: Vec<Effect> = Vec::new();
                if kind == Kind::Remote && self.user_remotes.len() == 0 {
                    effects.push(Effect::ListRemotes);
                }
                effects
            },
            Message::ChooseFolder => {
                self.problem = None;
                let mut effects: Vec<Effect> = Vec::new();
                effects.push(Effect::PickFolder);
                effects
            },
            Message::FolderChosen(path) => {
                self.problem = None;
                self.folder = Some(path);
                self.check(now)
            },
            Message::DrivesListed(drives) => self.list_drives(drives, now),
            Message::PickDrive(index) => {
                self.problem = None;
                self.drive = Some(index);
                self.check(now)
            },
            Message::DriveFolder(folder) => {
                self.problem = None;
                self.drive_folder = folder;
                Vec::new()
            },
            Message::Host(host) => {
                self.problem = None;
                self.host = host;
                Vec::new()
            },
            Message::User(user) => {
                self.problem = None;
                self.user = user;
                Vec::new()
            },
            Message::Port(port) => {
                self.problem = None;
                self.port = port;
                Vec::new()
            },
            Message::ServerPath(path) => {
                self.problem = None;
                self.server_path = path;
                Vec::new()
            },
            Message::SignIn => self.sign_in(),
            Message::SignedIn(result) => self.finish_sign_in(result, now),
            Message::ToggleGoogleAdvanced => {
                self.problem = None;
                self.google_advanced = !self.google_advanced;
                Vec::new()
            },
            Message::GoogleClientId(id) => {
                self.problem = None;
                self.google_client_id = id;
                Vec::new()
            },
            Message::GoogleClientSecret(secret) => {
                self.problem = None;
                self.google_client_secret = secret;
                Vec::new()
            },
            Message::CloudPath(path) => {
                self.problem = None;
                self.cloud_path = path;
                Vec::new()
            },
            Message::RemotesListed(result) => self.list_remotes(result),
            Message::PickRemote(index) => self.pick_remote(index),
            Message::RemoteCopied(index, result) => self.copied_remote(index, result),
            Message::RemotePath(path) => {
                self.problem = None;
                self.remote_path = path;
                Vec::new()
            },
            Message::RcloneChecked(available) => {
                self.problem = None;
                self.rclone_available = Some(available);
                Vec::new()
            },
            Message::Check => {
                self.problem = None;
                self.check(now)
            },
            Message::Probed(destination, result) => self.finish_probe(destination, result),
        }
    }
}

/// `message` edits a field of the form and nothing else.
pub open spec fn edits_a_field(message: Message) -> bool {
    ||| message is DriveFolder
    ||| message is Host
    ||| message is User
    ||| message is Port
    ||| message is ServerPath
    ||| message is GoogleClientId
    ||| message is GoogleClientSecret
    ||| message is CloudPath
    ||| message is RemotePath
}

/// A probe only counts for the destination it was run against: once an
/// edit changes the destination the fields describe, neither the last
/// probe's result nor a check under way counts for it.
pub proof fn lemma_an_edit_asks_for_a_new_check(
    before: Place,
    message: Message,
    after: Place,
    effects: Seq<Effect>,
    now: u64,
)
    requires
        stepped(before, message, after, effects, now),
        edits_a_field(message),
        !same_described(after.described(), before.described()),
    ensures
        before.current_probe() is Some ==> after.current_probe() is None,
        before.current_check() is Some ==> after.current_check() is None,
        nothing(effects),
{
    reveal(stepped);
}

/// A probe that finishes for a destination other than the one described
/// now changes no result that counts.
pub proof fn lemma_a_stale_probe_is_ignored(
    before: Place,
    destination: Destination,
    result: Result<Probe, EngineError>,
    after: Place,
    effects: Seq<Effect>,
    now: u64,
)
    requires
        stepped(before, Message::Probed(destination, result), after, effects, now),
        !describes(before.described(), destination@),
    ensures
        after.current_probe() == before.current_probe(),
        after.described() == before.described(),
{
    reveal(stepped);
}

/// A probe that finishes for the destination described now is what
/// [`Place::probe`] gives from then on, and that destination's check is
/// over.
pub proof fn lemma_a_current_probe_counts(
    before: Place,
    destination: Destination,
    result: Result<Probe, EngineError>,
    after: Place,
    effects: Seq<Effect>,
    now: u64,
)
    requires
        stepped(before, Message::Probed(destination, result), after, effects, now),
        describes(before.described(), destination@),
    ensures
        after.current_probe() == Some(result),
        after.current_check() is None,
{
    reveal(stepped);
}

/// One check at a time: asking to check while the destination described
/// now is being checked changes nothing.
pub proof fn lemma_one_check_at_a_time(before: Place, after: Place, effects: Seq<Effect>, now: u64)
    requires
        stepped(before, Message::Check, after, effects, now),
        before.current_check() is Some,
    ensures
        nothing(effects),
        after == (Place { problem: None, ..before }),
{
    reveal(stepped);
}

} // verus!
