//! What the application asks of the backup engine, and the sizes it
//! reports back, as plain values.

use vstd::prelude::*;
use crate::errors::{EngineError, ErrorKind};
use crate::text::{chars_of, extend, string_of, trim, trimmed};

verus! {

/// What a backup covers.
#[derive(Debug, Clone, PartialEq, Eq)]
pub struct BackupRequest {
    pub sources: Vec<String>,
    pub excludes: Vec<String>,
    pub exclude_patterns: Vec<String>,
    /// Leave out any folder containing a `CACHEDIR.TAG` file.
    pub exclude_caches: bool,
    /// Honour each project's own `.gitignore`.
    pub git_ignore: bool,
    pub one_file_system: bool,
    /// The Unix time to record for the snapshot; now when absent.
    pub time: Option<i64>,
}

/// How much a backup would hold.
#[derive(Debug, Clone, Default, PartialEq, Eq)]
pub struct SizeEstimate {
    pub files: u64,
    pub bytes: u64,
    /// The bytes under each source, in the order of the sources.
    pub per_source: Vec<u64>,
}

/// What the exclusions take out of an estimate.
#[derive(Debug, Clone, Default, PartialEq, Eq)]
pub struct ExclusionBreakdown {
    /// The bytes under the sources before anything is left out.
    pub included: u64,
    /// The bytes under each excluded folder that was sized, in order.
    pub per_folder: Vec<u64>,
}

/// A folder or file as a listing reports it, with its size on disk.
#[derive(Debug, Clone, PartialEq, Eq)]
pub struct DiskEntry {
    pub name: String,
    pub path: String,
    pub is_dir: bool,
    /// The bytes it takes, everything under it included.
    pub size: u64,
}

/// A snapshot, as listed.
#[derive(Debug, Clone, PartialEq, Eq)]
pub struct SnapshotSummary {
    pub id: String,
    /// When it was taken, as a Unix time.
    pub time: i64,
    pub paths: Vec<String>,
    pub hostname: String,
    pub files_new: u64,
    pub files_changed: u64,
    pub files_unmodified: u64,
    pub data_added: u64,
    pub total_bytes: u64,
    pub pinned: bool,
}

/// What a listed path is.
#[derive(Debug, Clone, Copy, PartialEq, Eq, Structural)]
pub enum EntryKind {
    File,
    Directory,
    Symlink,
    Other,
}

/// A path in a snapshot's tree.
#[derive(Debug, Clone, PartialEq, Eq)]
pub struct TreeEntry {
    pub name: String,
    pub path: String,
    pub kind: EntryKind,
    pub size: u64,
}

/// One version of a file, in the snapshot that holds it.
#[derive(Debug, Clone, PartialEq, Eq)]
pub struct FileVersion {
    pub snapshot: SnapshotSummary,
    pub size: u64,
    /// The same content as the next newer version.
    pub same_as_newer: bool,
}

/// A file that is gone now, and the newest snapshot that still has it.
#[derive(Debug, Clone, PartialEq, Eq)]
pub struct MissingEntry {
    pub path: String,
    pub size: u64,
    pub last_seen: SnapshotSummary,
}

/// How a path differs between two snapshots.
#[derive(Debug, Clone, Copy, PartialEq, Eq, Structural)]
pub enum Change {
    Added,
    Removed,
    Modified,
}

/// A path that differs between two snapshots.
#[derive(Debug, Clone, PartialEq, Eq)]
pub struct DiffEntry {
    pub path: String,
    pub change: Change,
    pub is_dir: bool,
    pub size: u64,
}

/// A path found by searching every snapshot, with the snapshots that hold it.
#[derive(Debug, Clone, PartialEq, Eq)]
pub struct GlobalMatch {
    pub path: String,
    pub kind: EntryKind,
    pub size: u64,
    pub snapshots: Vec<SnapshotSummary>,
}

/// What a restore would do, or did.
#[derive(Debug, Clone, Copy, Default, PartialEq, Eq, Structural)]
pub struct RestorePreview {
    pub files: u64,
    pub bytes: u64,
    /// Files already there that differ.
    pub conflicts: u64,
    /// Files already there as they are in the snapshot.
    pub unchanged: u64,
}

/// Where restored files go.
#[derive(Debug, Clone, PartialEq, Eq)]
pub enum Target {
    /// Back where they were.
    Original,
    /// Into this folder.
    Folder(String),
}

/// What to do about a file that is already there and differs.
#[derive(Debug, Clone, Copy, PartialEq, Eq, Structural)]
pub enum ConflictPolicy {
    KeepBoth,
    Overwrite,
    Skip,
}

/// Whose restored files are.
#[derive(Debug, Clone, Copy, PartialEq, Eq, Structural)]
pub enum Ownership {
    /// The owners recorded, by name.
    Preserve,
    /// The owners recorded, by number.
    Numeric,
    /// Whoever restores them.
    Restorer,
}

/// A restore of `paths` from `snapshot`.
#[derive(Debug, Clone, PartialEq, Eq)]
pub struct RestoreRequest {
    pub snapshot: String,
    pub paths: Vec<String>,
    pub target: Target,
    pub policy: ConflictPolicy,
    /// Read and verify a file that already looks unchanged, rather than
    /// trusting its size and modification time.
    pub verify_existing: bool,
    pub ownership: Ownership,
}

/// The part of a run under way.
#[derive(Debug, Clone, Copy, PartialEq, Eq, Structural)]
pub enum Phase {
    Preparing,
    BackingUp,
    Restoring,
    Checking,
}

/// How far a run has come.
#[derive(Debug, Clone, Copy, PartialEq, Eq, Structural)]
pub struct ProgressEvent {
    pub phase: Phase,
    /// What is done so far: bytes where `bytes` says so, else files.
    pub done: u64,
    /// What there is in all, once known.
    pub total: Option<u64>,
    /// `done` and `total` count bytes rather than files.
    pub bytes: bool,
    /// Bytes sent to the repository, where the phase sends any.
    pub uploaded: Option<u64>,
}

/// What a backup made.
#[derive(Debug, Clone, PartialEq, Eq)]
pub struct BackupReport {
    pub snapshot: SnapshotSummary,
}

/// What forgetting by the retention policy removed.
#[derive(Debug, Clone, Copy, PartialEq, Eq, Structural)]
pub struct ForgetReport {
    pub removed: u64,
}

/// What pruning freed.
#[derive(Debug, Clone, Copy, PartialEq, Eq, Structural)]
pub struct PruneReport {
    pub bytes: u64,
}

/// What a run in a child process reports when it is done.
#[derive(Debug, Clone, PartialEq, Eq)]
pub struct Done {
    pub report: Option<BackupReport>,
    pub restored: Option<RestorePreview>,
    pub forgotten: Option<ForgetReport>,
    pub pruned: Option<PruneReport>,
}

/// What reaches a page of a run in a child process.
#[derive(Debug, Clone)]
pub enum ChildEvent {
    /// The child started; the application holds its handle.
    Started,
    Progress(ProgressEvent),
    Done(Done),
    /// The child reported an error, or ended without a word.
    Failed(EngineError),
}

/// How a child process that has ended is reported, when it reported no
/// outcome of its own: a child stopped by a signal was cancelled; one that
/// exited was an internal failure, with its exit status and what it wrote
/// to its error output.
pub open spec fn end_of(reported: bool, by_signal: bool, status: Seq<char>, diagnostics: Seq<char>) -> Option<(ErrorKind, Seq<char>)> {
    if reported {
        None
    } else if by_signal {
        Some((ErrorKind::Cancelled, Seq::empty()))
    } else {
        Some((ErrorKind::Internal, status + ": "@ + trim(diagnostics)))
    }
}

/// The error a child process ended with, if it reported no outcome of its
/// own (`reported` is false): `by_signal` when it was killed, else its exit
/// `status` and `diagnostics`.
pub fn child_ended(reported: bool, by_signal: bool, status: &str, diagnostics: &str) -> (r: Option<EngineError>)
    ensures
        match end_of(reported, by_signal, status@, diagnostics@) {
            None => r is None,
            Some((kind, detail)) => r matches Some(e) && e.kind == kind && e.detail@ == detail && e.path is None,
        },
{
    if reported {
        return None;
    }
    if by_signal {
        return Some(EngineError::new(ErrorKind::Cancelled, String::new()));
    }
    let mut text = chars_of(status);
    extend(&mut text, &chars_of(": "));
    extend(&mut text, &chars_of(trimmed(diagnostics).as_str()));
    proof {
        reveal_strlit(": ");
    }
    Some(EngineError::new(ErrorKind::Internal, string_of(&text)))
}

/// Whether an event a child reported is its outcome rather than progress.
pub fn is_outcome(event: &ChildEvent) -> (r: bool)
    ensures
        r == (event is Done || event is Failed),
{
    match event {
        ChildEvent::Done(_) | ChildEvent::Failed(_) => true,
        _ => false,
    }
}

/// What a folder chosen for a new repository holds.
#[derive(Debug, Clone, Copy, PartialEq, Eq, Structural)]
pub enum InitCheck {
    /// Nothing, or it does not exist yet.
    Empty,
    /// Files that are not a repository.
    NotEmpty,
    /// A repository already.
    ExistingRepository,
}

/// What setting up a repository in a folder does.
#[derive(Debug, Clone, Copy, PartialEq, Eq, Structural)]
pub enum InitStep {
    /// Refuse: a repository is never written into the middle of someone's
    /// files.
    Refuse,
    /// Open the repository there: opening proves the password right, and a
    /// wrong one is an error, never a reason to create one over it.
    Open,
    /// Create a repository there.
    Create,
}

/// What setting up a repository in a folder that holds `check` does.
pub fn init_step(check: InitCheck) -> (r: InitStep)
    ensures
        r == match check {
            InitCheck::Empty => InitStep::Create,
            InitCheck::NotEmpty => InitStep::Refuse,
            InitCheck::ExistingRepository => InitStep::Open,
        },
{
    match check {
        InitCheck::Empty => InitStep::Create,
        InitCheck::NotEmpty => InitStep::Refuse,
        InitCheck::ExistingRepository => InitStep::Open,
    }
}

/// A repository is only ever created where there was nothing: never over
/// an existing one (whatever password was given), never among other files.
pub proof fn lemma_a_repository_is_created_only_in_an_empty_folder(check: InitCheck)
    ensures
        (match check {
            InitCheck::Empty => InitStep::Create,
            InitCheck::NotEmpty => InitStep::Refuse,
            InitCheck::ExistingRepository => InitStep::Open,
        }) == InitStep::Create <==> check == InitCheck::Empty,
{
}

} // verus!
