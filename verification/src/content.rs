//! The selected repository: its snapshots, and any backup in progress.
//!
//! Work the view needs done is returned as a [`Task`] for the application
//! to run; a backup runs in a child process and reports back as a
//! [`ChildEvent`].

use vstd::prelude::*;
use crate::engine::{ChildEvent, ProgressEvent, SnapshotSummary};
use crate::errors::EngineError;
use crate::i18n::Phrase;

verus! {

/// A repository the user picked: what it is called and where it lies.
#[derive(Debug, Clone, PartialEq, Eq)]
pub struct Repository {
    pub name: String,
    pub path: String,
}

/// A backup running in a child process.
#[derive(Debug)]
pub struct Running {
    /// The child has started: it can be stopped.
    pub started: bool,
    pub progress: Option<ProgressEvent>,
}

/// The selected repository, the password it was unlocked with, its
/// snapshots once listed, and the backup under way.
#[derive(Debug)]
pub struct Content {
    pub repository: Option<Repository>,
    pub secret: Option<String>,
    pub snapshots: Option<Vec<SnapshotSummary>>,
    pub backup: Option<Running>,
}

/// What reaches the view.
#[derive(Debug)]
pub enum Message {
    /// Select this repository, unlocked with this password.
    SetRepository(Repository, String),
    SetSnapshots(Result<Vec<SnapshotSummary>, EngineError>),
    ReloadSnapshots,
    Delete(String),
    Select(String),
    BackupStarted,
    Backup(ChildEvent),
    CancelBackup,
    SnapshotsDeleted(ChildEvent),
}

/// Work the application runs on the view's behalf.
#[derive(Debug)]
pub enum Task {
    /// List the snapshots of the repository at this path, with this password.
    FetchSnapshots(String, String),
    /// Delete these snapshots of the repository at this path.
    DeleteSnapshots(String, String, Vec<String>),
    /// Something failed; the message names what was being attempted.
    ShowError(Phrase, EngineError),
    /// Stop the running backup's child process.
    CancelBackup,
}

/// The repository's path and password, when one is selected and unlocked.
pub open spec fn unlocked_of(c: Content) -> Option<(String, String)> {
    match c.repository {
        Some(repository) => match c.secret {
            Some(secret) => Some((repository.path, secret)),
            None => None,
        },
        None => None,
    }
}

/// Listing the snapshots again, when the repository is unlocked; else
/// nothing.
pub open spec fn fetched(c: Content) -> Seq<Task> {
    match unlocked_of(c) {
        Some((path, secret)) => seq![Task::FetchSnapshots(path, secret)],
        None => seq![],
    }
}

/// `tasks` is the one error `id`, about `error`, followed by `then`.
pub open spec fn shows_error(tasks: Seq<Task>, id: Seq<char>, error: EngineError, then: Seq<Task>) -> bool {
    &&& tasks.len() == then.len() + 1
    &&& tasks[0] matches Task::ShowError(phrase, e) && phrase.is(id) && e == error
    &&& tasks.drop_first() == then
}

/// `c` with no repository selected: no repository, password or snapshots.
pub open spec fn cleared(c: Content) -> Content {
    Content { repository: None, secret: None, snapshots: None, ..c }
}

/// What an event of the running backup makes of `before`.
pub open spec fn backup_followed(before: Content, event: ChildEvent, after: Content, tasks: Seq<Task>) -> bool {
    match event {
        ChildEvent::Started => tasks.len() == 0 && after == Content {
            backup: match before.backup {
                Some(running) => Some(Running { started: true, ..running }),
                None => None,
            },
            ..before
        },
        ChildEvent::Progress(progress) => tasks.len() == 0 && after == Content {
            backup: match before.backup {
                Some(running) => Some(Running { progress: Some(progress), ..running }),
                None => None,
            },
            ..before
        },
        ChildEvent::Done(_) => after == Content { backup: None, ..before } && tasks == fetched(before),
        ChildEvent::Failed(error) => after == Content { backup: None, ..before } && shows_error(
            tasks,
            "snapshot-failed"@,
            error,
            seq![],
        ),
    }
}

/// What an event of the deletion makes of `before`: it stays as it was.
pub open spec fn deletion_followed(before: Content, event: ChildEvent, tasks: Seq<Task>) -> bool {
    match event {
        ChildEvent::Done(_) => tasks == fetched(before),
        ChildEvent::Failed(error) => shows_error(tasks, "delete-snapshot-failed"@, error, fetched(before)),
        _ => tasks.len() == 0,
    }
}

/// `after` and `tasks` are what `message` makes of `before`.
pub open spec fn stepped(before: Content, message: Message, after: Content, tasks: Seq<Task>) -> bool {
    match message {
        Message::SetRepository(repository, secret) => {
            &&& after == Content { repository: Some(repository), secret: Some(secret), snapshots: None, ..before }
            &&& tasks == fetched(after)
        },
        Message::SetSnapshots(Ok(snapshots)) => after == Content { snapshots: Some(snapshots), ..before }
            && tasks.len() == 0,
        Message::SetSnapshots(Err(error)) => after == cleared(before) && shows_error(
            tasks,
            "open-repo-failed"@,
            error,
            seq![],
        ),
        Message::ReloadSnapshots => after == before && tasks == fetched(before),
        Message::Delete(id) => after == before && match unlocked_of(before) {
            Some((path, secret)) => tasks.len() == 1 && (tasks[0] matches Task::DeleteSnapshots(p, s, ids)
                && p == path && s == secret && ids@ == seq![id]),
            None => tasks.len() == 0,
        },
        Message::Select(_) => after == before && tasks.len() == 0,
        Message::BackupStarted => after == Content {
            backup: Some(Running { started: false, progress: None }),
            ..before
        } && tasks.len() == 0,
        Message::Backup(event) => backup_followed(before, event, after, tasks),
        Message::CancelBackup => after == before && tasks == match before.backup {
            Some(running) => if running.started {
                seq![Task::CancelBackup]
            } else {
                seq![]
            },
            None => seq![],
        },
        Message::SnapshotsDeleted(event) => after == before && deletion_followed(before, event, tasks),
    }
}

/// Just `task`.
fn only(task: Task) -> (r: Vec<Task>)
    ensures
        r@ == seq![task],
{
    let mut tasks: Vec<Task> = Vec::new();
    tasks.push(task);
    tasks
}

impl Content {
    /// Nothing selected, no backup running.
    pub fn new() -> (r: Content)
        ensures
            r.repository is None,
            r.secret is None,
            r.snapshots is None,
            r.backup is None,
    {
        Content { repository: None, secret: None, snapshots: None, backup: None }
    }

    /// The path and password of the unlocked repository, if any.
    pub fn unlocked(&self) -> (r: Option<(String, String)>)
        ensures
            r == unlocked_of(*self),
    {
        match &self.repository {
            Some(repository) => match &self.secret {
                Some(secret) => Some((repository.path.clone(), secret.clone())),
                None => None,
            },
            None => None,
        }
    }

    /// A backup is under way.
    pub fn is_backing_up(&self) -> (r: bool)
        ensures
            r == self.backup is Some,
    {
        self.backup.is_some()
    }

    /// Forgets the selected repository, its password and its snapshots,
    /// after it was deleted for instance.
    pub fn clear(&mut self)
        ensures
            *final(self) == cleared(*old(self)),
    {
        self.repository = None;
        self.secret = None;
        self.snapshots = None;
    }

    /// Listing the snapshots again, when the repository is unlocked.
    fn fetch(&self) -> (r: Vec<Task>)
        ensures
            r@ == fetched(*self),
    {
        match self.unlocked() {
            Some((path, secret)) => only(Task::FetchSnapshots(path, secret)),
            None => Vec::new(),
        }
    }

    /// The error `id` about `error`, then `then`.
    fn error_then(id: &str, error: EngineError, then: Vec<Task>) -> (r: Vec<Task>)
        ensures
            shows_error(r@, id@, error, then@),
    {
        let mut tasks = only(Task::ShowError(Phrase::plain(id), error));
        let mut rest = then;
        tasks.append(&mut rest);
        assert(tasks@.drop_first() =~= then@);
        tasks
    }

    /// Follows an event of the running backup.
    fn follow_backup(&mut self, event: ChildEvent) -> (r: Vec<Task>)
        ensures
            backup_followed(*old(self), event, *final(self), r@),
    {
        match event {
            ChildEvent::Started => {
                if let Some(running) = self.backup.as_mut() {
                    running.started = true;
                }
                Vec::new()
            },
            ChildEvent::Progress(progress) => {
                if let Some(running) = self.backup.as_mut() {
                    running.progress = Some(progress);
                }
                Vec::new()
            },
            ChildEvent::Done(_) => {
                self.backup = None;
                self.fetch()
            },
            ChildEvent::Failed(error) => {
                self.backup = None;
                Self::error_then("snapshot-failed", error, Vec::new())
            },
        }
    }

    /// What `message` changes, and the work it asks for.
    pub fn update(&mut self, message: Message) -> (r: Vec<Task>)
        ensures
            stepped(*old(self), message, *final(self), r@),
    {
        match message {
            Message::SetRepository(repository, secret) => {
                self.snapshots = None;
                self.repository = Some(repository);
                self.secret = Some(secret);
                self.fetch()
            },
            Message::SetSnapshots(Ok(snapshots)) => {
                self.snapshots = Some(snapshots);
                Vec::new()
            },
            Message::SetSnapshots(Err(error)) => {
                // A wrong password or a vanished drive: show why, and go back
                // to nothing selected rather than an endless spinner.
                self.clear();
                Self::error_then("open-repo-failed", error, Vec::new())
            },
            Message::ReloadSnapshots => self.fetch(),
            Message::Delete(id) => match self.unlocked() {
                Some((path, secret)) => {
                    let mut ids: Vec<String> = Vec::new();
                    ids.push(id);
                    assert(ids@ =~= seq![id]);
                    only(Task::DeleteSnapshots(path, secret, ids))
                },
                None => Vec::new(),
            },
            Message::Select(_) => Vec::new(),
            Message::BackupStarted => {
                self.backup = Some(Running { started: false, progress: None });
                Vec::new()
            },
            Message::Backup(event) => self.follow_backup(event),
            Message::CancelBackup => match &self.backup {
                Some(running) => if running.started {
                    only(Task::CancelBackup)
                } else {
                    Vec::new()
                },
                None => Vec::new(),
            },
            Message::SnapshotsDeleted(event) => match event {
                ChildEvent::Done(_) => self.fetch(),
                ChildEvent::Failed(error) => {
                    let then = self.fetch();
                    Self::error_then("delete-snapshot-failed", error, then)
                },
                _ => Vec::new(),
            },
        }
    }
}

} // verus!
