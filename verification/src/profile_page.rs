//! One backup profile's page: is it safe, back it up now, its snapshots,
//! and keeping it healthy.
//!
//! Every side effect is returned as an [`Effect`] for the application to
//! run; a write runs in a child process, one at a time, and reports back
//! as a [`ChildEvent`]. Times are Unix seconds handed in by the caller.

use vstd::prelude::*;
use vstd::seq_lib::lemma_seq_contains_after_push;
use crate::engine::{ChildEvent, Done, Phase, ProgressEvent, SnapshotSummary};
use crate::errors::{EngineError, ErrorKind};
use crate::i18n::{Arg, Phrase};
use crate::pages::{EventKind, Stage, Work};
use crate::profile::{Profile, Schedule};

verus! {

/// How many snapshots the page shows before "Show all".
pub const RECENT: usize = 5;

/// What the repository holds, once calculated.
#[derive(Debug, Clone, PartialEq, Eq)]
pub struct Statistics {
    /// The bytes the repository stores.
    pub stored_bytes: u64,
    /// The bytes the snapshots hold, before deduplication and compression.
    pub original_bytes: u64,
    /// The bytes its pack files take.
    pub packed_bytes: u64,
    /// The bytes a prune would free.
    pub reclaimable_bytes: u64,
}

/// An entry of a backup's history: what happened, and when.
#[derive(Debug, Clone, PartialEq, Eq)]
pub struct Event {
    pub time: i64,
    pub kind: EventKind,
}

/// A write running in a child process. Only one runs at a time.
#[derive(Debug)]
pub struct Running {
    pub work: Work,
    /// The child has started: it can be stopped.
    pub started: bool,
    pub progress: Option<ProgressEvent>,
    /// When the work began.
    pub since: i64,
    /// When the progress last moved: files done, or bytes uploaded.
    pub moved: i64,
}

/// Everything the page knows beyond the profile's saved settings.
#[derive(Debug)]
pub struct ProfileState {
    /// The password this backup is unlocked with right now.
    pub secret: Option<String>,
    pub keyring_checked: bool,
    pub unlock_password: String,
    pub unlock_remember: bool,
    pub unlocking: bool,
    pub snapshots: Option<Vec<SnapshotSummary>>,
    pub work: Option<Running>,
    pub show_all: bool,
    /// When this backup's timer will next run; `None` until asked, or if
    /// the backup is not scheduled.
    pub next_run: Option<i64>,
    /// The repository's statistics, once calculated: reading them reads
    /// every index file, so it waits for the user to ask.
    pub statistics: Option<Result<Statistics, EngineError>>,
    pub calculating_statistics: bool,
    /// What has happened to this backup, oldest first.
    pub history: Vec<Event>,
    pub history_loaded: bool,
    /// Open the restore page as soon as the backup is unlocked.
    pub restore_when_unlocked: bool,
}

/// What reaches the page.
#[derive(Debug)]
pub enum Message {
    KeyringLoaded(Result<Option<String>, EngineError>),
    UnlockPassword(String),
    UnlockRemember(bool),
    Unlock,
    /// Opening with this password produced this snapshot list, or failed.
    Opened(String, Result<Vec<SnapshotSummary>, EngineError>),
    SnapshotsLoaded(Result<Vec<SnapshotSummary>, EngineError>),
    BackUpNow,
    Backup(ChildEvent),
    CancelBackup,
    CheckNow,
    Checked(ChildEvent),
    CleanUpNow,
    CleanedUp(ChildEvent),
    EditSchedule,
    EditHooks,
    EditPasswordCommand,
    ChangePassword,
    DeleteSnapshot(String),
    SnapshotsDeleted(ChildEvent),
    TogglePinned(String, bool),
    Pinned(ChildEvent),
    ShowAll,
    Restore,
    Edit,
    Remove,
    DeleteAll,
    /// The system answered when this backup's timer will next run.
    NextRunLoaded(Option<i64>),
    CalculateStatistics,
    StatisticsLoaded(Result<Statistics, EngineError>),
    HistoryLoaded(Vec<Event>),
}

/// What the page needs the application to do.
#[derive(Debug)]
pub enum Effect {
    LoadKeyring,
    /// Open the repository with this password; remember it if asked.
    Open { secret: String, remember: bool },
    Fetch(String),
    BackUp(String),
    DeleteSnapshots(String, Vec<String>),
    SetPinned(String, String, bool),
    /// Tell the user what failed: the message names what was attempted.
    ShowError(Phrase, EngineError),
    /// A backup finished at this Unix time.
    RecordSuccess(i64),
    /// Check the repository for damage.
    Check(String),
    /// A check finished: `Ok` if sound, the error if it found damage or
    /// could not run.
    RecordCheck(Result<(), EngineError>),
    /// Forget by the retention policy and prune.
    CleanUp(String),
    /// A clean-up finished: snapshots forgotten and space freed.
    CleanedUp { forgotten: u64, freed: u64 },
    OpenRestore(String),
    Edit,
    EditSchedule,
    EditHooks,
    EditPasswordCommand,
    ChangePassword,
    Remove,
    DeleteAll,
    /// Ask when this backup's timer will next run.
    FetchNextRun,
    /// Read the repository's statistics: it needs the password.
    FetchStatistics(String),
    /// Add an entry to this backup's history.
    LogEvent(EventKind),
    /// Read this backup's history from disk: once, when the page opens.
    FetchHistory,
    /// Stop the write running in its child process.
    CancelWork,
}

/// No effect.
pub open spec fn nothing(effects: Seq<Effect>) -> bool {
    effects.len() == 0
}

/// `e` shows `error`, after the message `id`.
pub open spec fn shows(e: Effect, id: Seq<char>, error: EngineError) -> bool {
    e matches Effect::ShowError(p, x) && p.is(id) && x == error
}

/// One effect.
fn only(effect: Effect) -> (r: Vec<Effect>)
    ensures
        r@ == seq![effect],
{
    let mut effects: Vec<Effect> = Vec::new();
    effects.push(effect);
    assert(effects@ =~= seq![effect]);
    effects
}

/// The history entries `effects` log, in order, at `now`.
pub open spec fn logged(effects: Seq<Effect>, now: i64) -> Seq<Event>
    decreases effects.len(),
{
    if effects.len() == 0 {
        Seq::empty()
    } else {
        let rest = logged(effects.drop_last(), now);
        match effects.last() {
            Effect::LogEvent(kind) => rest.push(Event { time: now, kind }),
            _ => rest,
        }
    }
}

impl EventKind {
    /// A copy of this entry.
    pub fn duplicate(&self) -> (r: EventKind)
        ensures
            r == *self,
    {
        match self {
            EventKind::BackedUp => EventKind::BackedUp,
            EventKind::Failed { stage, kind, detail } => EventKind::Failed {
                stage: *stage,
                kind: *kind,
                detail: detail.clone(),
            },
            EventKind::Skipped { kind } => EventKind::Skipped { kind: *kind },
            EventKind::Checked { damaged } => EventKind::Checked { damaged: *damaged },
            EventKind::CleanedUp { forgotten, freed } => EventKind::CleanedUp {
                forgotten: *forgotten,
                freed: *freed,
            },
        }
    }
}

/// Whether two progress reports show the same figures: the phase, what is
/// done and what was sent.
fn same_progress(a: &ProgressEvent, b: &ProgressEvent) -> (r: bool)
    ensures
        r == (a.phase == b.phase && a.done == b.done && a.uploaded == b.uploaded),
{
    let sent = match (a.uploaded, b.uploaded) {
        (Some(x), Some(y)) => x == y,
        (None, None) => true,
        _ => false,
    };
    a.phase == b.phase && a.done == b.done && sent
}

/// Whether `message` is about unlocking.
fn is_unlock(message: &Message) -> (r: bool)
    ensures
        r == is_unlock_message(*message),
{
    match message {
        Message::KeyringLoaded(_) | Message::UnlockPassword(_) | Message::UnlockRemember(_) | Message::Unlock
        | Message::Opened(..) | Message::SnapshotsLoaded(_) => true,
        _ => false,
    }
}

/// Whether `message` starts or follows a write.
fn is_work(message: &Message) -> (r: bool)
    ensures
        r == is_work_message(*message),
{
    match message {
        Message::BackUpNow | Message::Backup(_) | Message::CancelBackup | Message::CheckNow | Message::Checked(_)
        | Message::CleanUpNow | Message::CleanedUp(_) | Message::DeleteSnapshot(_) | Message::SnapshotsDeleted(_)
        | Message::TogglePinned(..) | Message::Pinned(_) => true,
        _ => false,
    }
}

/// The history entry of a failed `stage`.
fn failure_of(stage: Stage, error: &EngineError) -> (r: EventKind)
    ensures
        r == failure(stage, *error),
{
    EventKind::Failed { stage, kind: error.kind, detail: error.detail.clone() }
}

/// The page as it starts: locked, with remembering the password checked,
/// as scheduled backups cannot run without a remembered password.
pub open spec fn is_fresh(s: ProfileState) -> bool {
    &&& s.secret is None
    &&& !s.keyring_checked
    &&& s.unlock_password@.len() == 0
    &&& s.unlock_remember
    &&& !s.unlocking
    &&& s.snapshots is None
    &&& s.work is None
    &&& !s.show_all
    &&& s.next_run is None
    &&& s.statistics is None
    &&& !s.calculating_statistics
    &&& s.history@.len() == 0
    &&& !s.history_loaded
    &&& !s.restore_when_unlocked
}

/// The backup is unlocked and holds at least one snapshot.
pub open spec fn has_snapshots(s: ProfileState) -> bool {
    s.snapshots matches Some(v) && v@.len() > 0
}

/// `after` is `before` with `work` started at `now` and `secret` what it
/// runs with, when the backup is unlocked and nothing else runs; otherwise
/// nothing changes and `secret` is `None`.
pub open spec fn started(before: ProfileState, work: Work, now: i64, after: ProfileState, secret: Option<String>) -> bool {
    if before.secret is Some && before.work is None {
        &&& secret == before.secret
        &&& after == ProfileState {
            work: Some(Running { work, started: false, progress: None, since: now, moved: now }),
            ..before
        }
    } else {
        secret is None && after == before
    }
}

/// How a run in a child process ended, once it has: `Ok` with what it
/// reported when done, the error otherwise.
pub open spec fn ended(event: ChildEvent) -> Option<Result<Done, EngineError>> {
    match event {
        ChildEvent::Done(done) => Some(Ok(done)),
        ChildEvent::Failed(error) => Some(Err(error)),
        _ => None,
    }
}

/// The page after following a child's `event` at `now`: its start and
/// progress are noted on the work; its end clears the work.
pub open spec fn followed_work(before: ProfileState, event: ChildEvent, now: i64) -> ProfileState {
    match event {
        ChildEvent::Started => ProfileState {
            work: match before.work {
                Some(run) => Some(Running { started: true, ..run }),
                None => None,
            },
            ..before
        },
        ChildEvent::Progress(progress) => ProfileState {
            work: match before.work {
                Some(run) => Some(
                    Running {
                        progress: Some(progress),
                        moved: match run.progress {
                            Some(p) => if p.phase == progress.phase && p.done == progress.done && p.uploaded
                                == progress.uploaded {
                                run.moved
                            } else {
                                now
                            },
                            None => now,
                        },
                        ..run
                    },
                ),
                None => None,
            },
            ..before
        },
        _ => ProfileState { work: None, ..before },
    }
}

/// What showing the page does: it looks for a remembered password once,
/// asks when a scheduled backup runs next, and reads the history once.
pub open spec fn activated(before: ProfileState, profile: Profile, after: ProfileState, effects: Seq<Effect>) -> bool {
    let ask_keyring = !before.keyring_checked && before.secret is None;
    let ask_history = !before.history_loaded;
    let ask_next_run = profile.schedule != Schedule::Manual;
    &&& after == (ProfileState {
        keyring_checked: before.keyring_checked || ask_keyring,
        history_loaded: true,
        ..before
    })
    &&& effects == (if ask_keyring {
        seq![Effect::LoadKeyring]
    } else {
        Seq::empty()
    }) + (if ask_next_run {
        seq![Effect::FetchNextRun]
    } else {
        Seq::empty()
    }) + (if ask_history {
        seq![Effect::FetchHistory]
    } else {
        Seq::empty()
    })
}

/// Reloading the snapshot list, which needs the password.
pub open spec fn fetches(secret: Option<String>) -> Seq<Effect> {
    match secret {
        Some(s) => seq![Effect::Fetch(s)],
        None => Seq::empty(),
    }
}

/// The history entry of a failed `stage`.
pub open spec fn failure(stage: Stage, error: EngineError) -> EventKind {
    EventKind::Failed { stage, kind: error.kind, detail: error.detail }
}

/// Whether `work` starts at `now`: only when the backup is unlocked and
/// nothing else runs, and then `effects` is the one effect `asks` names for
/// the password; otherwise nothing happens.
pub open spec fn starts(
    before: ProfileState,
    work: Work,
    now: i64,
    after: ProfileState,
    effects: Seq<Effect>,
    asks: spec_fn(Effect, String) -> bool,
) -> bool {
    if before.secret is Some && before.work is None {
        &&& after == ProfileState {
            work: Some(Running { work, started: false, progress: None, since: now, moved: now }),
            ..before
        }
        &&& effects.len() == 1
        &&& asks(effects[0], before.secret->0)
    } else {
        after == before && nothing(effects)
    }
}

/// The page after a run ended: the work is cleared and the history gains
/// what `logging` logs at `now`.
pub open spec fn finished(before: ProfileState, now: i64, after: ProfileState, logging: Seq<Effect>) -> bool {
    &&& after.history@ == before.history@ + logged(logging, now)
    &&& after == ProfileState { work: None, history: after.history, ..before }
}

/// What a backup that ended with `outcome` asks for, `fetch` reloading the
/// snapshot list: a new snapshot is recorded and logged; a cancelled one is
/// only reported; a failure is logged and reported.
pub open spec fn backup_ended(outcome: Result<Done, EngineError>, fetch: Seq<Effect>, effects: Seq<Effect>) -> bool {
    match outcome {
        Ok(done) => effects == fetch + match done.report {
            Some(report) => seq![
                Effect::RecordSuccess(report.snapshot.time),
                Effect::LogEvent(EventKind::BackedUp),
            ],
            None => Seq::empty(),
        },
        Err(error) => if error.kind == ErrorKind::Cancelled {
            effects.len() == 1 && shows(effects[0], "snapshot-failed"@, error)
        } else {
            &&& effects.len() == 2
            &&& effects[0] == Effect::LogEvent(failure(Stage::Backup, error))
            &&& shows(effects[1], "snapshot-failed"@, error)
        },
    }
}

/// What a check that ended with `outcome` asks for: its result is recorded
/// and logged, damage as damage and anything else as a failed check.
pub open spec fn check_ended(outcome: Result<Done, EngineError>) -> Seq<Effect> {
    match outcome {
        Ok(_) => seq![Effect::RecordCheck(Ok(())), Effect::LogEvent(EventKind::Checked { damaged: false })],
        Err(error) => seq![
            Effect::LogEvent(
                if error.kind == ErrorKind::RepositoryDamaged {
                    EventKind::Checked { damaged: true }
                } else {
                    failure(Stage::Check, error)
                },
            ),
            Effect::RecordCheck(Err(error)),
        ],
    }
}

/// What a clean-up that ended with `outcome` asks for: what it forgot and
/// freed (nothing, where it did not say) is recorded and logged; a failure
/// is logged and reported.
pub open spec fn cleanup_ended(outcome: Result<Done, EngineError>, effects: Seq<Effect>) -> bool {
    match outcome {
        Ok(done) => {
            let forgotten: u64 = match done.forgotten {
                Some(report) => report.removed,
                None => 0,
            };
            let freed: u64 = match done.pruned {
                Some(report) => report.bytes,
                None => 0,
            };
            effects == seq![
                Effect::CleanedUp { forgotten, freed },
                Effect::LogEvent(EventKind::CleanedUp { forgotten, freed }),
            ]
        },
        Err(error) => {
            &&& effects.len() == 2
            &&& effects[0] == Effect::LogEvent(failure(Stage::Cleanup, error))
            &&& shows(effects[1], "clean-up-failed"@, error)
        },
    }
}

/// Starting a backup of `profile` at `now`: only with something to back up.
pub open spec fn backed_up(before: ProfileState, profile: Profile, now: i64, after: ProfileState, effects: Seq<Effect>) -> bool {
    if profile.sources@.len() == 0 {
        after == before && nothing(effects)
    } else {
        starts(before, Work::Backup, now, after, effects, |e: Effect, s: String| e == Effect::BackUp(s))
    }
}

/// Following the backup's child process.
pub open spec fn backup_followed(before: ProfileState, event: ChildEvent, now: i64, after: ProfileState, effects: Seq<Effect>) -> bool {
    match ended(event) {
        None => after == followed_work(before, event, now) && nothing(effects),
        Some(outcome) => backup_ended(outcome, fetches(before.secret), effects) && finished(before, now, after, effects),
    }
}

/// Following the check's child process.
pub open spec fn check_followed(before: ProfileState, event: ChildEvent, now: i64, after: ProfileState, effects: Seq<Effect>) -> bool {
    match ended(event) {
        None => after == followed_work(before, event, now) && nothing(effects),
        Some(outcome) => effects == check_ended(outcome) && finished(before, now, after, effects),
    }
}

/// Following the clean-up's child process: every event of it reloads the
/// snapshot list.
pub open spec fn cleanup_followed(before: ProfileState, event: ChildEvent, now: i64, after: ProfileState, effects: Seq<Effect>) -> bool {
    match ended(event) {
        None => after == followed_work(before, event, now) && effects == fetches(before.secret),
        Some(outcome) => {
            &&& effects.len() >= 2
            &&& cleanup_ended(outcome, effects.take(2))
            &&& effects.skip(2) == fetches(before.secret)
            &&& finished(before, now, after, effects.take(2))
        },
    }
}

/// Following a run that deletes or pins a snapshot: when it ends, a failure
/// is reported with the message `id`, and the snapshot list is reloaded.
pub open spec fn modify_followed(
    before: ProfileState,
    event: ChildEvent,
    now: i64,
    id: Seq<char>,
    after: ProfileState,
    effects: Seq<Effect>,
) -> bool {
    let fetch = fetches(before.secret);
    match ended(event) {
        None => after == followed_work(before, event, now) && nothing(effects),
        Some(Ok(_)) => after == ProfileState { work: None, ..before } && effects == fetch,
        Some(Err(error)) => {
            &&& after == ProfileState { work: None, ..before }
            &&& effects.len() == fetch.len() + 1
            &&& shows(effects[0], id, error)
            &&& effects.drop_first() == fetch
        },
    }
}

/// Opening the restore page: only when unlocked, with a snapshot to
/// restore from, and while no write runs.
pub open spec fn restore_effects(s: ProfileState) -> Seq<Effect> {
    if s.secret is Some && has_snapshots(s) && s.work is None {
        seq![Effect::OpenRestore(s.secret->0)]
    } else {
        Seq::empty()
    }
}

/// The time of the last entry of `history`, or the earliest time there is.
pub open spec fn last_time(history: Seq<Event>) -> i64 {
    if history.len() == 0 {
        i64::MIN
    } else {
        history.last().time
    }
}

/// The entries of `events` after `since`, in order.
pub open spec fn later_than(events: Seq<Event>, since: i64) -> Seq<Event>
    decreases events.len(),
{
    if events.len() == 0 {
        Seq::empty()
    } else {
        let rest = later_than(events.drop_last(), since);
        if events.last().time > since {
            rest.push(events.last())
        } else {
            rest
        }
    }
}

/// The message keeps the page locked or unlocks it.
pub open spec fn is_unlock_message(message: Message) -> bool {
    ||| message is KeyringLoaded
    ||| message is UnlockPassword
    ||| message is UnlockRemember
    ||| message is Unlock
    ||| message is Opened
    ||| message is SnapshotsLoaded
}

/// The message starts or follows a write.
pub open spec fn is_work_message(message: Message) -> bool {
    ||| message is BackUpNow
    ||| message is Backup
    ||| message is CancelBackup
    ||| message is CheckNow
    ||| message is Checked
    ||| message is CleanUpNow
    ||| message is CleanedUp
    ||| message is DeleteSnapshot
    ||| message is SnapshotsDeleted
    ||| message is TogglePinned
    ||| message is Pinned
}

/// What a message about unlocking does.
pub open spec fn unlock_stepped(before: ProfileState, message: Message, after: ProfileState, effects: Seq<Effect>) -> bool {
    match message {
        Message::KeyringLoaded(Ok(Some(secret))) => {
            &&& after == ProfileState { unlocking: true, ..before }
            &&& effects == seq![Effect::Open { secret, remember: false }]
        },
        Message::KeyringLoaded(Ok(None)) => after == before && nothing(effects),
        Message::KeyringLoaded(Err(error)) => {
            &&& after == before
            &&& effects.len() == 1
            &&& shows(effects[0], "password-command-failed"@, error)
        },
        Message::UnlockPassword(password) => after == ProfileState { unlock_password: password, ..before }
            && nothing(effects),
        Message::UnlockRemember(remember) => after == ProfileState { unlock_remember: remember, ..before }
            && nothing(effects),
        Message::Unlock => if before.unlock_password@.len() == 0 || before.unlocking {
            after == before && nothing(effects)
        } else {
            &&& after == ProfileState { unlocking: true, unlock_password: after.unlock_password, ..before }
            &&& after.unlock_password@.len() == 0
            &&& effects == seq![Effect::Open { secret: before.unlock_password, remember: before.unlock_remember }]
        },
        Message::Opened(secret, Ok(snapshots)) => {
            let unlocked = ProfileState {
                unlocking: false,
                secret: Some(secret),
                snapshots: Some(snapshots),
                restore_when_unlocked: false,
                ..before
            };
            &&& after == unlocked
            &&& effects == if before.restore_when_unlocked {
                restore_effects(unlocked)
            } else {
                Seq::empty()
            }
        },
        Message::Opened(_, Err(error)) => {
            &&& after == ProfileState { unlocking: false, secret: None, ..before }
            &&& effects.len() == 1
            &&& shows(effects[0], "open-repo-failed"@, error)
        },
        Message::SnapshotsLoaded(Ok(snapshots)) => after == ProfileState {
            snapshots: Some(snapshots),
            ..before
        } && nothing(effects),
        Message::SnapshotsLoaded(Err(error)) => {
            &&& after == ProfileState {
                secret: if error.kind == ErrorKind::WrongPassword {
                    None
                } else {
                    before.secret
                },
                ..before
            }
            &&& effects.len() == 1
            &&& shows(effects[0], "open-repo-failed"@, error)
        },
        _ => false,
    }
}

/// What a message about the writes does, at `now`.
pub open spec fn work_stepped(
    before: ProfileState,
    message: Message,
    profile: Profile,
    after: ProfileState,
    effects: Seq<Effect>,
    now: i64,
) -> bool {
    match message {
        Message::BackUpNow => backed_up(before, profile, now, after, effects),
        Message::Backup(event) => backup_followed(before, event, now, after, effects),
        Message::CancelBackup => after == before && match before.work {
            Some(run) => if run.work != Work::CleanUp && run.started {
                effects == seq![Effect::CancelWork]
            } else {
                nothing(effects)
            },
            None => nothing(effects),
        },
        Message::CheckNow => starts(before, Work::Check, now, after, effects, |e: Effect, s: String| e == Effect::Check(s)),
        Message::Checked(event) => check_followed(before, event, now, after, effects),
        Message::CleanUpNow => starts(
            before,
            Work::CleanUp,
            now,
            after,
            effects,
            |e: Effect, s: String| e == Effect::CleanUp(s),
        ),
        Message::CleanedUp(event) => cleanup_followed(before, event, now, after, effects),
        Message::DeleteSnapshot(id) => starts(
            before,
            Work::Modify,
            now,
            after,
            effects,
            |e: Effect, s: String| e matches Effect::DeleteSnapshots(t, ids) && t == s && ids@.len() == 1 && ids@[0]
                == id,
        ),
        Message::SnapshotsDeleted(event) => modify_followed(before, event, now, "delete-snapshot-failed"@, after, effects),
        Message::TogglePinned(id, pinned) => starts(
            before,
            Work::Modify,
            now,
            after,
            effects,
            |e: Effect, s: String| e == Effect::SetPinned(s, id, pinned),
        ),
        Message::Pinned(event) => modify_followed(before, event, now, "pin-snapshot-failed"@, after, effects),
        _ => false,
    }
}

/// What the other messages do.
pub open spec fn rest_stepped(before: ProfileState, message: Message, after: ProfileState, effects: Seq<Effect>) -> bool {
    match message {
        Message::EditSchedule => after == before && effects == seq![Effect::EditSchedule],
        Message::EditHooks => after == before && effects == seq![Effect::EditHooks],
        Message::EditPasswordCommand => after == before && effects == seq![Effect::EditPasswordCommand],
        Message::ChangePassword => after == before && effects == seq![Effect::ChangePassword],
        Message::Edit => after == before && effects == seq![Effect::Edit],
        Message::Remove => after == before && effects == seq![Effect::Remove],
        Message::DeleteAll => after == before && effects == seq![Effect::DeleteAll],
        Message::ShowAll => after == ProfileState { show_all: true, ..before } && nothing(effects),
        Message::Restore => after == before && effects == restore_effects(before),
        Message::NextRunLoaded(next_run) => after == ProfileState { next_run, ..before } && nothing(effects),
        Message::CalculateStatistics => if before.secret is Some && !before.calculating_statistics {
            &&& after == ProfileState { calculating_statistics: true, ..before }
            &&& effects == seq![Effect::FetchStatistics(before.secret->0)]
        } else {
            after == before && nothing(effects)
        },
        Message::StatisticsLoaded(result) => after == ProfileState {
            calculating_statistics: false,
            statistics: Some(result),
            ..before
        } && nothing(effects),
        Message::HistoryLoaded(history) => {
            &&& after.history@ == history@ + later_than(before.history@, last_time(history@))
            &&& after == ProfileState { history: after.history, ..before }
            &&& nothing(effects)
        },
        _ => false,
    }
}

/// What `message` does to the page of `profile` at `now`, and what it asks
/// the application to do.
#[verifier::opaque]
pub open spec fn stepped(
    before: ProfileState,
    message: Message,
    profile: Profile,
    after: ProfileState,
    effects: Seq<Effect>,
    now: i64,
) -> bool {
    if is_unlock_message(message) {
        unlock_stepped(before, message, after, effects)
    } else if is_work_message(message) {
        work_stepped(before, message, profile, after, effects, now)
    } else {
        rest_stepped(before, message, after, effects)
    }
}


/// An effect that writes to the repository in a child process.
pub open spec fn writes(e: Effect) -> bool {
    ||| e is BackUp
    ||| e is Check
    ||| e is CleanUp
    ||| e is DeleteSnapshots
    ||| e is SetPinned
}

/// The password is looked for once: showing the page again, after it was
/// looked for, does not look again.
pub proof fn lemma_the_keyring_is_consulted_once(
    first: ProfileState,
    profile: Profile,
    shown: ProfileState,
    asked: Seq<Effect>,
    again: ProfileState,
    effects: Seq<Effect>,
)
    requires
        activated(first, profile, shown, asked),
        activated(shown, profile, again, effects),
    ensures
        !effects.contains(Effect::LoadKeyring),
{
    if effects.contains(Effect::LoadKeyring) {
        let i = choose|i: int| 0 <= i < effects.len() && effects[i] == Effect::LoadKeyring;
        assert(effects[i] == Effect::LoadKeyring);
    }
}

/// No message makes the page forget that it looked for the password, and no
/// message looks for it: only showing the page does.
pub proof fn lemma_no_message_asks_for_the_keyring(
    before: ProfileState,
    message: Message,
    profile: Profile,
    after: ProfileState,
    effects: Seq<Effect>,
    now: i64,
)
    requires
        stepped(before, message, profile, after, effects, now),
    ensures
        after.keyring_checked == before.keyring_checked,
        after.history_loaded == before.history_loaded,
        !effects.contains(Effect::LoadKeyring),
{
    reveal(stepped);
    lemma_writes_wait(before, message, profile, after, effects, now);
}

/// Only one write runs at a time: a message asks for a write only when none
/// runs, asks for nothing else with it, and leaves that write running.
pub proof fn lemma_one_write_at_a_time(
    before: ProfileState,
    message: Message,
    profile: Profile,
    after: ProfileState,
    effects: Seq<Effect>,
    now: i64,
)
    requires
        stepped(before, message, profile, after, effects, now),
    ensures
        forall|i: int|
            0 <= i < effects.len() && writes(#[trigger] effects[i]) ==> {
                &&& before.work is None
                &&& after.work is Some
                &&& effects.len() == 1
            },
{
    reveal(stepped);
    lemma_writes_wait(before, message, profile, after, effects, now);
}

/// An effect that neither writes nor looks for the password.
pub open spec fn calm(e: Effect) -> bool {
    !writes(e) && !(e is LoadKeyring)
}

/// Every effect of `effects` is calm.
pub open spec fn all_calm(effects: Seq<Effect>) -> bool {
    forall|i: int| 0 <= i < effects.len() ==> calm(#[trigger] effects[i])
}

/// Reloading the snapshot list is calm.
proof fn lemma_fetches_are_calm(secret: Option<String>, tail: Seq<Effect>)
    requires
        all_calm(tail),
    ensures
        all_calm(fetches(secret)),
        all_calm(fetches(secret) + tail),
        all_calm(tail + fetches(secret)),
{
    assert forall|i: int| 0 <= i < (fetches(secret) + tail).len() implies calm(#[trigger] (fetches(secret) + tail)[i]) by {
        if i >= fetches(secret).len() {
            assert((fetches(secret) + tail)[i] == tail[i - fetches(secret).len()]);
        }
    }
    assert forall|i: int| 0 <= i < (tail + fetches(secret)).len() implies calm(#[trigger] (tail + fetches(secret))[i]) by {
        if i < tail.len() {
            assert((tail + fetches(secret))[i] == tail[i]);
        }
    }
}

/// The page's part of [`lemma_one_write_at_a_time`]: what the effects of
/// each kind of message are, message by message.
proof fn lemma_writes_wait(
    before: ProfileState,
    message: Message,
    profile: Profile,
    after: ProfileState,
    effects: Seq<Effect>,
    now: i64,
)
    requires
        if is_unlock_message(message) {
            unlock_stepped(before, message, after, effects)
        } else if is_work_message(message) {
            work_stepped(before, message, profile, after, effects, now)
        } else {
            rest_stepped(before, message, after, effects)
        },
    ensures
        forall|i: int|
            0 <= i < effects.len() && writes(#[trigger] effects[i]) ==> {
                &&& before.work is None
                &&& after.work is Some
                &&& effects.len() == 1
            },
        all_calm(effects) || (effects.len() == 1 && writes(effects[0]) && before.work is None
            && after.work is Some),
        after.keyring_checked == before.keyring_checked,
        after.history_loaded == before.history_loaded,
        !effects.contains(Effect::LoadKeyring),
{
    let empty: Seq<Effect> = Seq::empty();
    if is_unlock_message(message) {
        match message {
            Message::Opened(_, Ok(_)) => {
                assert(all_calm(effects));
            },
            _ => {
                assert(all_calm(effects));
            },
        }
    } else if is_work_message(message) {
        match message {
            Message::Backup(event) => {
                match ended(event) {
                    Some(Ok(done)) => {
                        let tail: Seq<Effect> = match done.report {
                            Some(report) => seq![
                                Effect::RecordSuccess(report.snapshot.time),
                                Effect::LogEvent(EventKind::BackedUp),
                            ],
                            None => Seq::empty(),
                        };
                        lemma_fetches_are_calm(before.secret, tail);
                    },
                    _ => {
                        assert(all_calm(effects));
                    },
                }
            },
            Message::CleanedUp(event) => {
                match ended(event) {
                    Some(_) => {
                        let head = effects.take(2);
                        assert(all_calm(head));
                        lemma_fetches_are_calm(before.secret, head);
                        assert(effects =~= head + fetches(before.secret));
                    },
                    None => {
                        lemma_fetches_are_calm(before.secret, empty);
                    },
                }
            },
            Message::SnapshotsDeleted(event) | Message::Pinned(event) => {
                lemma_fetches_are_calm(before.secret, empty);
                match ended(event) {
                    Some(Err(_)) => {
                        assert(effects =~= seq![effects[0]] + fetches(before.secret));
                        lemma_fetches_are_calm(before.secret, seq![effects[0]]);
                    },
                    _ => {},
                }
            },
            _ => {
                assert(all_calm(effects) || (effects.len() == 1 && writes(effects[0])));
            },
        }
    } else {
        assert(all_calm(effects));
    }
    if effects.contains(Effect::LoadKeyring) {
        let i = choose|i: int| 0 <= i < effects.len() && effects[i] == Effect::LoadKeyring;
        assert(effects[i] is LoadKeyring);
        if !all_calm(effects) {
            assert(i == 0);
        }
    }
}

/// A running clean-up is not stopped: pruning deletes data as it goes.
pub proof fn lemma_a_clean_up_is_not_stopped(
    before: ProfileState,
    profile: Profile,
    after: ProfileState,
    effects: Seq<Effect>,
    now: i64,
)
    requires
        stepped(before, Message::CancelBackup, profile, after, effects, now),
        before.work matches Some(run) && run.work == Work::CleanUp,
    ensures
        after == before,
        nothing(effects),
{
    reveal(stepped);
}

/// A press on "calculate" while a calculation runs starts no other one; it
/// can run again once its result is in.
pub proof fn lemma_statistics_are_calculated_once_per_press(
    before: ProfileState,
    profile: Profile,
    pressed: ProfileState,
    asked: Seq<Effect>,
    again: ProfileState,
    effects: Seq<Effect>,
    now: i64,
)
    requires
        stepped(before, Message::CalculateStatistics, profile, pressed, asked, now),
        stepped(pressed, Message::CalculateStatistics, profile, again, effects, now),
    ensures
        asked.len() <= 1,
        nothing(effects),
        again == pressed,
{
    reveal(stepped);
}

/// A password the repository refuses leaves the page locked.
pub proof fn lemma_a_wrong_password_stays_locked(
    before: ProfileState,
    message: Message,
    profile: Profile,
    after: ProfileState,
    effects: Seq<Effect>,
    now: i64,
)
    requires
        stepped(before, message, profile, after, effects, now),
        (message matches Message::Opened(_, Err(error)) && error.kind == ErrorKind::WrongPassword)
            || (message matches Message::SnapshotsLoaded(Err(error)) && error.kind == ErrorKind::WrongPassword),
    ensures
        after.secret is None,
        effects.len() == 1,
        effects[0] is ShowError,
{
    reveal(stepped);
}

/// The entries kept from `events` are those after `since`: none is lost,
/// none is added.
pub proof fn lemma_later_than_keeps_exactly(events: Seq<Event>, since: i64)
    ensures
        forall|e: Event| later_than(events, since).contains(e) <==> events.contains(e) && e.time > since,
        later_than(events, since).len() <= events.len(),
    decreases events.len(),
{
    if events.len() > 0 {
        let rest = events.drop_last();
        lemma_later_than_keeps_exactly(rest, since);
        assert(events =~= rest.push(events.last()));
        let last = events.last();
        let r = later_than(rest, since);
        assert forall|e: Event| later_than(events, since).contains(e) <==> events.contains(e) && e.time > since by {
            lemma_seq_contains_after_push(rest, last, e);
            lemma_seq_contains_after_push(r, last, e);
            assert(r.contains(e) <==> rest.contains(e) && e.time > since);
            assert(events.contains(e) <==> rest.push(last).contains(e));
            if last.time > since {
                assert(later_than(events, since) == r.push(last));
            } else {
                assert(later_than(events, since) == r);
            }
        }
    }
}

/// A history read that comes back late loses none of what the page logged
/// meanwhile and repeats none of what it read: the page holds what was read,
/// then what it logged after the last entry read.
pub proof fn lemma_a_late_history_load_keeps_what_was_logged_meanwhile(
    before: ProfileState,
    history: Vec<Event>,
    profile: Profile,
    after: ProfileState,
    effects: Seq<Effect>,
    now: i64,
)
    requires
        stepped(before, Message::HistoryLoaded(history), profile, after, effects, now),
    ensures
        forall|e: Event|
            after.history@.contains(e) <==> history@.contains(e) || (before.history@.contains(e) && e.time
                > last_time(history@)),
        forall|i: int| 0 <= i < before.history@.len() && before.history@[i].time > last_time(history@) ==> after.history@.contains(#[trigger] before.history@[i]),
        after.history@.len() <= history@.len() + before.history@.len(),
{
    reveal(stepped);
    let since = last_time(history@);
    let kept = later_than(before.history@, since);
    lemma_later_than_keeps_exactly(before.history@, since);
    assert(after.history@ == history@ + kept);
    assert forall|e: Event| after.history@.contains(e) <==> history@.contains(e) || (before.history@.contains(e) && e.time > since) by {
        if after.history@.contains(e) {
            let k = choose|k: int| 0 <= k < after.history@.len() && after.history@[k] == e;
            if k >= history@.len() {
                assert(kept[k - history@.len()] == e);
            } else {
                assert(history@[k] == e);
            }
        }
        if history@.contains(e) {
            let k = choose|k: int| 0 <= k < history@.len() && history@[k] == e;
            assert(after.history@[k] == e);
        }
        if before.history@.contains(e) && e.time > since {
            assert(kept.contains(e));
            let k = choose|k: int| 0 <= k < kept.len() && kept[k] == e;
            assert(after.history@[history@.len() + k] == e);
        }
    }
    assert forall|i: int| 0 <= i < before.history@.len() && before.history@[i].time > since implies after.history@.contains(#[trigger] before.history@[i]) by {
        let e = before.history@[i];
        assert(before.history@.contains(e));
        assert(kept.contains(e));
        let k = choose|k: int| 0 <= k < kept.len() && kept[k] == e;
        assert(after.history@[history@.len() + k] == e);
    }
}
/// How long, in seconds, the figures of a run may stand still before the
/// progress card says why they may.
pub const STALL_NOTICE: i64 = 15;

/// When the backup last succeeded: its newest snapshot once the list is
/// in, else the time the profile remembers.
pub open spec fn last_backup_of(s: ProfileState, profile: Profile) -> Option<i64> {
    if s.snapshots matches Some(v) && v@.len() > 0 {
        Some(s.snapshots->0@[0].time)
    } else {
        profile.last_success
    }
}

/// The page's last backup is its newest snapshot once the list is in: the
/// list comes newest first, so no snapshot in it is later, and one of them
/// is that time. Before the list is in, or when it is empty, it is the time
/// the profile remembers.
pub proof fn lemma_the_last_backup_is_the_newest_snapshot(s: ProfileState, profile: Profile)
    ensures
        (s.snapshots matches Some(v) && v@.len() > 0 && forall|i: int, j: int|
            0 <= i < j < v@.len() ==> #[trigger] v@[i].time >= #[trigger] v@[j].time) ==> {
            let v = s.snapshots->0@;
            &&& last_backup_of(s, profile) is Some
            &&& forall|k: int| 0 <= k < v.len() ==> #[trigger] v[k].time <= last_backup_of(s, profile)->0
            &&& exists|k: int| 0 <= k < v.len() && #[trigger] v[k].time == last_backup_of(s, profile)->0
        },
        (s.snapshots matches Some(v) && v@.len() > 0) ==> last_backup_of(s, profile) == Some(
            s.snapshots->0@[0].time,
        ),
        !(s.snapshots matches Some(v) && v@.len() > 0) ==> last_backup_of(s, profile) == profile.last_success,
{
    if s.snapshots matches Some(v) && v@.len() > 0 {
        let v = s.snapshots->0@;
        assert(v[0].time == last_backup_of(s, profile)->0);
        if forall|i: int, j: int| 0 <= i < j < v.len() ==> #[trigger] v[i].time >= #[trigger] v[j].time {
            assert forall|k: int| 0 <= k < v.len() implies #[trigger] v[k].time <= last_backup_of(s, profile)->0 by {
                if k > 0 {
                    assert(v[0].time >= v[k].time);
                }
            }
        }
    }
}

/// How many snapshots the list shows: all of them after "Show all", else
/// the most recent few.
pub open spec fn shown_of(s: ProfileState) -> nat {
    let count = match s.snapshots {
        Some(v) => v@.len(),
        None => 0,
    };
    if s.show_all || count <= RECENT {
        count
    } else {
        RECENT as nat
    }
}

/// What the progress card of `run` says it is doing.
pub open spec fn progress_label_id(run: Running) -> Seq<char> {
    match run.progress {
        None => "progress-starting"@,
        Some(p) => if run.work == Work::CleanUp {
            "progress-cleaning-up"@
        } else if run.work == Work::Check || p.phase == Phase::Checking {
            "progress-checking"@
        } else if p.phase == Phase::Preparing {
            "progress-preparing"@
        } else if p.phase == Phase::BackingUp {
            "progress-backing-up"@
        } else {
            "progress-restoring"@
        },
    }
}

/// How much of a run is done, as the card shows it: bytes out of a known
/// total, bytes alone, or nothing where files are counted.
pub open spec fn amount_of(p: ProgressEvent, r: Arg) -> bool {
    if p.bytes {
        match p.total {
            Some(total) => r matches Arg::Phrase(phrase) && phrase.id@ == "progress-amount"@ && phrase.args@.len()
                == 2 && phrase.args@[0].0@ == "done"@ && phrase.args@[0].1 == Arg::Size(p.done) && phrase.args@[1].0@
                == "total"@ && phrase.args@[1].1 == Arg::Size(total),
            None => r == Arg::Size(p.done),
        }
    } else {
        r matches Arg::Text(t) && t@.len() == 0
    }
}

/// What the progress card of `run` shows below its label: the amount, and
/// what a backup sent so far.
pub open spec fn detail_of(run: Running, r: Option<Arg>) -> bool {
    match run.progress {
        None => r is None,
        Some(p) => r matches Some(detail) && match p.uploaded {
            Some(sent) => if p.phase == Phase::BackingUp {
                detail matches Arg::Phrase(phrase) && phrase.id@ == "progress-uploaded"@ && phrase.args@.len() == 2
                    && phrase.args@[0].0@ == "amount"@ && amount_of(p, phrase.args@[0].1) && phrase.args@[1].0@
                    == "uploaded"@ && phrase.args@[1].1 == Arg::Size(sent)
            } else {
                amount_of(p, detail)
            },
            None => amount_of(p, detail),
        },
    }
}

/// What the progress card of `run` says at `now`.
pub open spec fn card_of(run: Running, now: i64, card: ProgressCard) -> bool {
    let still = now - run.moved;
    &&& card.label.is(progress_label_id(run))
    &&& detail_of(run, card.detail)
    &&& card.elapsed == now - run.since
    &&& if still >= STALL_NOTICE {
        card.waiting matches Some(w) && w.with(
            if run.progress is None || run.progress->0.phase == Phase::Preparing {
                "progress-waiting-preparing"@
            } else {
                "progress-waiting"@
            },
            "time"@,
            Arg::Count(still as i64),
        )
    } else {
        card.waiting is None
    }
    &&& card.can_cancel == (run.work != Work::CleanUp && run.started)
}

/// What the card of a running write shows: what it is doing, how much is
/// done, how long it has run, why its figures may stand still, and whether
/// it can be stopped (a clean-up cannot: pruning deletes data as it goes).
#[derive(Debug)]
pub struct ProgressCard {
    pub label: Phrase,
    pub detail: Option<Arg>,
    /// Seconds since the run began.
    pub elapsed: i64,
    pub waiting: Option<Phrase>,
    pub can_cancel: bool,
}

/// How much of a run is done, as the card shows it.
fn amount(p: &ProgressEvent) -> (r: Arg)
    ensures
        amount_of(*p, r),
{
    if p.bytes {
        match p.total {
            Some(total) => {
                let mut args: Vec<(String, Arg)> = Vec::new();
                args.push(("done".to_owned(), Arg::Size(p.done)));
                args.push(("total".to_owned(), Arg::Size(total)));
                Arg::Phrase(Box::new(Phrase { id: "progress-amount".to_owned(), args }))
            },
            None => Arg::Size(p.done),
        }
    } else {
        Arg::Text(String::new())
    }
}


impl ProfileState {
    /// The page as it starts.
    pub fn new() -> (r: ProfileState)
        ensures
            is_fresh(r),
    {
        ProfileState {
            secret: None,
            keyring_checked: false,
            unlock_password: String::new(),
            unlock_remember: true,
            unlocking: false,
            snapshots: None,
            work: None,
            show_all: false,
            next_run: None,
            statistics: None,
            calculating_statistics: false,
            history: Vec::new(),
            history_loaded: false,
            restore_when_unlocked: false,
        }
    }

    /// A backup, check or clean-up is running.
    pub fn is_busy(&self) -> (r: bool)
        ensures
            r == self.work is Some,
    {
        self.work.is_some()
    }

    /// The password this backup is unlocked with right now, if it is.
    pub fn secret(&self) -> (r: Option<&String>)
        ensures
            match r {
                Some(s) => self.secret == Some(*s),
                None => self.secret is None,
            },
    {
        self.secret.as_ref()
    }

    /// Replace the unlocked password in memory, after changing it.
    pub fn set_secret(&mut self, secret: String)
        ensures
            *final(self) == (ProfileState { secret: Some(secret), ..*old(self) }),
    {
        self.secret = Some(secret);
    }

    /// Whether the backup is unlocked.
    pub fn is_unlocked(&self) -> (r: bool)
        ensures
            r == self.secret is Some,
    {
        self.secret.is_some()
    }

    /// Whether the backup is unlocked and holds a snapshot.
    pub fn has_snapshots(&self) -> (r: bool)
        ensures
            r == has_snapshots(*self),
    {
        match &self.snapshots {
            Some(v) => v.len() > 0,
            None => false,
        }
    }

    /// Start `work` at `now`, if nothing else is running and the backup is
    /// unlocked: the password it runs with.
    fn start(&mut self, work: Work, now: i64) -> (r: Option<String>)
        ensures
            started(*old(self), work, now, *final(self), r),
    {
        if self.work.is_some() {
            return None;
        }
        match &self.secret {
            Some(secret) => {
                let secret = secret.clone();
                self.work = Some(Running { work, started: false, progress: None, since: now, moved: now });
                Some(secret)
            },
            None => None,
        }
    }

    /// Follow a running child: note its start and progress, and when it
    /// ends, clear the work and say how it ended.
    fn follow(&mut self, event: ChildEvent, now: i64) -> (r: Option<Result<Done, EngineError>>)
        ensures
            *final(self) == followed_work(*old(self), event, now),
            r == ended(event),
    {
        match event {
            ChildEvent::Started => {
                match self.work.take() {
                    Some(mut running) => {
                        running.started = true;
                        self.work = Some(running);
                    },
                    None => {},
                }
                None
            },
            ChildEvent::Progress(progress) => {
                match self.work.take() {
                    Some(mut running) => {
                        let moved = match &running.progress {
                            Some(p) => !same_progress(p, &progress),
                            None => true,
                        };
                        if moved {
                            running.moved = now;
                        }
                        running.progress = Some(progress);
                        self.work = Some(running);
                    },
                    None => {},
                }
                None
            },
            ChildEvent::Done(done) => {
                self.work = None;
                Some(Ok(done))
            },
            ChildEvent::Failed(error) => {
                self.work = None;
                Some(Err(error))
            },
        }
    }

    /// Mirror each history entry `effects` log into the page's own copy, so
    /// it shows without waiting for the store the effect writes to.
    fn track_history(&mut self, effects: &Vec<Effect>, now: i64)
        ensures
            final(self).history@ == old(self).history@ + logged(effects@, now),
            *final(self) == (ProfileState { history: final(self).history, ..*old(self) }),
    {
        let ghost start = self.history@;
        let mut i: usize = 0;
        while i < effects.len()
            invariant
                i <= effects@.len(),
                self.history@ == start + logged(effects@.take(i as int), now),
                *self == (ProfileState { history: self.history, ..*old(self) }),
            decreases effects@.len() - i,
        {
            assert(effects@.take(i + 1).drop_last() =~= effects@.take(i as int));
            assert(effects@.take(i + 1).last() == effects@[i as int]);
            match &effects[i] {
                Effect::LogEvent(kind) => {
                    let ghost before = self.history@;
                    self.history.push(Event { time: now, kind: kind.duplicate() });
                    assert(self.history@ =~= start + logged(effects@.take(i + 1), now));
                },
                _ => {
                    assert(self.history@ =~= start + logged(effects@.take(i + 1), now));
                },
            }
            i = i + 1;
        }
        assert(effects@.take(effects@.len() as int) =~= effects@);
    }

    /// Called when the page is shown: look for a remembered password once,
    /// ask when a scheduled backup runs next, and read the history once.
    pub fn activate(&mut self, profile: &Profile) -> (r: Vec<Effect>)
        ensures
            activated(*old(self), *profile, *final(self), r@),
    {
        let mut effects: Vec<Effect> = Vec::new();
        let ghost e0 = effects@;
        if !self.keyring_checked && self.secret.is_none() {
            self.keyring_checked = true;
            effects.push(Effect::LoadKeyring);
        }
        let ghost e1 = effects@;
        if profile.schedule != Schedule::Manual {
            effects.push(Effect::FetchNextRun);
        }
        let ghost e2 = effects@;
        if !self.history_loaded {
            self.history_loaded = true;
            effects.push(Effect::FetchHistory);
        }
        proof {
            let ask_keyring = !old(self).keyring_checked && old(self).secret is None;
            let ask_history = !old(self).history_loaded;
            let ask_next_run = profile.schedule != Schedule::Manual;
            let a: Seq<Effect> = if ask_keyring { seq![Effect::LoadKeyring] } else { Seq::empty() };
            let b: Seq<Effect> = if ask_next_run { seq![Effect::FetchNextRun] } else { Seq::empty() };
            let c: Seq<Effect> = if ask_history { seq![Effect::FetchHistory] } else { Seq::empty() };
            assert(e1 =~= a);
            assert(e2 =~= a + b);
            assert(effects@ =~= a + b + c);
        }
        effects
    }

    /// Reload the snapshot list, if the backup is unlocked.
    fn fetch(&self) -> (r: Vec<Effect>)
        ensures
            r@ == fetches(self.secret),
    {
        match &self.secret {
            Some(secret) => only(Effect::Fetch(secret.clone())),
            None => Vec::new(),
        }
    }

    /// Open the restore page, if there is something to restore and nothing
    /// writes to the repository.
    fn restore(&self) -> (r: Vec<Effect>)
        ensures
            r@ == restore_effects(*self),
    {
        match &self.secret {
            Some(secret) => if self.has_snapshots() && self.work.is_none() {
                only(Effect::OpenRestore(secret.clone()))
            } else {
                Vec::new()
            },
            None => Vec::new(),
        }
    }

    /// Start a backup at `now`, if one can start: there must be something
    /// to back up.
    pub fn back_up(&mut self, profile: &Profile, now: i64) -> (r: Vec<Effect>)
        ensures
            backed_up(*old(self), *profile, now, *final(self), r@),
    {
        if profile.sources.len() == 0 {
            return Vec::new();
        }
        match self.start(Work::Backup, now) {
            Some(secret) => only(Effect::BackUp(secret)),
            None => Vec::new(),
        }
    }

    /// Follow the backup's child process.
    fn on_backup(&mut self, event: ChildEvent, now: i64) -> (r: Vec<Effect>)
        ensures
            backup_followed(*old(self), event, now, *final(self), r@),
    {
        let mut effects = self.fetch();
        match self.follow(event, now) {
            None => Vec::new(),
            Some(Ok(done)) => {
                let ghost fetch = effects@;
                match done.report {
                    Some(report) => {
                        effects.push(Effect::RecordSuccess(report.snapshot.time));
                        effects.push(Effect::LogEvent(EventKind::BackedUp));
                        assert(effects@ =~= fetch + seq![
                            Effect::RecordSuccess(report.snapshot.time),
                            Effect::LogEvent(EventKind::BackedUp),
                        ]);
                    },
                    None => {
                        assert(effects@ =~= fetch + Seq::<Effect>::empty());
                    },
                }
                self.track_history(&effects, now);
                effects
            },
            Some(Err(error)) => {
                let effects = if error.kind == ErrorKind::Cancelled {
                    only(Effect::ShowError(Phrase::plain("snapshot-failed"), error))
                } else {
                    let mut effects = only(Effect::LogEvent(failure_of(Stage::Backup, &error)));
                    effects.push(Effect::ShowError(Phrase::plain("snapshot-failed"), error));
                    effects
                };
                self.track_history(&effects, now);
                effects
            },
        }
    }

    /// Follow the check's child process.
    fn on_check(&mut self, event: ChildEvent, now: i64) -> (r: Vec<Effect>)
        ensures
            check_followed(*old(self), event, now, *final(self), r@),
    {
        let effects = match self.follow(event, now) {
            None => return Vec::new(),
            Some(Ok(_)) => {
                let mut effects = only(Effect::RecordCheck(Ok(())));
                effects.push(Effect::LogEvent(EventKind::Checked { damaged: false }));
                effects
            },
            Some(Err(error)) => {
                let kind = if error.kind == ErrorKind::RepositoryDamaged {
                    EventKind::Checked { damaged: true }
                } else {
                    failure_of(Stage::Check, &error)
                };
                let mut effects = only(Effect::LogEvent(kind));
                effects.push(Effect::RecordCheck(Err(error)));
                effects
            },
        };
        proof {
            assert(effects@ =~= check_ended(ended(event)->0));
        }
        self.track_history(&effects, now);
        effects
    }

    /// Follow the clean-up's child process.
    fn on_clean_up(&mut self, event: ChildEvent, now: i64) -> (r: Vec<Effect>)
        ensures
            cleanup_followed(*old(self), event, now, *final(self), r@),
    {
        let mut effects = match self.follow(event, now) {
            None => return self.fetch(),
            Some(Ok(done)) => {
                let forgotten: u64 = match done.forgotten {
                    Some(report) => report.removed,
                    None => 0,
                };
                let freed: u64 = match done.pruned {
                    Some(report) => report.bytes,
                    None => 0,
                };
                let mut effects = only(Effect::CleanedUp { forgotten, freed });
                effects.push(Effect::LogEvent(EventKind::CleanedUp { forgotten, freed }));
                assert(effects@ =~= seq![
                    Effect::CleanedUp { forgotten, freed },
                    Effect::LogEvent(EventKind::CleanedUp { forgotten, freed }),
                ]);
                effects
            },
            Some(Err(error)) => {
                let mut effects = only(Effect::LogEvent(failure_of(Stage::Cleanup, &error)));
                effects.push(Effect::ShowError(Phrase::plain("clean-up-failed"), error));
                effects
            },
        };
        let ghost outcome = effects@;
        proof {
            assert(cleanup_ended(ended(event)->0, outcome));
        }
        self.track_history(&effects, now);
        let mut fetch = self.fetch();
        effects.append(&mut fetch);
        proof {
            assert(effects@.take(2) =~= outcome);
            assert(effects@.skip(2) =~= fetches(old(self).secret));
        }
        effects
    }

    /// Follow a child process that deletes or pins a snapshot; a failure is
    /// reported with the message `id`.
    fn on_modify(&mut self, event: ChildEvent, now: i64, id: &str) -> (r: Vec<Effect>)
        ensures
            modify_followed(*old(self), event, now, id@, *final(self), r@),
    {
        let mut fetch = self.fetch();
        match self.follow(event, now) {
            None => Vec::new(),
            Some(Ok(_)) => fetch,
            Some(Err(error)) => {
                let mut effects = only(Effect::ShowError(Phrase::plain(id), error));
                effects.append(&mut fetch);
                assert(effects@.drop_first() =~= fetches(old(self).secret));
                effects
            },
        }
    }

    /// Keep the entries this page logged itself after everything in
    /// `history`, just loaded, and put them after it.
    fn merge_history(&mut self, history: Vec<Event>)
        ensures
            final(self).history@ == history@ + later_than(old(self).history@, last_time(history@)),
            *final(self) == (ProfileState { history: final(self).history, ..*old(self) }),
    {
        let since: i64 = if history.len() == 0 {
            i64::MIN
        } else {
            history[history.len() - 1].time
        };
        let ghost loaded = history@;
        assert(since == last_time(loaded));
        let mut merged = history;
        let mut i: usize = 0;
        while i < self.history.len()
            invariant
                i <= self.history@.len(),
                merged@ == loaded + later_than(self.history@.take(i as int), since),
            decreases self.history@.len() - i,
        {
            let ghost local = self.history@;
            assert(local.take(i + 1).drop_last() =~= local.take(i as int));
            assert(local.take(i + 1).last() == local[i as int]);
            let event = &self.history[i];
            if event.time > since {
                merged.push(Event { time: event.time, kind: event.kind.duplicate() });
                assert(merged@ =~= loaded + later_than(local.take(i + 1), since));
            } else {
                assert(merged@ =~= loaded + later_than(local.take(i + 1), since));
            }
            i = i + 1;
        }
        assert(self.history@.take(self.history@.len() as int) =~= self.history@);
        self.history = merged;
    }

    /// What a message about unlocking does.
    fn update_unlock(&mut self, message: Message) -> (r: Vec<Effect>)
        requires
            is_unlock_message(message),
        ensures
            unlock_stepped(*old(self), message, *final(self), r@),
    {
        match message {
            Message::KeyringLoaded(Ok(Some(secret))) => {
                self.unlocking = true;
                only(Effect::Open { secret, remember: false })
            },
            Message::KeyringLoaded(Ok(None)) => Vec::new(),
            Message::KeyringLoaded(Err(error)) => only(
                Effect::ShowError(Phrase::plain("password-command-failed"), error),
            ),
            Message::UnlockPassword(password) => {
                self.unlock_password = password;
                Vec::new()
            },
            Message::UnlockRemember(remember) => {
                self.unlock_remember = remember;
                Vec::new()
            },
            Message::Unlock => {
                if self.unlock_password.as_str().is_empty() || self.unlocking {
                    return Vec::new();
                }
                self.unlocking = true;
                let secret = self.unlock_password.clone();
                self.unlock_password = String::new();
                only(Effect::Open { secret, remember: self.unlock_remember })
            },
            Message::Opened(secret, Ok(snapshots)) => {
                self.unlocking = false;
                self.secret = Some(secret);
                self.snapshots = Some(snapshots);
                if self.restore_when_unlocked {
                    self.restore_when_unlocked = false;
                    return self.restore();
                }
                Vec::new()
            },
            Message::Opened(_, Err(error)) => {
                self.unlocking = false;
                self.secret = None;
                only(Effect::ShowError(Phrase::plain("open-repo-failed"), error))
            },
            Message::SnapshotsLoaded(Ok(snapshots)) => {
                self.snapshots = Some(snapshots);
                Vec::new()
            },
            Message::SnapshotsLoaded(Err(error)) => {
                if error.kind == ErrorKind::WrongPassword {
                    self.secret = None;
                }
                only(Effect::ShowError(Phrase::plain("open-repo-failed"), error))
            },
            _ => Vec::new(),
        }
    }

    /// What a message about the writes does.
    fn update_work(&mut self, message: Message, profile: &Profile, now: i64) -> (r: Vec<Effect>)
        requires
            is_work_message(message),
        ensures
            work_stepped(*old(self), message, *profile, *final(self), r@, now),
    {
        match message {
            Message::BackUpNow => self.back_up(profile, now),
            Message::Backup(event) => self.on_backup(event, now),
            Message::CancelBackup => {
                // Pruning deletes data as it goes and is not stopped halfway.
                match &self.work {
                    Some(running) => if running.work != Work::CleanUp && running.started {
                        only(Effect::CancelWork)
                    } else {
                        Vec::new()
                    },
                    None => Vec::new(),
                }
            },
            Message::CheckNow => match self.start(Work::Check, now) {
                Some(secret) => only(Effect::Check(secret)),
                None => Vec::new(),
            },
            Message::Checked(event) => self.on_check(event, now),
            Message::CleanUpNow => match self.start(Work::CleanUp, now) {
                Some(secret) => only(Effect::CleanUp(secret)),
                None => Vec::new(),
            },
            Message::CleanedUp(event) => self.on_clean_up(event, now),
            Message::DeleteSnapshot(id) => match self.start(Work::Modify, now) {
                Some(secret) => {
                    let mut ids: Vec<String> = Vec::new();
                    ids.push(id);
                    only(Effect::DeleteSnapshots(secret, ids))
                },
                None => Vec::new(),
            },
            Message::SnapshotsDeleted(event) => self.on_modify(event, now, "delete-snapshot-failed"),
            Message::TogglePinned(id, pinned) => match self.start(Work::Modify, now) {
                Some(secret) => only(Effect::SetPinned(secret, id, pinned)),
                None => Vec::new(),
            },
            Message::Pinned(event) => self.on_modify(event, now, "pin-snapshot-failed"),
            _ => Vec::new(),
        }
    }

    /// What the other messages do.
    fn update_rest(&mut self, message: Message) -> (r: Vec<Effect>)
        requires
            !is_unlock_message(message),
            !is_work_message(message),
        ensures
            rest_stepped(*old(self), message, *final(self), r@),
    {
        match message {
            Message::EditSchedule => only(Effect::EditSchedule),
            Message::EditHooks => only(Effect::EditHooks),
            Message::EditPasswordCommand => only(Effect::EditPasswordCommand),
            Message::ChangePassword => only(Effect::ChangePassword),
            Message::Edit => only(Effect::Edit),
            Message::Remove => only(Effect::Remove),
            Message::DeleteAll => only(Effect::DeleteAll),
            Message::ShowAll => {
                self.show_all = true;
                Vec::new()
            },
            Message::Restore => self.restore(),
            Message::NextRunLoaded(next_run) => {
                self.next_run = next_run;
                Vec::new()
            },
            Message::CalculateStatistics => match &self.secret {
                Some(secret) => if !self.calculating_statistics {
                    let secret = secret.clone();
                    self.calculating_statistics = true;
                    only(Effect::FetchStatistics(secret))
                } else {
                    Vec::new()
                },
                None => Vec::new(),
            },
            Message::StatisticsLoaded(result) => {
                self.calculating_statistics = false;
                self.statistics = Some(result);
                Vec::new()
            },
            Message::HistoryLoaded(history) => {
                self.merge_history(history);
                Vec::new()
            },
            _ => Vec::new(),
        }
    }

    /// Handle `message` on the page of `profile`, at the Unix time `now`:
    /// the page changes as [`stepped`] says, and the effects it returns are
    /// for the application to run.
    pub fn update(&mut self, message: Message, profile: &Profile, now: i64) -> (r: Vec<Effect>)
        ensures
            stepped(*old(self), message, *profile, *final(self), r@, now),
    {
        proof {
            reveal(stepped);
        }
        if is_unlock(&message) {
            self.update_unlock(message)
        } else if is_work(&message) {
            self.update_work(message, profile, now)
        } else {
            self.update_rest(message)
        }
    }

    /// When the backup last succeeded.
    pub fn last_backup(&self, profile: &Profile) -> (r: Option<i64>)
        ensures
            r == last_backup_of(*self, *profile),
    {
        match &self.snapshots {
            Some(v) => if v.len() > 0 {
                return Some(v[0].time);
            },
            None => {},
        }
        profile.last_success
    }

    /// How many of the snapshots the list shows, newest first.
    pub fn shown(&self) -> (r: usize)
        ensures
            r == shown_of(*self),
    {
        let count = match &self.snapshots {
            Some(v) => v.len(),
            None => 0,
        };
        if self.show_all || count <= RECENT {
            count
        } else {
            RECENT
        }
    }

    /// Unlocked, and nothing else running: a write can start.
    pub fn can_work(&self) -> (r: bool)
        ensures
            r == (self.secret is Some && self.work is None),
    {
        self.secret.is_some() && self.work.is_none()
    }

    /// A snapshot can be pinned or deleted: nothing else runs, and the
    /// repository takes changes (an append-only one refuses both).
    pub fn can_modify(&self, append_only: bool) -> (r: bool)
        ensures
            r == (self.work is None && !append_only),
    {
        self.work.is_none() && !append_only
    }

    /// The most recent entries of the history, newest first.
    pub fn recent_history(&self) -> (r: Vec<&Event>)
        ensures
            r@.len() == if self.history@.len() < RECENT { self.history@.len() } else { RECENT as nat },
            forall|k: int| 0 <= k < r@.len() ==> *(#[trigger] r@[k]) == self.history@[self.history@.len() - 1 - k],
    {
        let mut out: Vec<&Event> = Vec::new();
        let n = self.history.len();
        let mut k: usize = 0;
        while k < n && k < RECENT
            invariant
                n == self.history@.len(),
                k <= n,
                k <= RECENT,
                out@.len() == k,
                forall|j: int| 0 <= j < k ==> *(#[trigger] out@[j]) == self.history@[n - 1 - j],
            decreases n - k,
        {
            out.push(&self.history[n - 1 - k]);
            k = k + 1;
        }
        out
    }

    /// What the progress card says at `now`, while a write runs.
    pub fn progress_card(&self, now: i64) -> (r: Option<ProgressCard>)
        requires
            self.work matches Some(run) ==> i64::MIN <= now - run.moved <= i64::MAX && i64::MIN <= now - run.since
                <= i64::MAX,
        ensures
            match self.work {
                Some(run) => r matches Some(card) && card_of(run, now, card),
                None => r is None,
            },
    {
        let run = match &self.work {
            Some(run) => run,
            None => return None,
        };
        let (label, detail) = match &run.progress {
            None => (Phrase::plain("progress-starting"), None),
            Some(p) => {
                let label = if run.work == Work::CleanUp {
                    Phrase::plain("progress-cleaning-up")
                } else if run.work == Work::Check || p.phase == Phase::Checking {
                    Phrase::plain("progress-checking")
                } else if p.phase == Phase::Preparing {
                    Phrase::plain("progress-preparing")
                } else if p.phase == Phase::BackingUp {
                    Phrase::plain("progress-backing-up")
                } else {
                    Phrase::plain("progress-restoring")
                };
                let detail = match p.uploaded {
                    Some(sent) => if p.phase == Phase::BackingUp {
                        let mut args: Vec<(String, Arg)> = Vec::new();
                        args.push(("amount".to_owned(), amount(p)));
                        args.push(("uploaded".to_owned(), Arg::Size(sent)));
                        Arg::Phrase(Box::new(Phrase { id: "progress-uploaded".to_owned(), args }))
                    } else {
                        amount(p)
                    },
                    None => amount(p),
                };
                (label, Some(detail))
            },
        };
        let still = now - run.moved;
        let waiting = if still >= STALL_NOTICE {
            let preparing = match &run.progress {
                None => true,
                Some(p) => p.phase == Phase::Preparing,
            };
            let id = if preparing {
                "progress-waiting-preparing"
            } else {
                "progress-waiting"
            };
            Some(Phrase::one(id, "time", Arg::Count(still)))
        } else {
            None
        };
        proof {
            reveal_strlit("progress-waiting-preparing");
            reveal_strlit("progress-waiting");
        }
        Some(ProgressCard {
            label,
            detail,
            elapsed: now - run.since,
            waiting,
            can_cancel: run.work != Work::CleanUp && run.started,
        })
    }
}

} // verus!
