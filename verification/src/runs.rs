//! What the window decides about a backup's page work once it ends: what
//! is recorded of checks and clean-ups for the scheduled runs, what is
//! reported, and what happens when the backup's location cannot be reached.

use vstd::prelude::*;
use crate::engine::ChildEvent;
use crate::errors::{EngineError, ErrorKind};
use crate::i18n::{Arg, Phrase};
use crate::pages::Stage;
use crate::profile_page::{Effect, Message};

verus! {

/// What is kept of a backup's scheduled runs that the window reads and
/// changes.
#[derive(Debug, Clone, Copy, PartialEq, Eq)]
pub struct RunState {
    /// When the repository was last checked, as a Unix time.
    pub last_check: Option<i64>,
    /// The last check found damage: clean-ups then forget but never prune.
    pub damaged: bool,
    /// The stage at which the last scheduled run failed, if it did.
    pub failed_stage: Option<Stage>,
}

/// What the window tells the user.
#[derive(Debug)]
pub enum Report {
    /// Something finished: a title and a body.
    Info(Phrase, Phrase),
    /// Something failed: what was being attempted, and the error.
    Error(Phrase, EngineError),
}

/// `stage` with the failure at `cleared` forgotten.
pub open spec fn without(stage: Option<Stage>, cleared: Stage) -> Option<Stage> {
    if stage == Some(cleared) {
        None
    } else {
        stage
    }
}

/// What is recorded after a check that ended with `result` at `now`:
/// nothing when it could not run (a cancel, an unplugged drive), since
/// that says nothing about damage; else when it ran, whether it found
/// damage, and, when it found none, that a failed check is past.
pub open spec fn check_record(run: RunState, result: Result<(), EngineError>, now: i64) -> Option<RunState> {
    match result {
        Ok(()) => Some(
            RunState { last_check: Some(now), damaged: false, failed_stage: without(run.failed_stage, Stage::Check) },
        ),
        Err(error) => if error.kind == ErrorKind::RepositoryDamaged {
            Some(RunState { last_check: Some(now), damaged: true, ..run })
        } else {
            None
        },
    }
}

/// The report of a check: passed, or failed with its error.
pub open spec fn check_report(result: Result<(), EngineError>, report: Report) -> bool {
    match result {
        Ok(()) => report matches Report::Info(title, body) && title.is("check-passed-title"@) && body.is(
            "check-passed-body"@,
        ),
        Err(error) => report matches Report::Error(context, e) && context.is("check-failed"@) && e == error,
    }
}

/// The record of the runs after a check that ended with `result` at `now`
/// (`None`: nothing is recorded), and what the user is told.
pub fn check_recorded(run: RunState, result: Result<(), EngineError>, now: i64) -> (r: (Option<RunState>, Report))
    ensures
        r.0 == check_record(run, result, now),
        check_report(result, r.1),
{
    match result {
        Ok(()) => {
            let failed_stage = match run.failed_stage {
                Some(Stage::Check) => None,
                other => other,
            };
            (
                Some(RunState { last_check: Some(now), damaged: false, failed_stage }),
                Report::Info(Phrase::plain("check-passed-title"), Phrase::plain("check-passed-body")),
            )
        },
        Err(error) => {
            let record = if error.kind == ErrorKind::RepositoryDamaged {
                Some(RunState { last_check: Some(now), damaged: true, ..run })
            } else {
                None
            };
            (record, Report::Error(Phrase::plain("check-failed"), error))
        },
    }
}

/// The record of the runs after a clean-up that forgot `forgotten`
/// snapshots and freed `freed` bytes, and what the user is told: a failed
/// clean-up is past.
pub fn cleaned_up_recorded(run: RunState, forgotten: u64, freed: u64) -> (r: (RunState, Report))
    ensures
        r.0 == (RunState { failed_stage: without(run.failed_stage, Stage::Cleanup), ..run }),
        r.1 matches Report::Info(title, body) && title.is("clean-up-done-title"@) && body.id@
            == "clean-up-done-body"@ && body.args@.len() == 2 && body.args@[0].0@ == "count"@
            && body.args@[0].1 == Arg::Count(forgotten as i64) && body.args@[1].0@ == "size"@
            && body.args@[1].1 == Arg::Size(freed),
{
    let failed_stage = match run.failed_stage {
        Some(Stage::Cleanup) => None,
        other => other,
    };
    let mut args: Vec<(String, Arg)> = Vec::new();
    args.push(("count".to_owned(), Arg::Count(forgotten as i64)));
    args.push(("size".to_owned(), Arg::Size(freed)));
    let body = Phrase { id: "clean-up-done-body".to_owned(), args };
    (RunState { failed_stage, ..run }, Report::Info(Phrase::plain("clean-up-done-title"), body))
}

/// A clean-up also prunes, unless the last check found damage: pruning a
/// damaged repository can lose data.
pub open spec fn pruning(run: Option<RunState>) -> bool {
    !(run matches Some(s) && s.damaged)
}

/// Whether a clean-up also prunes.
pub fn prunes(run: Option<RunState>) -> (r: bool)
    ensures
        r == pruning(run),
{
    match run {
        Some(s) => !s.damaged,
        None => true,
    }
}

/// A check that finds damage stops the clean-ups after it from pruning; one
/// that passes lets them prune again; one that could not run changes
/// nothing of it.
pub proof fn lemma_checks_decide_pruning(run: RunState, result: Result<(), EngineError>, now: i64)
    ensures
        result is Ok ==> pruning(check_record(run, result, now)),
        (result matches Err(e) && e.kind == ErrorKind::RepositoryDamaged) ==> !pruning(
            check_record(run, result, now),
        ),
        (result matches Err(e) && e.kind != ErrorKind::RepositoryDamaged) ==> check_record(run, result, now)
            is None,
{
}

/// What the window does instead of `effect` when the backup's location
/// cannot be reached.
#[derive(Debug)]
pub enum Unreachable {
    /// Hand this to the page: the work ends as a failed run ends.
    Page(Message),
    /// Tell the user what failed.
    ShowError(Phrase, EngineError),
}

/// The page's effects that need the backup's location.
pub open spec fn needs_location(effect: Effect) -> bool {
    effect is BackUp || effect is Check || effect is CleanUp || effect is DeleteSnapshots
}

/// What takes the place of `effect` when the location cannot be reached
/// and reaching it failed with `error`: a backup, a check or a clean-up
/// ends through the same path as a failed one; a deletion is reported;
/// any other effect does not need the location (`None`).
pub fn when_unreachable(effect: &Effect, error: EngineError) -> (r: Option<Unreachable>)
    ensures
        r is Some <==> needs_location(*effect),
        *effect is BackUp ==> r == Some(Unreachable::Page(Message::Backup(ChildEvent::Failed(error)))),
        *effect is Check ==> r == Some(Unreachable::Page(Message::Checked(ChildEvent::Failed(error)))),
        *effect is CleanUp ==> r == Some(Unreachable::Page(Message::CleanedUp(ChildEvent::Failed(error)))),
        *effect is DeleteSnapshots ==> (r matches Some(Unreachable::ShowError(context, e)) && context.is(
            "delete-snapshot-failed"@,
        ) && e == error),
{
    match effect {
        Effect::BackUp(_) => Some(Unreachable::Page(Message::Backup(ChildEvent::Failed(error)))),
        Effect::Check(_) => Some(Unreachable::Page(Message::Checked(ChildEvent::Failed(error)))),
        Effect::CleanUp(_) => Some(Unreachable::Page(Message::CleanedUp(ChildEvent::Failed(error)))),
        Effect::DeleteSnapshots(..) => Some(
            Unreachable::ShowError(Phrase::plain("delete-snapshot-failed"), error),
        ),
        _ => None,
    }
}

} // verus!
