//! What each backup's page and the panel applet say about a backup: its
//! schedule, what it keeps, its hooks, its history and its status.

use vstd::prelude::*;
use crate::errors::{explain, explains, EngineError, ErrorKind};
use crate::format::{ago, ago_spec, Ago};
use crate::i18n::{Arg, Phrase};
use crate::profile::{Hook, Retention, Schedule};

verus! {

/// The writes a backup's page runs, one at a time.
#[derive(Debug, Clone, Copy, PartialEq, Eq, Structural)]
pub enum Work {
    Backup,
    Check,
    CleanUp,
    /// Pinning, unpinning or deleting a single snapshot.
    Modify,
}

/// How often a backup runs, as a sentence.
pub fn schedule_summary(schedule: Schedule) -> (r: Phrase)
    ensures
        r.is(match schedule {
            Schedule::Manual => "schedule-manual"@,
            Schedule::Hourly => "schedule-hourly"@,
            Schedule::Daily => "schedule-daily"@,
            Schedule::Weekly => "schedule-weekly"@,
            Schedule::OnConnect => "schedule-on-connect"@,
        }),
{
    match schedule {
        Schedule::Manual => Phrase::plain("schedule-manual"),
        Schedule::Hourly => Phrase::plain("schedule-hourly"),
        Schedule::Daily => Phrase::plain("schedule-daily"),
        Schedule::Weekly => Phrase::plain("schedule-weekly"),
        Schedule::OnConnect => Phrase::plain("schedule-on-connect"),
    }
}

/// `r` is the label of a choice of what to keep: the periods the list
/// offers have names of their own, any other period is given in days.
pub open spec fn labels(retention: Retention, r: Phrase) -> bool {
    match retention {
        Retention::Smart => r.is("keep-smart"@),
        Retention::KeepForever => r.is("keep-forever"@),
        Retention::KeepFor { days } => if days == 90 {
            r.is("keep-3-months"@)
        } else if days == 182 {
            r.is("keep-6-months"@)
        } else if days == 365 {
            r.is("keep-1-year"@)
        } else {
            r.with("keep-days"@, "days"@, Arg::Count(days as i64))
        },
    }
}

/// A choice of what to keep, as its label.
pub fn retention_label(retention: Retention) -> (r: Phrase)
    ensures
        labels(retention, r),
{
    match retention {
        Retention::Smart => Phrase::plain("keep-smart"),
        Retention::KeepForever => Phrase::plain("keep-forever"),
        Retention::KeepFor { days } => {
            if days == 90 {
                Phrase::plain("keep-3-months")
            } else if days == 182 {
                Phrase::plain("keep-6-months")
            } else if days == 365 {
                Phrase::plain("keep-1-year")
            } else {
                Phrase::one("keep-days", "days", Arg::Count(days as i64))
            }
        },
    }
}

/// What a choice of what to keep means.
pub fn retention_description(retention: Retention) -> (r: Phrase)
    ensures
        match retention {
            Retention::Smart => r.is("keep-smart-description"@),
            Retention::KeepForever => r.is("keep-forever-description"@),
            Retention::KeepFor { days } => r.with("keep-for-description"@, "days"@, Arg::Count(days as i64)),
        },
{
    match retention {
        Retention::Smart => Phrase::plain("keep-smart-description"),
        Retention::KeepForever => Phrase::plain("keep-forever-description"),
        Retention::KeepFor { days } => Phrase::one("keep-for-description", "days", Arg::Count(days as i64)),
    }
}

/// How many of `hooks` are turned on.
pub open spec fn enabled_count(hooks: Seq<Hook>) -> nat
    decreases hooks.len(),
{
    if hooks.len() == 0 {
        0
    } else {
        enabled_count(hooks.drop_last()) + if hooks.last().enabled { 1nat } else { 0nat }
    }
}

proof fn lemma_enabled_count_bound(hooks: Seq<Hook>)
    ensures
        enabled_count(hooks) <= hooks.len(),
    decreases hooks.len(),
{
    if hooks.len() > 0 {
        lemma_enabled_count_bound(hooks.drop_last());
    }
}

/// How many hooks are set up, as a sentence: none, or how many are on.
pub fn hooks_summary(hooks: &[Hook]) -> (r: Phrase)
    requires
        hooks@.len() <= i64::MAX,
    ensures
        if enabled_count(hooks@) == 0 {
            r.is("hooks-row-none"@)
        } else {
            r.with("hooks-row-count"@, "count"@, Arg::Count(enabled_count(hooks@) as i64))
        },
{
    let mut enabled: usize = 0;
    let mut i: usize = 0;
    assert(hooks@.subrange(0, 0) =~= Seq::<Hook>::empty());
    while i < hooks.len()
        invariant
            i <= hooks@.len(),
            hooks@.len() <= i64::MAX,
            enabled == enabled_count(hooks@.subrange(0, i as int)),
            enabled <= i,
        decreases hooks@.len() - i,
    {
        assert(hooks@.subrange(0, i + 1).drop_last() =~= hooks@.subrange(0, i as int));
        if hooks[i].enabled {
            enabled = enabled + 1;
        }
        i = i + 1;
    }
    assert(hooks@.subrange(0, hooks@.len() as int) =~= hooks@);
    if enabled == 0 {
        Phrase::plain("hooks-row-none")
    } else {
        Phrase::one("hooks-row-count", "count", Arg::Count(enabled as i64))
    }
}

/// The part of a scheduled run that failed.
#[derive(Debug, Clone, Copy, PartialEq, Eq, Structural)]
pub enum Stage {
    Backup,
    Check,
    Cleanup,
}

/// One entry of a backup's history.
#[derive(Debug, Clone, PartialEq, Eq)]
pub enum EventKind {
    BackedUp,
    Failed { stage: Stage, kind: ErrorKind, detail: String },
    Skipped { kind: ErrorKind },
    Checked { damaged: bool },
    CleanedUp { forgotten: u64, freed: u64 },
}

/// The message naming a stage.
pub open spec fn stage_id(stage: Stage) -> Seq<char> {
    match stage {
        Stage::Backup => "event-stage-backup"@,
        Stage::Check => "event-stage-check"@,
        Stage::Cleanup => "event-stage-cleanup"@,
    }
}

/// A history entry, as a sentence: a failure names its stage and explains
/// its error, a skipped run explains why, a clean-up says how many
/// snapshots it forgot and how much it freed.
pub fn describe_event(kind: &EventKind) -> (r: Phrase)
    ensures
        *kind == EventKind::BackedUp ==> r.is("event-backed-up"@),
        *kind matches EventKind::Failed { stage, kind, detail } ==> r.id@ == "event-failed"@
            && r.args@.len() == 2
            && r.args@[0].0@ == "stage"@ && (r.args@[0].1 matches Arg::Phrase(p) && p.is(stage_id(stage)))
            && r.args@[1].0@ == "reason"@ && (r.args@[1].1 matches Arg::Phrase(p) && explains(
                *p,
                EngineError { kind, detail, path: None },
            )),
        *kind matches EventKind::Skipped { kind } ==> r.id@ == "event-skipped"@ && r.args@.len() == 1
            && r.args@[0].0@ == "reason"@ && (r.args@[0].1 matches Arg::Phrase(p) && exists|e: EngineError|
                e.kind == kind && e.detail@.len() == 0 && e.path is None && #[trigger] explains(*p, e)),
        *kind matches EventKind::Checked { damaged } ==> if damaged {
            r.is("event-checked-damaged"@)
        } else {
            r.is("event-checked-sound"@)
        },
        *kind matches EventKind::CleanedUp { forgotten, freed } ==> r.id@ == "event-cleaned-up"@
            && r.args@.len() == 2
            && r.args@[0].0@ == "count"@ && r.args@[0].1 == Arg::Count(forgotten as i64)
            && r.args@[1].0@ == "size"@ && r.args@[1].1 == Arg::Size(freed),
{
    match kind {
        EventKind::BackedUp => Phrase::plain("event-backed-up"),
        EventKind::Failed { stage, kind, detail } => {
            let stage = match stage {
                Stage::Backup => Phrase::plain("event-stage-backup"),
                Stage::Check => Phrase::plain("event-stage-check"),
                Stage::Cleanup => Phrase::plain("event-stage-cleanup"),
            };
            let error = EngineError::new(*kind, detail.clone());
            let mut args: Vec<(String, Arg)> = Vec::new();
            args.push(("stage".to_owned(), Arg::Phrase(Box::new(stage))));
            args.push(("reason".to_owned(), Arg::Phrase(Box::new(explain(&error)))));
            Phrase { id: "event-failed".to_owned(), args }
        },
        EventKind::Skipped { kind } => {
            let error = EngineError::new(*kind, String::new());
            let reason = explain(&error);
            let r = Phrase::one("event-skipped", "reason", Arg::Phrase(Box::new(reason)));
            assert(explains(reason, error) && error.detail@.len() == 0);
            assert(r.args@[0].1 matches Arg::Phrase(p) && *p == reason);
            r
        },
        EventKind::Checked { damaged } => {
            if *damaged {
                Phrase::plain("event-checked-damaged")
            } else {
                Phrase::plain("event-checked-sound")
            }
        },
        EventKind::CleanedUp { forgotten, freed } => {
            let mut args: Vec<(String, Arg)> = Vec::new();
            args.push(("count".to_owned(), Arg::Count(*forgotten as i64)));
            args.push(("size".to_owned(), Arg::Size(*freed)));
            Phrase { id: "event-cleaned-up".to_owned(), args }
        },
    }
}

/// The message saying when a backup last succeeded, at `now`: never, just
/// now, or so many minutes, hours or days ago.
pub open spec fn backed_up_says(last: Option<i64>, now: i64, r: Phrase) -> bool {
    match last {
        None => r.is("never-backed-up"@),
        Some(time) => match ago_spec(now, time) {
            Ago::JustNow => r.is("backed-up-just-now"@),
            Ago::Minutes(count) => r.with("backed-up-minutes-ago"@, "count"@, Arg::Count(count)),
            Ago::Hours(count) => r.with("backed-up-hours-ago"@, "count"@, Arg::Count(count)),
            Ago::Days(count) => r.with("backed-up-days-ago"@, "count"@, Arg::Count(count)),
        },
    }
}

/// When a backup last succeeded, as a sentence, at `now`.
pub fn backed_up(last: Option<i64>, now: i64) -> (r: Phrase)
    requires
        last matches Some(time) ==> i64::MIN <= now - time <= i64::MAX,
    ensures
        backed_up_says(last, now, r),
{
    match last {
        None => Phrase::plain("never-backed-up"),
        Some(time) => match ago(now, time) {
            Ago::JustNow => Phrase::plain("backed-up-just-now"),
            Ago::Minutes(count) => Phrase::one("backed-up-minutes-ago", "count", Arg::Count(count)),
            Ago::Hours(count) => Phrase::one("backed-up-hours-ago", "count", Arg::Count(count)),
            Ago::Days(count) => Phrase::one("backed-up-days-ago", "count", Arg::Count(count)),
        },
    }
}

/// A backup, as the panel applet sees it.
#[derive(Debug, Clone, PartialEq, Eq)]
pub struct Status {
    pub running: bool,
    pub failed: bool,
    pub overdue: bool,
    /// The Unix time of the last successful backup.
    pub last_success: Option<i64>,
}

/// The panel icon for the busiest or most urgent thing across every
/// backup: running beats a warning, a warning beats the plain icon.
pub open spec fn icon_for(statuses: Seq<Status>) -> Seq<char> {
    if exists|i: int| 0 <= i < statuses.len() && #[trigger] statuses[i].running {
        "emblem-synchronizing-symbolic"@
    } else if exists|i: int| 0 <= i < statuses.len() && (#[trigger] statuses[i].failed || statuses[i].overdue) {
        "dialog-warning-symbolic"@
    } else {
        "io.github.stldave314.Stellarshot-symbolic"@
    }
}

/// The panel icon's name.
pub fn icon_name(statuses: &[Status]) -> (r: &'static str)
    ensures
        r@ == icon_for(statuses@),
{
    let mut i: usize = 0;
    while i < statuses.len()
        invariant
            i <= statuses@.len(),
            forall|j: int| 0 <= j < i ==> !(#[trigger] statuses@[j]).running,
        decreases statuses@.len() - i,
    {
        if statuses[i].running {
            return "emblem-synchronizing-symbolic";
        }
        i = i + 1;
    }
    let mut k: usize = 0;
    while k < statuses.len()
        invariant
            k <= statuses@.len(),
            forall|j: int| 0 <= j < statuses@.len() ==> !(#[trigger] statuses@[j]).running,
            forall|j: int| 0 <= j < k ==> !((#[trigger] statuses@[j]).failed || statuses@[j].overdue),
        decreases statuses@.len() - k,
    {
        if statuses[k].failed || statuses[k].overdue {
            return "dialog-warning-symbolic";
        }
        k = k + 1;
    }
    "io.github.stldave314.Stellarshot-symbolic"
}

/// What the applet says about one backup.
#[derive(Debug, PartialEq, Eq)]
pub enum StatusText {
    /// A message to translate.
    Phrase(Phrase),
    /// The time of the last success, to show as a local date and time.
    Time(i64),
}

/// What the applet says about `status`: that it is running, when it last
/// succeeded, or that it never has.
pub fn status_text(status: &Status) -> (r: StatusText)
    ensures
        if status.running {
            r matches StatusText::Phrase(p) && p.is("status-running"@)
        } else {
            match status.last_success {
                Some(t) => r == StatusText::Time(t),
                None => r matches StatusText::Phrase(p) && p.is("never-backed-up"@),
            }
        },
{
    if status.running {
        return StatusText::Phrase(Phrase::plain("status-running"));
    }
    match status.last_success {
        Some(time) => StatusText::Time(time),
        None => StatusText::Phrase(Phrase::plain("never-backed-up")),
    }
}

} // verus!
