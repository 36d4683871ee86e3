//! What went wrong in the backup engine, and what to tell the user about it.

use vstd::prelude::*;
use crate::i18n::{Arg, Phrase};

verus! {

/// The kinds of failure the engine reports.
#[derive(Debug, Clone, Copy, PartialEq, Eq, Structural)]
pub enum ErrorKind {
    WrongPassword,
    NotARepository,
    AlreadyExists,
    LocationNotEmpty,
    DestinationUnavailable,
    Locked,
    Cancelled,
    RepositoryDamaged,
    RcloneMissing,
    PasswordNotRemembered,
    AuthFailed,
    TimedOut,
    Io,
    Internal,
}

/// A failure, with rustic's own detail and, where one is known, the path
/// it concerns.
#[derive(Debug, Clone, PartialEq, Eq)]
pub struct EngineError {
    pub kind: ErrorKind,
    pub detail: String,
    pub path: Option<String>,
}

impl EngineError {
    /// A failure of `kind` with `detail`.
    pub fn new(kind: ErrorKind, detail: String) -> (r: EngineError)
        ensures
            r.kind == kind,
            r.detail == detail,
            r.path is None,
    {
        EngineError { kind, detail, path: None }
    }

    /// The path the failure is about, or else its detail.
    pub open spec fn place(&self) -> Seq<char> {
        match self.path {
            Some(p) => p@,
            None => self.detail@,
        }
    }
}

/// What a destination holds, as a probe finds it.
#[derive(Debug, Clone, Copy, PartialEq, Eq, Structural)]
pub enum Probe {
    /// Nothing: a new repository can be made there.
    Empty,
    /// A repository.
    Repository,
    /// Other files: neither.
    NotEmpty,
}

/// The message that explains a failure of `kind`, and the argument it
/// shows: the path for failures about a place, the detail for the rest
/// that have one.
pub open spec fn explanation(e: EngineError) -> (Seq<char>, Option<(Seq<char>, Seq<char>)>) {
    match e.kind {
        ErrorKind::WrongPassword => ("error-wrong-password"@, None),
        ErrorKind::NotARepository => ("error-not-a-repository"@, Some(("path"@, e.place()))),
        ErrorKind::AlreadyExists => ("error-already-exists"@, Some(("path"@, e.place()))),
        ErrorKind::LocationNotEmpty => ("location-not-empty"@, Some(("path"@, e.place()))),
        ErrorKind::DestinationUnavailable => ("error-destination-unavailable"@, Some(("path"@, e.detail@))),
        ErrorKind::Locked => ("error-locked"@, None),
        ErrorKind::Cancelled => ("error-cancelled"@, None),
        ErrorKind::RepositoryDamaged => ("error-repository-damaged"@, None),
        ErrorKind::RcloneMissing => ("error-rclone-missing"@, None),
        ErrorKind::PasswordNotRemembered => ("error-password-not-remembered"@, None),
        ErrorKind::AuthFailed => ("error-auth-failed"@, Some(("details"@, e.detail@))),
        ErrorKind::TimedOut => ("error-timed-out"@, Some(("seconds"@, e.detail@))),
        ErrorKind::Io | ErrorKind::Internal => ("error-details"@, Some(("details"@, e.detail@))),
    }
}

/// `p` is the message `explanation` names.
pub open spec fn explains(p: Phrase, e: EngineError) -> bool {
    let (id, arg) = explanation(e);
    match arg {
        None => p.is(id),
        Some((name, text)) => p.id@ == id && p.args@.len() == 1 && p.args@[0].0@ == name
            && (p.args@[0].1 matches Arg::Text(t) && t@ == text),
    }
}

/// The explanation of `error` on its own, without saying what was being
/// attempted. Kinds with a clear cause get their own sentence; the rest
/// keep rustic's detail, which cannot be translated, under a heading.
pub fn explain(error: &EngineError) -> (r: Phrase)
    ensures
        explains(r, *error),
{
    let path = match &error.path {
        Some(p) => p.clone(),
        None => error.detail.clone(),
    };
    match error.kind {
        ErrorKind::WrongPassword => Phrase::plain("error-wrong-password"),
        ErrorKind::NotARepository => Phrase::one("error-not-a-repository", "path", Arg::Text(path)),
        ErrorKind::AlreadyExists => Phrase::one("error-already-exists", "path", Arg::Text(path)),
        ErrorKind::LocationNotEmpty => Phrase::one("location-not-empty", "path", Arg::Text(path)),
        ErrorKind::DestinationUnavailable => Phrase::one(
            "error-destination-unavailable",
            "path",
            Arg::Text(error.detail.clone()),
        ),
        ErrorKind::Locked => Phrase::plain("error-locked"),
        ErrorKind::Cancelled => Phrase::plain("error-cancelled"),
        ErrorKind::RepositoryDamaged => Phrase::plain("error-repository-damaged"),
        ErrorKind::RcloneMissing => Phrase::plain("error-rclone-missing"),
        ErrorKind::PasswordNotRemembered => Phrase::plain("error-password-not-remembered"),
        ErrorKind::AuthFailed => Phrase::one(
            "error-auth-failed",
            "details",
            Arg::Text(error.detail.clone()),
        ),
        ErrorKind::TimedOut => Phrase::one("error-timed-out", "seconds", Arg::Text(error.detail.clone())),
        ErrorKind::Io | ErrorKind::Internal => Phrase::one(
            "error-details",
            "details",
            Arg::Text(error.detail.clone()),
        ),
    }
}

/// A failure as the user is told of it: what was being attempted, then
/// why it failed.
#[derive(Debug, PartialEq, Eq)]
pub struct Described {
    /// What was being attempted; absent for a cancellation, which the user
    /// asked for.
    pub context: Option<String>,
    pub reason: Phrase,
}

/// The explanation of `error`, after `context` ("The snapshot could not be
/// created."), which is left out when the user cancelled.
pub fn describe(context: &str, error: &EngineError) -> (r: Described)
    ensures
        explains(r.reason, *error),
        match r.context {
            Some(c) => error.kind != ErrorKind::Cancelled && c@ == context@,
            None => error.kind == ErrorKind::Cancelled,
        },
{
    let reason = explain(error);
    match error.kind {
        ErrorKind::Cancelled => Described { context: None, reason },
        _ => Described { context: Some(context.to_owned()), reason },
    }
}

} // verus!
