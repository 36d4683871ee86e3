//! What follows a completed wizard, once the repository behind it was
//! created or opened: the profile that is saved, and what its page does.

use vstd::prelude::*;
use crate::engine::SnapshotSummary;
use crate::profile::{copy_texts, texts, Profile};
use crate::profile_page::{stepped, Effect, Message, ProfileState};
use crate::wizard::Mode;

verus! {

/// What finishing the wizard produced.
#[derive(Debug)]
pub struct Finished {
    pub mode: Mode,
    pub profile: Profile,
    pub secret: Option<String>,
    /// The repository's snapshots, newest first, when it was opened.
    pub snapshots: Vec<SnapshotSummary>,
}

/// An existing repository carries on as it was: the profile takes whether
/// it is append-only from the repository itself, and the folders and time
/// of its newest snapshot.
pub open spec fn adopted(before: Profile, append_only: bool, snapshots: Seq<SnapshotSummary>, after: Profile) -> bool {
    if snapshots.len() > 0 {
        &&& after == Profile {
            append_only,
            sources: after.sources,
            last_success: Some(snapshots[0].time),
            ..before
        }
        &&& texts(after.sources@) == texts(snapshots[0].paths@)
    } else {
        after == Profile { append_only, ..before }
    }
}

/// The profile behind an opened repository: append-only as the repository
/// says, and backing up what its newest snapshot backed up.
pub fn adopt(profile: Profile, append_only: bool, snapshots: &[SnapshotSummary]) -> (r: Profile)
    ensures
        adopted(profile, append_only, snapshots@, r),
{
    let mut profile = profile;
    profile.append_only = append_only;
    if snapshots.len() > 0 {
        profile.sources = copy_texts(&snapshots[0].paths);
        profile.last_success = Some(snapshots[0].time);
    }
    profile
}

/// The profile saved after the wizard: an edit keeps the time of the last
/// success from the saved profile `existing`, since a backup may have
/// finished while the wizard was open.
pub open spec fn saved_spec(mode: Mode, profile: Profile, existing: Option<Profile>) -> Profile {
    if (mode is Edit || mode is Schedule) && existing is Some {
        Profile { last_success: existing->0.last_success, ..profile }
    } else {
        profile
    }
}

/// The profile saved after the wizard.
pub fn saved(mode: &Mode, profile: Profile, existing: Option<&Profile>) -> (r: Profile)
    ensures
        r == saved_spec(*mode, profile, match existing {
            Some(p) => Some(*p),
            None => None,
        }),
{
    let mut profile = profile;
    match mode {
        Mode::Edit { .. } | Mode::Schedule { .. } => match existing {
            Some(p) => profile.last_success = p.last_success,
            None => {},
        },
        _ => {},
    }
    profile
}

/// What the page of the saved `profile` does once the wizard finished at
/// `now`: with the password, it is unlocked with the snapshots the wizard
/// read, and a new backup starts its first backup at once.
pub fn settle(finished: Finished, profile: &Profile, state: &mut ProfileState, now: i64) -> (r: Vec<Effect>)
    ensures
        match finished.secret {
            None => *final(state) == *old(state) && r@.len() == 0,
            Some(secret) => exists|opened: ProfileState, shown: Seq<Effect>|
                stepped(*old(state), Message::Opened(secret, Ok(finished.snapshots)), *profile, opened, shown, now)
                    && if finished.mode is Create {
                    crate::profile_page::backed_up(opened, *profile, now, *final(state), r@)
                } else {
                    *final(state) == opened && r@.len() == 0
                },
        },
{
    match finished.secret {
        None => Vec::new(),
        Some(secret) => {
            let shown = state.update(Message::Opened(secret, Ok(finished.snapshots)), profile, now);
            match finished.mode {
                Mode::Create => state.back_up(profile, now),
                _ => Vec::new(),
            }
        },
    }
}

} // verus!
