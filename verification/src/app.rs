//! The window's own small rules: its context pages, menu actions, and the
//! dialogs that ask before something is removed or deleted.

use vstd::prelude::*;
use crate::config::AppTheme;
use crate::dejadup::{Import, Place};
use crate::errors::EngineError;
use crate::i18n::{Arg, Phrase};
use crate::profile::Profile;

verus! {

/// The pages the window's side drawer shows.
#[derive(Clone, Copy, Debug, Eq, PartialEq, Structural)]
pub enum ContextPage {
    About,
    Settings,
}

impl ContextPage {
    /// The page's title.
    pub fn title(&self) -> (r: Phrase)
        ensures
            match self {
                ContextPage::About => r.is("about"@),
                ContextPage::Settings => r.is("settings"@),
            },
    {
        match self {
            ContextPage::About => Phrase::plain("about"),
            ContextPage::Settings => Phrase::plain("settings"),
        }
    }
}

/// The menu's actions.
#[derive(Clone, Copy, Debug, Eq, PartialEq, Structural)]
pub enum Action {
    About,
    NewBackup,
    BackUpNow,
    ImportDejaDup,
    Settings,
    WindowClose,
    WindowNew,
}

/// A modal dialog.
#[derive(Clone, Debug, Eq, PartialEq)]
pub enum Dialog {
    /// A localized explanation of something that failed.
    Error(String),
    /// Something finished, and here is what happened.
    Info(String, String),
    /// Forget a profile; its data stays.
    Remove { id: String, name: String },
    /// Delete a profile's repository and everything in it.
    DeleteAll { id: String, name: String, typed: String, busy: bool },
}

impl Dialog {
    /// The dialog may be confirmed: deleting everything needs the profile's
    /// name typed exactly, and no delete already running; every other
    /// dialog can always be confirmed.
    pub open spec fn confirmable(&self) -> bool {
        match self {
            Dialog::DeleteAll { name, typed, busy, .. } => !*busy && typed@ == name@,
            _ => true,
        }
    }

    /// Whether the dialog may be confirmed. The name is compared as typed:
    /// not trimmed, not case-folded.
    pub fn can_confirm(&self) -> (r: bool)
        ensures
            r == self.confirmable(),
    {
        match self {
            Dialog::DeleteAll { name, typed, busy, .. } => !*busy && *typed == *name,
            _ => true,
        }
    }
}

/// What the user or a finished task tells a dialog.
#[derive(Debug)]
pub enum DialogMessage {
    Close,
    Confirm,
    Typed(String),
    Deleted(String, Result<(), EngineError>),
    /// Show an error from a background task.
    Failed(String, EngineError),
}

/// What the application must do after a dialog message.
#[derive(Debug)]
pub enum DialogAction {
    Nothing,
    /// Forget the profile `id`; its data stays.
    RemoveProfile(String),
    /// Delete the repository of the profile `id`, then report `Deleted`.
    DeleteRepository(String),
    /// Tell the user that `error` happened while doing what `context` says.
    ShowError { context: DialogContext, error: EngineError },
}

/// What was being attempted when an error came.
#[derive(Debug)]
pub enum DialogContext {
    /// Text the task gave, already in the user's language.
    Text(String),
    /// A message still to translate.
    Phrase(Phrase),
}

/// The profile `id` is among `profiles`.
pub open spec fn known(profiles: Seq<Profile>, id: Seq<char>) -> bool {
    exists|i: int| 0 <= i < profiles.len() && #[trigger] profiles[i].id@ == id
}

/// Whether the profile `id` is among `profiles`.
fn is_known(profiles: &[Profile], id: &String) -> (r: bool)
    ensures
        r == known(profiles@, id@),
{
    let mut i: usize = 0;
    while i < profiles.len()
        invariant
            i <= profiles@.len(),
            forall|j: int| 0 <= j < i ==> #[trigger] profiles@[j].id@ != id@,
        decreases profiles@.len() - i,
    {
        if profiles[i].id == *id {
            return true;
        }
        i = i + 1;
    }
    false
}

/// The dialog after `message`, and what the application must do.
///
/// Closing closes. Typing changes only what a delete-everything dialog
/// holds as typed. Confirming does nothing while the dialog cannot be
/// confirmed; otherwise an error or information dialog closes, a remove
/// dialog closes and forgets the profile, and a delete dialog for a known
/// profile turns busy and starts the delete. A finished delete closes the
/// dialog and forgets the profile, or, if it failed, reports why.
pub fn dialog_step(dialog: Option<Dialog>, message: DialogMessage, profiles: &[Profile]) -> (r: (
    Option<Dialog>,
    DialogAction,
))
    ensures
        match message {
            DialogMessage::Close => r.0 is None && r.1 is Nothing,
            DialogMessage::Typed(text) => r.1 is Nothing && match dialog {
                Some(Dialog::DeleteAll { id, name, busy, .. }) => r.0 == Some(
                    Dialog::DeleteAll { id, name, typed: text, busy },
                ),
                _ => r.0 == dialog,
            },
            DialogMessage::Confirm => match dialog {
                None => r.0 is None && r.1 is Nothing,
                Some(d) => if !d.confirmable() {
                    r.0 == dialog && r.1 is Nothing
                } else {
                    match d {
                        Dialog::Error(_) | Dialog::Info(..) => r.0 is None && r.1 is Nothing,
                        Dialog::Remove { id, .. } => r.0 is None && r.1 == DialogAction::RemoveProfile(id),
                        Dialog::DeleteAll { id, name, typed, .. } => if known(profiles@, id@) {
                            r.0 == Some(Dialog::DeleteAll { id, name, typed, busy: true })
                                && r.1 == DialogAction::DeleteRepository(id)
                        } else {
                            r.0 == dialog && r.1 is Nothing
                        },
                    }
                },
            },
            DialogMessage::Failed(context, error) => r.0 == dialog && r.1 == DialogAction::ShowError {
                context: DialogContext::Text(context),
                error,
            },
            DialogMessage::Deleted(id, result) => match result {
                Ok(()) => r.0 is None && r.1 == DialogAction::RemoveProfile(id),
                Err(error) => r.0 == dialog && (r.1 matches DialogAction::ShowError {
                    context: DialogContext::Phrase(p),
                    error: e,
                } && p.is("delete-repo-failed"@) && e == error),
            },
        },
{
    match message {
        DialogMessage::Close => (None, DialogAction::Nothing),
        DialogMessage::Typed(text) => match dialog {
            Some(Dialog::DeleteAll { id, name, busy, .. }) => (
                Some(Dialog::DeleteAll { id, name, typed: text, busy }),
                DialogAction::Nothing,
            ),
            other => (other, DialogAction::Nothing),
        },
        DialogMessage::Confirm => {
            let d = match dialog {
                None => return (None, DialogAction::Nothing),
                Some(d) => d,
            };
            if !d.can_confirm() {
                return (Some(d), DialogAction::Nothing);
            }
            match d {
                Dialog::Error(_) | Dialog::Info(..) => (None, DialogAction::Nothing),
                Dialog::Remove { id, .. } => (None, DialogAction::RemoveProfile(id)),
                Dialog::DeleteAll { id, name, typed, busy } => {
                    if !is_known(profiles, &id) {
                        return (Some(Dialog::DeleteAll { id, name, typed, busy }), DialogAction::Nothing);
                    }
                    let action = DialogAction::DeleteRepository(id.clone());
                    (Some(Dialog::DeleteAll { id, name, typed, busy: true }), action)
                },
            }
        },
        DialogMessage::Failed(context, error) => (
            dialog,
            DialogAction::ShowError { context: DialogContext::Text(context), error },
        ),
        DialogMessage::Deleted(id, result) => match result {
            Ok(()) => (None, DialogAction::RemoveProfile(id)),
            Err(error) => (
                dialog,
                DialogAction::ShowError {
                    context: DialogContext::Phrase(Phrase::plain("delete-repo-failed")),
                    error,
                },
            ),
        },
    }
}

/// A delete-everything dialog that is already deleting cannot start a
/// second delete, whatever has been typed.
pub proof fn lemma_no_second_delete(id: String, name: String, typed: String)
    ensures
        !(Dialog::DeleteAll { id, name, typed, busy: true }).confirmable(),
{
}

/// A delete-everything dialog is confirmed only by the name itself, typed
/// exactly.
pub proof fn lemma_delete_needs_the_exact_name(id: String, name: String, typed: String)
    ensures
        (Dialog::DeleteAll { id, name, typed, busy: false }).confirmable() <==> typed@ == name@,
{
}

/// The theme at `index` in the settings' list, which reads "match
/// desktop", "dark", "light": any index but those of dark and light
/// matches the desktop.
pub open spec fn theme_at_spec(index: usize) -> AppTheme {
    if index == 1 {
        AppTheme::Dark
    } else if index == 2 {
        AppTheme::Light
    } else {
        AppTheme::System
    }
}

/// The index of `theme` in the settings' list.
pub open spec fn theme_index_spec(theme: AppTheme) -> usize {
    match theme {
        AppTheme::System => 0,
        AppTheme::Dark => 1,
        AppTheme::Light => 2,
    }
}

/// The theme picked at `index` in the settings' list.
pub fn theme_at(index: usize) -> (r: AppTheme)
    ensures
        r == theme_at_spec(index),
{
    if index == 1 {
        AppTheme::Dark
    } else if index == 2 {
        AppTheme::Light
    } else {
        AppTheme::System
    }
}

/// Where the settings' list shows `theme` as picked.
pub fn theme_index(theme: AppTheme) -> (r: usize)
    ensures
        r == theme_index_spec(theme),
{
    match theme {
        AppTheme::System => 0,
        AppTheme::Dark => 1,
        AppTheme::Light => 2,
    }
}

/// Picking the theme the list shows as picked gives that theme back.
pub proof fn lemma_theme_round_trip(theme: AppTheme)
    ensures
        theme_at_spec(theme_index_spec(theme)) == theme,
{
}

/// What looking for Déjà Dup's settings gives: the import to open the
/// wizard with, or the error to show: nothing was found, Déjà Dup keeps its
/// backups in another format, or in a place Stellarshot cannot use.
pub fn dejadup_found(found: Option<Import>) -> (r: Result<Import, Phrase>)
    ensures
        match found {
            None => r matches Err(p) && p.is("dejadup-none"@),
            Some(import) => if import.other_format {
                r matches Err(p) && p.is("dejadup-other-format"@)
            } else if import.place is Unsupported {
                r matches Err(p) && p.with(
                    "dejadup-unsupported"@,
                    "backend"@,
                    Arg::Text(import.place->Unsupported_0),
                )
            } else {
                r == Ok::<Import, Phrase>(import)
            },
        },
{
    match found {
        None => Err(Phrase::plain("dejadup-none")),
        Some(import) => {
            if import.other_format {
                return Err(Phrase::plain("dejadup-other-format"));
            }
            if let Place::Unsupported(backend) = &import.place {
                return Err(Phrase::one("dejadup-unsupported", "backend", Arg::Text(backend.clone())));
            }
            Ok(import)
        },
    }
}

} // verus!
