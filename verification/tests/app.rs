use stellarshot::app::{dialog_step, ContextPage, Dialog, DialogAction, DialogMessage};
use stellarshot::config::{NetworkScope, WebConfig};
use stellarshot::errors::{EngineError, ErrorKind};
use stellarshot::profile::{Destination, Profile};

fn delete_dialog(typed: &str) -> Dialog {
    Dialog::DeleteAll {
        id: "x".into(),
        name: "Home".into(),
        typed: typed.into(),
        busy: false,
    }
}

#[test]
fn delete_requires_the_exact_name() {
    assert!(!delete_dialog("").can_confirm());
    assert!(!delete_dialog("home").can_confirm(), "case matters");
    assert!(!delete_dialog("Home ").can_confirm(), "no trailing space");
    assert!(!delete_dialog("Hom").can_confirm());
    assert!(delete_dialog("Home").can_confirm());

    let busy = Dialog::DeleteAll {
        id: "x".into(),
        name: "Home".into(),
        typed: "Home".into(),
        busy: true,
    };
    assert!(!busy.can_confirm(), "not twice while the first delete runs");
}

#[test]
fn other_dialogs_confirm_freely() {
    assert!(Dialog::Error("x".into()).can_confirm());
    assert!(Dialog::Remove { id: "x".into(), name: "Home".into() }.can_confirm());
}

#[test]
fn the_web_interface_defaults_to_off() {
    assert_eq!(WebConfig::default().scope, NetworkScope::Off);
}

fn profile(id: &str) -> Profile {
    Profile::new(
        id.into(),
        "Home".into(),
        Destination::Local { path: "/backup".into() },
        vec!["/home/alex".into()],
    )
}

#[test]
fn confirming_a_delete_starts_it_once() {
    let profiles = vec![profile("x")];
    let (dialog, action) = dialog_step(Some(delete_dialog("Home")), DialogMessage::Confirm, &profiles);
    assert!(matches!(action, DialogAction::DeleteRepository(ref id) if id == "x"));
    assert!(matches!(dialog, Some(Dialog::DeleteAll { busy: true, .. })));
    let (_, again) = dialog_step(dialog, DialogMessage::Confirm, &profiles);
    assert!(matches!(again, DialogAction::Nothing), "not twice while the first delete runs");
}

#[test]
fn typing_updates_only_the_delete_dialog() {
    let (dialog, _) = dialog_step(Some(delete_dialog("Ho")), DialogMessage::Typed("Home".into()), &[]);
    assert_eq!(dialog, Some(delete_dialog("Home")));
    let (dialog, _) = dialog_step(Some(Dialog::Error("x".into())), DialogMessage::Typed("Home".into()), &[]);
    assert_eq!(dialog, Some(Dialog::Error("x".into())));
}

#[test]
fn a_finished_delete_forgets_the_profile_and_a_failed_one_reports() {
    let (dialog, action) = dialog_step(Some(delete_dialog("Home")), DialogMessage::Deleted("x".into(), Ok(())), &[]);
    assert_eq!(dialog, None);
    assert!(matches!(action, DialogAction::RemoveProfile(ref id) if id == "x"));
    let failure = EngineError::new(ErrorKind::Locked, String::new());
    let (dialog, action) = dialog_step(Some(delete_dialog("Home")), DialogMessage::Deleted("x".into(), Err(failure)), &[]);
    assert!(dialog.is_some());
    assert!(matches!(action, DialogAction::ShowError { .. }));
}

#[test]
fn removing_forgets_and_closing_closes() {
    let remove = Dialog::Remove { id: "x".into(), name: "Home".into() };
    let (dialog, action) = dialog_step(Some(remove), DialogMessage::Confirm, &[]);
    assert_eq!(dialog, None);
    assert!(matches!(action, DialogAction::RemoveProfile(ref id) if id == "x"));
    let (dialog, action) = dialog_step(Some(delete_dialog("Home")), DialogMessage::Close, &[]);
    assert_eq!(dialog, None);
    assert!(matches!(action, DialogAction::Nothing));
}

#[test]
fn context_pages_have_titles() {
    assert_eq!(ContextPage::About.title().id, "about");
    assert_eq!(ContextPage::Settings.title().id, "settings");
}
