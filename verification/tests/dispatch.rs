//! Dispatching intents: effects handed to the driver, tracked-completion
//! correlation, the status channel, and navigation.

use toolbox_core::program::{ConfigLoad, Programm, ProgrammManipulation, ProgrammStatus, StatusMessageType};
use toolbox_core::registry::Registry;
use toolbox_core::state::{script_outcome, ControlMenuVariations, Effect, Message, SearchKey, ToolBox};

fn entry(name: &str, call: Option<&str>, docs: Option<&str>, install: &str, del: &str) -> Programm {
    Programm {
        name: name.to_string(),
        call: call.map(|s| s.to_string()),
        description_md: "d".to_string(),
        docs_link: docs.map(|s| s.to_string()),
        status: ProgrammStatus::NotInstalled,
        installation: install.to_string(),
        deletion: del.to_string(),
    }
}

fn toolbox(programms: Vec<Programm>) -> ToolBox {
    let cfg = ConfigLoad { name: "c".to_string(), programms };
    ToolBox::new(Registry::from_catalog(&cfg), cfg.name)
}

/// A completion lands on the program named at dispatch time, even after the
/// selection moved on: "Foo" is installed, "Bar" stays untouched.
#[test]
fn completion_targets_captured_name() {
    let mut tb = toolbox(vec![
        entry("Foo", None, None, "install foo", "remove foo"),
        entry("Bar", None, None, "install bar", "remove bar"),
    ]);
    tb.update(Message::SelectProgrammFromList("Foo".to_string()));
    let eff = tb.update(Message::ManipulateProgramm(ProgrammManipulation::Install));
    let (kind, name, script) = match eff {
        Some(Effect::RunTracked { kind, name, script }) => (kind, name, script),
        _ => panic!("expected a tracked run"),
    };
    assert_eq!(kind, ProgrammManipulation::Install);
    assert_eq!(name, "Foo");
    assert_eq!(script, "install foo");

    tb.update(Message::SelectProgrammFromList("Bar".to_string()));
    tb.update(Message::Manipulationresult(kind, name, Ok(())));

    assert_eq!(tb.programms.lookup("Foo").unwrap().status, ProgrammStatus::Installed);
    assert_eq!(tb.programms.lookup("Bar").unwrap().status, ProgrammStatus::NotInstalled);
    assert_eq!(tb.current_programm.as_ref().unwrap().name, "Bar");
    assert_eq!(tb.current_programm.as_ref().unwrap().status, ProgrammStatus::NotInstalled);
}

/// A completion for the still-selected program also refreshes the in-view
/// copy.
#[test]
fn completion_updates_selected_copy() {
    let mut tb = toolbox(vec![entry("Foo", None, None, "i", "u")]);
    tb.update(Message::SelectProgrammFromList("Foo".to_string()));
    tb.update(Message::Manipulationresult(
        ProgrammManipulation::Install,
        "Foo".to_string(),
        Ok(()),
    ));
    assert_eq!(tb.current_programm.as_ref().unwrap().status, ProgrammStatus::Installed);
}

/// A failed uninstall surfaces its error text on the status channel and
/// leaves the registry status untouched.
#[test]
fn failed_uninstall_reports_error_and_keeps_status() {
    let mut tb = toolbox(vec![entry("Foo", None, None, "i", "u")]);
    tb.update(Message::Manipulationresult(
        ProgrammManipulation::Install,
        "Foo".to_string(),
        Ok(()),
    ));
    assert_eq!(tb.programms.lookup("Foo").unwrap().status, ProgrammStatus::Installed);

    tb.update(Message::Manipulationresult(
        ProgrammManipulation::Uninstall,
        "Foo".to_string(),
        Err("permission denied".to_string()),
    ));
    assert!(tb.status_message.0.contains("permission denied"));
    assert_eq!(tb.status_message.1, StatusMessageType::Error);
    assert_eq!(tb.programms.lookup("Foo").unwrap().status, ProgrammStatus::Installed);
}

/// A completion whose captured name no longer exists is a silent no-op.
#[test]
fn completion_for_unknown_name_is_noop() {
    let mut tb = toolbox(vec![entry("Foo", None, None, "i", "u")]);
    tb.update(Message::Manipulationresult(
        ProgrammManipulation::Install,
        "Ghostly".to_string(),
        Ok(()),
    ));
    assert_eq!(tb.programms.len(), 1);
    assert_eq!(tb.programms.lookup("Foo").unwrap().status, ProgrammStatus::NotInstalled);
    assert!(tb.programms.lookup("Ghostly").is_none());
}

#[test]
fn manipulate_uses_deletion_script_for_uninstall() {
    let mut tb = toolbox(vec![entry("Foo", None, None, "i", "remove it")]);
    tb.update(Message::SelectProgrammFromList("Foo".to_string()));
    let eff = tb.update(Message::ManipulateProgramm(ProgrammManipulation::Uninstall));
    match eff {
        Some(Effect::RunTracked { kind, name, script }) => {
            assert_eq!(kind, ProgrammManipulation::Uninstall);
            assert_eq!(name, "Foo");
            assert_eq!(script, "remove it");
        }
        _ => panic!("expected a tracked run"),
    }
}

#[test]
fn manipulate_without_selection_does_nothing() {
    let mut tb = toolbox(vec![entry("Foo", None, None, "i", "u")]);
    let eff = tb.update(Message::ManipulateProgramm(ProgrammManipulation::Install));
    assert!(eff.is_none());
}

#[test]
fn run_default_uses_invocation_alias() {
    let mut tb = toolbox(vec![entry("Foo", Some("foo-cli"), None, "i", "u")]);
    tb.update(Message::SelectProgrammFromList("Foo".to_string()));
    let eff = tb.update(Message::RunProgrammDefault);
    match eff {
        Some(Effect::RunDetached { script }) => assert_eq!(script, "foo-cli"),
        _ => panic!("expected a detached run"),
    }
}

#[test]
fn run_default_without_alias_does_nothing() {
    let mut tb = toolbox(vec![entry("Foo", None, None, "i", "u")]);
    tb.update(Message::SelectProgrammFromList("Foo".to_string()));
    assert!(tb.update(Message::RunProgrammDefault).is_none());
}

#[test]
fn open_docs_uses_docs_link() {
    let mut tb = toolbox(vec![entry("Foo", None, Some("https://docs.example"), "i", "u")]);
    tb.update(Message::SelectProgrammFromList("Foo".to_string()));
    match tb.update(Message::OpenDocsOnline) {
        Some(Effect::OpenUrl { url }) => assert_eq!(url, "https://docs.example"),
        _ => panic!("expected an open-url effect"),
    }
}

#[test]
fn open_containing_folder_uses_alias() {
    let mut tb = toolbox(vec![entry("Foo", Some("foo"), None, "i", "u")]);
    tb.update(Message::SelectProgrammFromList("Foo".to_string()));
    match tb.update(Message::OpenContainingFolder) {
        Some(Effect::OpenFolderOf { call }) => assert_eq!(call, "foo"),
        _ => panic!("expected an open-folder effect"),
    }
}

#[test]
fn open_link_passes_url_through() {
    let mut tb = toolbox(vec![]);
    match tb.update(Message::OpenLink("https://x.example".to_string())) {
        Some(Effect::OpenUrl { url }) => assert_eq!(url, "https://x.example"),
        _ => panic!("expected an open-url effect"),
    }
}

#[test]
fn report_error_overwrites_status_channel() {
    let mut tb = toolbox(vec![]);
    assert_eq!(tb.status_message.0, "Ok");
    tb.update(Message::ReportError("Can't open link: denied".to_string()));
    assert_eq!(tb.status_message.0, "Can't open link: denied");
    assert_eq!(tb.status_message.1, StatusMessageType::Error);
}

#[test]
fn navigation_changes_screen_and_resets_search() {
    let mut tb = toolbox(vec![entry("Alpha", None, None, "i", "u")]);
    tb.update(Message::SearchKey(SearchKey::Character("A".to_string())));
    assert!(tb.search_selected);
    let eff = tb.update(Message::ControlMenuBtn(ControlMenuVariations::ConfigsMenu));
    assert!(eff.is_none());
    assert_eq!(tb.cur_menu, ControlMenuVariations::ConfigsMenu);
    assert!(!tb.search_selected);
    assert_eq!(tb.search_text, "");
}

#[test]
fn entering_help_requests_the_help_source() {
    let mut tb = toolbox(vec![]);
    let eff = tb.update(Message::ControlMenuBtn(ControlMenuVariations::HelpMenu));
    assert!(matches!(eff, Some(Effect::LoadHelp)));
    assert_eq!(tb.cur_menu, ControlMenuVariations::HelpMenu);
}

#[test]
fn help_loads_soft_with_placeholder() {
    let mut tb = toolbox(vec![]);
    tb.update(Message::ControlMenuBtn(ControlMenuVariations::HelpMenu));
    tb.update(Message::HelpLoaded(None));
    assert_eq!(
        tb.help_text,
        "Can't find a README.md file, help and docs stored in it."
    );
    tb.update(Message::HelpLoaded(Some("# Help".to_string())));
    assert_eq!(tb.help_text, "# Help");
}

#[test]
fn exit_navigation_emits_exit_effect() {
    let mut tb = toolbox(vec![]);
    let eff = tb.update(Message::ControlMenuBtn(ControlMenuVariations::ExitProgramm));
    assert!(matches!(eff, Some(Effect::Exit)));
}

#[test]
fn escape_outside_search_heads_for_exit() {
    let mut tb = toolbox(vec![]);
    let eff = tb.update(Message::SearchKey(SearchKey::Escape));
    assert!(matches!(eff, Some(Effect::Exit)));
    assert_eq!(tb.cur_menu, ControlMenuVariations::ExitProgramm);
}

#[test]
fn script_outcome_maps_exit_flag_and_stderr() {
    assert_eq!(script_outcome(true, String::new()), Ok(()));
    assert_eq!(script_outcome(true, "ignored".to_string()), Ok(()));
    assert_eq!(
        script_outcome(false, "permission denied".to_string()),
        Err("Installation failed: permission denied".to_string())
    );
}

#[test]
fn selecting_unknown_name_keeps_selection() {
    let mut tb = toolbox(vec![entry("Foo", None, None, "i", "u")]);
    tb.update(Message::SelectProgrammFromList("Foo".to_string()));
    tb.update(Message::SelectProgrammFromList("Nope".to_string()));
    assert_eq!(tb.current_programm.as_ref().unwrap().name, "Foo");
}
