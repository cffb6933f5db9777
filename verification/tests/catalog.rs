//! Loading catalog documents: field defaults, schema violations, and the
//! install round trip.

use toolbox_core::catalog::{parse_catalog, program_from_parts, status_from_str, CatalogLoadError};
use toolbox_core::program::{ProgrammManipulation, ProgrammStatus, StatusMessageType};
use toolbox_core::registry::Registry;
use toolbox_core::state::{Message, ToolBox};

const GIT_CATALOG: &str = r#"{
    "name": "tools",
    "programms": [
        {
            "name": "Git",
            "description": "version control",
            "status": "NotInstalled",
            "installation": "winget install git",
            "deletion": ""
        }
    ]
}"#;

#[test]
fn catalog_parses_fields() {
    let cfg = parse_catalog(GIT_CATALOG).unwrap();
    assert_eq!(cfg.name, "tools");
    assert_eq!(cfg.programms.len(), 1);
    let p = &cfg.programms[0];
    assert_eq!(p.name, "Git");
    assert_eq!(p.description_md, "version control");
    assert_eq!(p.status, ProgrammStatus::NotInstalled);
    assert_eq!(p.installation, "winget install git");
    assert_eq!(p.deletion, "");
    assert!(p.call.is_none());
    assert!(p.docs_link.is_none());
}

#[test]
fn catalog_applies_defaults() {
    let text = r#"{"name":"c","programms":[
        {"name":"X","description":"d","installation":"i","deletion":"u"}
    ]}"#;
    let cfg = parse_catalog(text).unwrap();
    let p = &cfg.programms[0];
    assert_eq!(p.status, ProgrammStatus::NotInstalled);
    assert!(p.call.is_none());
    assert!(p.docs_link.is_none());
}

#[test]
fn catalog_keeps_optional_fields() {
    let text = r#"{"name":"c","programms":[
        {"name":"X","call":"x","description":"d","docs_link":"https://x.example",
         "status":"Installed","installation":"i","deletion":"u"}
    ]}"#;
    let cfg = parse_catalog(text).unwrap();
    let p = &cfg.programms[0];
    assert_eq!(p.call.as_deref(), Some("x"));
    assert_eq!(p.docs_link.as_deref(), Some("https://x.example"));
    assert_eq!(p.status, ProgrammStatus::Installed);
}

#[test]
fn catalog_rejects_malformed_text() {
    let r = parse_catalog("{ not json");
    assert!(matches!(r, Err(CatalogLoadError::Malformed(_))));
}

#[test]
fn catalog_rejects_missing_name() {
    let text = r#"{"programms":[]}"#;
    let r = parse_catalog(text);
    match r {
        Err(CatalogLoadError::Schema(key)) => assert_eq!(key, "name"),
        other => panic!("expected a schema error, got {:?}", other.is_ok()),
    }
}

#[test]
fn catalog_rejects_missing_description() {
    let text = r#"{"name":"c","programms":[{"name":"X","installation":"i","deletion":"u"}]}"#;
    match parse_catalog(text) {
        Err(CatalogLoadError::Schema(key)) => assert_eq!(key, "description"),
        other => panic!("expected a schema error, got {:?}", other.is_ok()),
    }
}

#[test]
fn catalog_rejects_empty_program_name() {
    let text = r#"{"name":"c","programms":[{"name":"","description":"d","installation":"i","deletion":"u"}]}"#;
    match parse_catalog(text) {
        Err(CatalogLoadError::Schema(key)) => assert_eq!(key, "name"),
        other => panic!("expected a schema error, got {:?}", other.is_ok()),
    }
}

#[test]
fn catalog_rejects_unknown_status() {
    let text = r#"{"name":"c","programms":[{"name":"X","description":"d","status":"Broken","installation":"i","deletion":"u"}]}"#;
    match parse_catalog(text) {
        Err(CatalogLoadError::Schema(key)) => assert_eq!(key, "status"),
        other => panic!("expected a schema error, got {:?}", other.is_ok()),
    }
}

#[test]
fn catalog_rejects_non_list_programms() {
    let text = r#"{"name":"c","programms":7}"#;
    match parse_catalog(text) {
        Err(CatalogLoadError::Schema(key)) => assert_eq!(key, "programms"),
        other => panic!("expected a schema error, got {:?}", other.is_ok()),
    }
}

#[test]
fn status_strings_parse_exactly() {
    assert_eq!(status_from_str("Installed"), Some(ProgrammStatus::Installed));
    assert_eq!(status_from_str("NotInstalled"), Some(ProgrammStatus::NotInstalled));
    assert_eq!(status_from_str("installed"), None);
    assert_eq!(status_from_str(""), None);
}

#[test]
fn program_from_parts_defaults_status() {
    let p = program_from_parts(
        "N".to_string(),
        None,
        "d".to_string(),
        None,
        None,
        "i".to_string(),
        "u".to_string(),
    );
    assert_eq!(p.status, ProgrammStatus::NotInstalled);
    assert_eq!(p.name, "N");
}

/// Loading the Git catalog and applying a successful install completion
/// leaves "Git" installed and the status channel idle.
#[test]
fn install_round_trip() {
    let cfg = parse_catalog(GIT_CATALOG).unwrap();
    let reg = Registry::from_catalog(&cfg);
    let mut tb = ToolBox::new(reg, cfg.name);
    let eff = tb.update(Message::Manipulationresult(
        ProgrammManipulation::Install,
        "Git".to_string(),
        Ok(()),
    ));
    assert!(eff.is_none());
    let p = tb.programms.lookup("Git").unwrap();
    assert_eq!(p.status, ProgrammStatus::Installed);
    assert_eq!(tb.status_message.0, "Ok");
    assert_eq!(tb.status_message.1, StatusMessageType::Success);
}
