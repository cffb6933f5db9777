//! The registry: unique keys, lexicographic order, overwrite policy, and
//! status updates.

use toolbox_core::program::{ConfigLoad, Programm, ProgrammStatus};
use toolbox_core::registry::Registry;

fn entry(name: &str, status: ProgrammStatus) -> Programm {
    Programm {
        name: name.to_string(),
        call: None,
        description_md: String::new(),
        docs_link: None,
        status,
        installation: String::new(),
        deletion: String::new(),
    }
}

fn catalog(names: &[&str]) -> ConfigLoad {
    ConfigLoad {
        name: "c".to_string(),
        programms: names
            .iter()
            .map(|n| entry(n, ProgrammStatus::NotInstalled))
            .collect(),
    }
}

#[test]
fn registry_one_entry_per_distinct_name() {
    let reg = Registry::from_catalog(&catalog(&["B", "A", "B", "C", "A"]));
    assert_eq!(reg.len(), 3);
    assert!(reg.lookup("A").is_some());
    assert!(reg.lookup("B").is_some());
    assert!(reg.lookup("C").is_some());
    assert!(reg.lookup("D").is_none());
}

#[test]
fn registry_later_duplicate_wins() {
    let mut cfg = catalog(&["Tool"]);
    cfg.programms.push(entry("Tool", ProgrammStatus::Installed));
    let reg = Registry::from_catalog(&cfg);
    assert_eq!(reg.len(), 1);
    let p = reg.lookup("Tool").unwrap();
    assert_eq!(p.status, ProgrammStatus::Installed);
}

#[test]
fn registry_orders_names_lexicographically() {
    let reg = Registry::from_catalog(&catalog(&["Banana", "Apple", "Alpha", "alpha"]));
    let names = reg.ordered_names();
    let expected: Vec<String> = ["Alpha", "Apple", "Banana", "alpha"]
        .iter()
        .map(|s| s.to_string())
        .collect();
    assert_eq!(names, expected);
}

#[test]
fn registry_iter_ordered_follows_name_order() {
    let reg = Registry::from_catalog(&catalog(&["b", "a"]));
    let items = reg.iter_ordered();
    assert_eq!(items.len(), 2);
    assert_eq!(items[0].name, "a");
    assert_eq!(items[1].name, "b");
}

#[test]
fn registry_set_status_updates_entry() {
    let mut reg = Registry::from_catalog(&catalog(&["A", "B"]));
    reg.set_status("A", ProgrammStatus::Installed);
    assert_eq!(reg.lookup("A").unwrap().status, ProgrammStatus::Installed);
    assert_eq!(reg.lookup("B").unwrap().status, ProgrammStatus::NotInstalled);
}

#[test]
fn registry_set_status_absent_name_is_noop() {
    let mut reg = Registry::from_catalog(&catalog(&["A"]));
    reg.set_status("Missing", ProgrammStatus::Installed);
    assert_eq!(reg.len(), 1);
    assert_eq!(reg.lookup("A").unwrap().status, ProgrammStatus::NotInstalled);
    assert!(reg.lookup("Missing").is_none());
}

#[test]
fn registry_lookup_returns_full_entry() {
    let cfg = ConfigLoad {
        name: "c".to_string(),
        programms: vec![Programm {
            name: "X".to_string(),
            call: Some("x".to_string()),
            description_md: "doc".to_string(),
            docs_link: Some("https://x.example".to_string()),
            status: ProgrammStatus::Installed,
            installation: "inst".to_string(),
            deletion: "del".to_string(),
        }],
    };
    let reg = Registry::from_catalog(&cfg);
    let p = reg.lookup("X").unwrap();
    assert_eq!(p.call.as_deref(), Some("x"));
    assert_eq!(p.description_md, "doc");
    assert_eq!(p.docs_link.as_deref(), Some("https://x.example"));
    assert_eq!(p.installation, "inst");
    assert_eq!(p.deletion, "del");
}
