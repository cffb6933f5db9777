//! The incremental search: filtering, cursor movement, committing and the
//! preserved backspace quirk.

use toolbox_core::program::{ConfigLoad, Programm, ProgrammStatus};
use toolbox_core::registry::Registry;
use toolbox_core::state::{Message, SearchKey, ToolBox};

fn entry(name: &str) -> Programm {
    Programm {
        name: name.to_string(),
        call: None,
        description_md: String::new(),
        docs_link: None,
        status: ProgrammStatus::NotInstalled,
        installation: String::new(),
        deletion: String::new(),
    }
}

fn toolbox(names: &[&str]) -> ToolBox {
    let cfg = ConfigLoad {
        name: "c".to_string(),
        programms: names.iter().map(|n| entry(n)).collect(),
    };
    ToolBox::new(Registry::from_catalog(&cfg), cfg.name)
}

fn type_char(tb: &mut ToolBox, c: &str) {
    tb.update(Message::SearchKey(SearchKey::Character(c.to_string())));
}

fn strings(v: &[&str]) -> Vec<String> {
    v.iter().map(|s| s.to_string()).collect()
}

#[test]
fn filter_matches_literal_prefix_in_registry_order() {
    let tb = toolbox(&["Banana", "Apple", "Alpha"]);
    assert_eq!(tb.programms_startswith("A"), strings(&["Alpha", "Apple"]));
    assert_eq!(tb.programms_startswith("Ap"), strings(&["Apple"]));
    assert_eq!(tb.programms_startswith(""), strings(&["Alpha", "Apple", "Banana"]));
    assert_eq!(tb.programms_startswith("apple"), strings(&[]));
    assert_eq!(tb.programms_startswith("Z"), strings(&[]));
}

#[test]
fn filter_narrows_as_the_query_grows() {
    let tb = toolbox(&["Alpha", "Apple", "Banana"]);
    let wide = tb.programms_startswith("A");
    let narrow = tb.programms_startswith("Ap");
    for name in &narrow {
        assert!(wide.contains(name));
    }
}

/// Typing activates the overlay and recomputes matches per keystroke;
/// committing selects the entry under the cursor and clears the search.
#[test]
fn typing_then_committing_selects_under_cursor() {
    let mut tb = toolbox(&["Alpha", "Apple", "Banana"]);
    type_char(&mut tb, "A");
    assert!(tb.search_selected);
    assert_eq!(tb.search_programms_names, strings(&["Alpha", "Apple"]));
    tb.update(Message::SearchKey(SearchKey::ArrowDown));
    assert_eq!(tb.selected_result_index, 1);
    tb.update(Message::SearchKey(SearchKey::Enter));
    assert_eq!(tb.current_programm.as_ref().unwrap().name, "Apple");
    assert!(!tb.search_selected);
    assert_eq!(tb.search_text, "");
    assert_eq!(tb.selected_result_index, 0);
    assert!(tb.search_programms_names.is_empty());
}

#[test]
fn cursor_clamps_to_the_shrinking_match_list() {
    let mut tb = toolbox(&["Alpha", "Apple", "Banana"]);
    type_char(&mut tb, "A");
    tb.update(Message::SearchKey(SearchKey::ArrowDown));
    assert_eq!(tb.selected_result_index, 1);
    type_char(&mut tb, "p");
    assert_eq!(tb.search_programms_names, strings(&["Apple"]));
    assert_eq!(tb.selected_result_index, 0);
    tb.update(Message::SearchKey(SearchKey::Enter));
    assert_eq!(tb.current_programm.as_ref().unwrap().name, "Apple");
}

#[test]
fn cursor_stays_in_range_under_any_key_sequence() {
    let mut tb = toolbox(&["Alpha", "Apple", "Banana", "Ananas"]);
    let keys = [
        SearchKey::ArrowDown,
        SearchKey::ArrowDown,
        SearchKey::ArrowDown,
        SearchKey::ArrowUp,
        SearchKey::Character("A".to_string()),
        SearchKey::ArrowDown,
        SearchKey::ArrowDown,
        SearchKey::ArrowDown,
        SearchKey::Character("p".to_string()),
        SearchKey::ArrowDown,
        SearchKey::Backspace,
        SearchKey::ArrowUp,
        SearchKey::Backspace,
        SearchKey::ArrowDown,
    ];
    for k in keys {
        tb.update(Message::SearchKey(k));
        let len = tb.search_programms_names.len();
        let bound = if len == 0 { 0 } else { len - 1 };
        assert!(tb.selected_result_index <= bound);
    }
}

#[test]
fn arrow_up_stops_at_zero() {
    let mut tb = toolbox(&["Alpha", "Apple"]);
    type_char(&mut tb, "A");
    tb.update(Message::SearchKey(SearchKey::ArrowUp));
    assert_eq!(tb.selected_result_index, 0);
}

/// Committing with no match deactivates and clears the search without
/// changing the selection.
#[test]
fn commit_with_empty_matches_keeps_selection() {
    let mut tb = toolbox(&["Alpha", "Apple"]);
    tb.update(Message::SelectProgrammFromList("Alpha".to_string()));
    type_char(&mut tb, "Z");
    assert!(tb.search_programms_names.is_empty());
    tb.update(Message::SearchKey(SearchKey::Enter));
    assert_eq!(tb.current_programm.as_ref().unwrap().name, "Alpha");
    assert!(!tb.search_selected);
    assert_eq!(tb.search_text, "");
}

/// Backspace recomputes the matches from the query before popping it: the
/// shown list is one step stale on purpose.
#[test]
fn backspace_filters_before_popping() {
    let mut tb = toolbox(&["Alpha", "Apple"]);
    type_char(&mut tb, "A");
    type_char(&mut tb, "p");
    assert_eq!(tb.search_programms_names, strings(&["Apple"]));
    tb.update(Message::SearchKey(SearchKey::Backspace));
    assert_eq!(tb.search_text, "A");
    assert_eq!(tb.search_programms_names, strings(&["Apple"]));
    tb.update(Message::SearchKey(SearchKey::Backspace));
    assert_eq!(tb.search_text, "");
    assert_eq!(tb.search_programms_names, strings(&["Alpha", "Apple"]));
}

#[test]
fn space_activates_search_with_space_query() {
    let mut tb = toolbox(&["Alpha", " Spacey"]);
    tb.update(Message::SearchKey(SearchKey::Space));
    assert!(tb.search_selected);
    assert_eq!(tb.search_text, " ");
    assert_eq!(tb.search_programms_names, strings(&[" Spacey"]));
}

#[test]
fn escape_cancels_active_search_without_selecting() {
    let mut tb = toolbox(&["Alpha"]);
    type_char(&mut tb, "A");
    let eff = tb.update(Message::SearchKey(SearchKey::Escape));
    assert!(eff.is_none());
    assert!(!tb.search_selected);
    assert_eq!(tb.search_text, "");
    assert_eq!(tb.selected_result_index, 0);
    assert!(tb.current_programm.is_none());
}
