use rhai_learning::registry::{Example, ExampleRegistry, ManifestEntry};
use rhai_learning::reload::{
    is_reload_trigger, match_filter, needs_script_load, position_of, reselect, FilterMatch, Selection,
};

fn examples(ids: &[&str]) -> Vec<Example> {
    let entries: Vec<ManifestEntry> = ids
        .iter()
        .map(|i| ManifestEntry {
            id: i.to_string(),
            name: i.to_string(),
            script: format!("{i}.rhai"),
            doc: format!("{i}.html"),
        })
        .collect();
    let docs = vec![String::new(); ids.len()];
    ExampleRegistry::from_entries(entries, &docs).all()
}

fn paths(ps: &[&str]) -> Vec<String> {
    ps.iter().map(|p| p.to_string()).collect()
}

#[test]
fn text_file_change_does_not_reload() {
    assert!(!is_reload_trigger(&paths(&["examples/notes.txt"])));
    assert!(!is_reload_trigger(&paths(&[])));
    assert!(!is_reload_trigger(&paths(&["a.txt", "examples/manifest.toml", "examples/rhai"])));
}

#[test]
fn script_change_reloads() {
    assert!(is_reload_trigger(&paths(&["examples/hello.rhai"])));
    assert!(is_reload_trigger(&paths(&["a.txt", "examples/x/main.rhai"])));
}

#[test]
fn selection_follows_id_after_reload() {
    let old = examples(&["b", "c"]);
    let new = examples(&["a", "b", "c"]);
    assert_eq!(reselect(&old, Some(1), &new), Some(2));
    assert_eq!(reselect(&old, Some(0), &new), Some(1));
}

#[test]
fn selection_cleared_when_id_gone() {
    let old = examples(&["b", "c"]);
    let new = examples(&["a", "c"]);
    assert_eq!(reselect(&old, Some(0), &new), None);
    assert_eq!(reselect(&old, None, &new), None);
    assert_eq!(reselect(&old, Some(7), &new), None);
}

#[test]
fn position_of_first_match() {
    let ex = examples(&["x", "y"]);
    assert_eq!(position_of(&ex, "y"), Some(1));
    assert_eq!(position_of(&ex, "z"), None);
}

#[test]
fn script_load_needed_for_other_id() {
    let ex = examples(&["a", "b"]);
    assert!(needs_script_load(&ex, 0, &None));
    assert!(needs_script_load(&ex, 0, &Some("b".to_string())));
    assert!(!needs_script_load(&ex, 1, &Some("b".to_string())));
}

#[test]
fn filter_splits_first_match_ignoring_case() {
    match match_filter("Hello World wor", "WOR") {
        FilterMatch::Hit { before, hit, after } => {
            assert_eq!(before, "Hello ");
            assert_eq!(hit, "Wor");
            assert_eq!(after, "ld wor");
        }
        _ => panic!("expected a match"),
    }
}

#[test]
fn filter_empty_and_missing() {
    assert!(matches!(match_filter("Hello", ""), FilterMatch::All));
    assert!(matches!(match_filter("Hello", "xyz"), FilterMatch::Miss));
    assert!(matches!(match_filter("Hi", "Hi there"), FilterMatch::Miss));
    assert!(matches!(match_filter("", "a"), FilterMatch::Miss));
}

#[test]
fn filter_whole_name() {
    match match_filter("\u{e9}t\u{e9}", "\u{e9}T\u{e9}") {
        FilterMatch::Hit { before, hit, after } => {
            assert_eq!(before, "");
            assert_eq!(hit, "\u{e9}t\u{e9}");
            assert_eq!(after, "");
        }
        _ => panic!("expected a match"),
    }
}

#[test]
fn selection_select_clears_loaded() {
    let mut sel = Selection::new();
    sel.mark_loaded("a");
    sel.select(1);
    assert_eq!(sel.selected, Some(1));
    assert_eq!(sel.loaded, None);
}

#[test]
fn selection_after_reload_follows_id() {
    let old = examples(&["b", "c"]);
    let new = examples(&["a", "b", "c"]);
    let mut sel = Selection::new();
    sel.select(1);
    sel.mark_loaded("c");
    assert!(sel.after_reload(&old, &new));
    assert_eq!(sel.selected, Some(2));
    assert_eq!(sel.current(&new), Some((2, false)));
}

#[test]
fn selection_after_reload_cleared() {
    let old = examples(&["b", "c"]);
    let new = examples(&["a"]);
    let mut sel = Selection::new();
    sel.select(0);
    assert!(!sel.after_reload(&old, &new));
    assert_eq!(sel.selected, None);
    assert_eq!(sel.current(&new), None);
    let mut none = Selection::new();
    assert!(!none.after_reload(&old, &new));
}

#[test]
fn selection_current_needs_load() {
    let ex = examples(&["a", "b"]);
    let mut sel = Selection::new();
    assert_eq!(sel.current(&ex), None);
    sel.select(0);
    assert_eq!(sel.current(&ex), Some((0, true)));
    sel.mark_loaded("a");
    assert_eq!(sel.current(&ex), Some((0, false)));
    sel.select(5);
    assert_eq!(sel.current(&ex), None);
}
