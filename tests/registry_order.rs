use rhai_learning::registry::{id_precedes, Example, ExampleRegistry, ManifestEntry};

fn entry(id: &str, name: &str) -> ManifestEntry {
    ManifestEntry {
        id: id.to_string(),
        name: name.to_string(),
        script: format!("examples/{id}/main.rhai"),
        doc: format!("examples/{id}/README.html"),
    }
}

fn registry(ids: &[&str]) -> ExampleRegistry {
    let entries: Vec<ManifestEntry> = ids.iter().map(|i| entry(i, &i.to_uppercase())).collect();
    let docs: Vec<String> = ids.iter().map(|i| format!("# {i}\nAbout {i}\n")).collect();
    ExampleRegistry::from_entries(entries, &docs)
}

#[test]
fn registry_all_sorted_by_id() {
    let all = registry(&["hello", "async-sim", "random", "collections"]).all();
    let ids: Vec<&str> = all.iter().map(|e| e.id.as_str()).collect();
    assert_eq!(ids, vec!["async-sim", "collections", "hello", "random"]);
}

#[test]
fn registry_all_keeps_every_entry() {
    let all = registry(&["b", "a", "b", "c", "a"]).all();
    assert_eq!(all.len(), 5);
    let names: Vec<&str> = all.iter().map(|e| e.id.as_str()).collect();
    assert_eq!(names, vec!["a", "a", "b", "b", "c"]);
}

#[test]
fn registry_all_repeatable() {
    let first = registry(&["z", "m", "a"]).all();
    let second = registry(&["z", "m", "a"]).all();
    let a: Vec<&str> = first.iter().map(|e| e.id.as_str()).collect();
    let b: Vec<&str> = second.iter().map(|e| e.id.as_str()).collect();
    assert_eq!(a, b);
}

#[test]
fn registry_empty_manifest() {
    assert!(registry(&[]).all().is_empty());
}

#[test]
fn example_fields_from_entry() {
    let ex = Example::from_entry(entry("hello", "Hello"), "# Hello\n\nSays hello.\nnote: try editing\n");
    assert_eq!(ex.id, "hello");
    assert_eq!(ex.name, "Hello");
    assert_eq!(ex.description, "Says hello.");
    assert_eq!(ex.note.as_deref(), Some("try editing"));
    assert_eq!(ex.doc_html_path, "examples/hello/README.html");
    assert_eq!(ex.doc_path, "examples/hello/README.md");
    assert_eq!(ex.script_path, "examples/hello/main.rhai");
}

#[test]
fn example_without_doc_text() {
    let ex = Example::from_entry(entry("x", "X"), "");
    assert_eq!(ex.description, "");
    assert_eq!(ex.note, None);
}

#[test]
fn id_order_is_string_order() {
    let pairs = [("abc", "abd"), ("ab", "abc"), ("b", "a"), ("z", "\u{e9}"), ("", ""), ("A", "a"), ("same", "same")];
    for (a, b) in pairs {
        assert_eq!(id_precedes(a, b), a < b, "{a} vs {b}");
    }
}
