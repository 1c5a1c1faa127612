use folder_finder::collections::goto;
use folder_finder::display::{le, sorted_names};
use folder_finder::types::{Collection, Project, Tag};

fn tags(names: &[&str]) -> Vec<Tag> {
    names.iter().map(|n| Tag { name: n.to_string() }).collect()
}

fn collection(path: &str, names: &[&str]) -> Collection {
    Collection { path: path.to_string(), tags: tags(names) }
}

fn project(name: &str, names: &[&str]) -> Project {
    Project {
        name: name.to_string(),
        path: format!("/p/{}", name),
        collection: None,
        tags: tags(names),
    }
}

#[test]
fn collection_line_is_path_bar_tags() {
    assert_eq!(collection("/home/u/c", &["web", "rust"]).display(), "/home/u/c | web rust");
    assert_eq!(collection("/home/u/c", &["one"]).display(), "/home/u/c | one");
    assert_eq!(collection("/home/u/c", &[]).display(), "/home/u/c | ");
    assert_eq!(collection("", &[]).display(), " | ");
}

#[test]
fn whitespace_at_the_end_of_a_line_is_cut() {
    assert_eq!(collection("/c", &["a", "b \t"]).display(), "/c | a b");
    assert_eq!(collection("/c", &["", ""]).display(), "/c | ");
    assert_eq!(collection("/c", &[" a", ""]).display(), "/c |  a");
}

#[test]
fn project_line_has_a_column_of_25_and_sorted_tags() {
    assert_eq!(
        project("app", &["rust", "cli", "web"]).display(),
        "app                       | cli rust web"
    );
    assert_eq!(project("app", &[]).display(), format!("app{} | ", " ".repeat(22)));
    let long = "a-name-of-more-than-25-characters";
    assert_eq!(project(long, &["x"]).display(), format!("{} | x", long));
    let exact = "a".repeat(25);
    assert_eq!(project(&exact, &["x"]).display(), format!("{} | x", exact));
    assert_eq!(project("", &["b", "a"]).display(), format!("{} | a b", " ".repeat(25)));
    // the column counts characters, not bytes
    assert_eq!(project("grüße", &[]).display(), format!("grüße{} | ", " ".repeat(20)));
}

#[test]
fn dictionary_order_goes_by_character_codes() {
    assert!(le("", ""));
    assert!(le("", "a"));
    assert!(!le("a", ""));
    assert!(le("a", "a"));
    assert!(le("a", "ab"));
    assert!(!le("ab", "a"));
    assert!(le("ab", "b"));
    assert!(le("Zed", "apple"));
    assert!(!le("apple", "Zed"));
    assert!(le("z", "é"));
    assert!(le("é", "€"));
    assert!(!le("€", "é"));
    for (a, b) in [("rust", "ruby"), ("a", "B"), ("x", "x"), ("é", "e"), ("10", "9")] {
        assert_eq!(le(a, b), a <= b);
        assert_eq!(le(b, a), b <= a);
    }
}

#[test]
fn names_are_sorted_in_dictionary_order() {
    let sorted = sorted_names(&tags(&["web", "Rust", "cli", "rust", "cli", "é", "a"]));
    assert_eq!(sorted, vec!["Rust", "a", "cli", "cli", "rust", "web", "é"]);
    assert!(sorted_names(&Vec::new()).is_empty());
    assert_eq!(sorted_names(&tags(&["b", "ab", "a", ""])), vec!["", "a", "ab", "b"]);
}

#[test]
fn a_chosen_line_leads_to_its_collection() {
    let list = vec![
        collection("/a", &["x"]),
        collection("/b", &["x", "y"]),
        collection("/a", &["x"]),
    ];
    assert_eq!(goto(&list, "/b | x y"), Some(1));
    assert_eq!(goto(&list, "/a | x"), Some(0));
    assert_eq!(goto(&list, "/a | x "), None);
    assert_eq!(goto(&list, "/b"), None);
    assert_eq!(goto(&Vec::new(), ""), None);
}
