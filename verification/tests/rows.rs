use folder_finder::database::{add, add_tag, get_id, list_projects, Store};
use folder_finder::model::Link;
use folder_finder::rows::{CollectionRow, ProjectRow, TagRow};
use folder_finder::projects::from_path;
use folder_finder::types::{EmptyDataType, Tag};

fn collection(id: i64, path: &str) -> CollectionRow {
    CollectionRow { id, path: path.to_string() }
}

fn project(id: i64, path: &str, owner: Option<i64>) -> ProjectRow {
    ProjectRow { id, name: "n".to_string(), path: path.to_string(), collection_id: owner }
}

fn tag(id: i64, name: &str) -> TagRow {
    TagRow { id, name: name.to_string() }
}

fn link(data_id: i64, tag_id: i64) -> Link {
    Link { data_id, tag_id }
}

fn sample() -> (Vec<CollectionRow>, Vec<ProjectRow>, Vec<TagRow>, Vec<Link>, Vec<Link>) {
    (
        vec![collection(1, "/c"), collection(4, "/d")],
        vec![project(2, "/c/p", Some(1)), project(7, "/q", None)],
        vec![tag(3, "rust"), tag(5, "web")],
        vec![link(2, 3), link(7, 3), link(7, 5)],
        vec![link(4, 5)],
    )
}

#[test]
fn consistent_rows_make_a_store() {
    let (c, p, t, pt, ct) = sample();
    let store = Store::from_rows(c, p, t, pt, ct).expect("the rows are consistent");
    assert_eq!(store.collections().len(), 2);
    assert_eq!(store.projects()[1].id, 7);
    assert_eq!(store.tags()[0].name, "rust");
    assert_eq!(store.project_tags().len(), 3);
    assert_eq!(store.collection_tags()[0], link(4, 5));
    let listed = list_projects(&store);
    assert_eq!(listed[0].collection.as_ref().map(|c| c.path.as_str()), Some("/c"));
    let names: Vec<&str> = listed[1].tags.iter().map(|t| t.name.as_str()).collect();
    assert_eq!(names, vec!["rust", "web"]);
    assert_eq!(get_id(&store, &from_path("/q")), Ok(7));
}

#[test]
fn no_rows_make_an_empty_store() {
    let store = Store::from_rows(vec![], vec![], vec![], vec![], vec![]).unwrap();
    assert!(store.collections().is_empty() && store.projects().is_empty());
    assert!(store.tags().is_empty());
}

#[test]
fn inconsistent_rows_make_none() {
    let broken: Vec<fn(&mut (Vec<CollectionRow>, Vec<ProjectRow>, Vec<TagRow>, Vec<Link>, Vec<Link>))> = vec![
        |s| s.0.push(collection(1, "/other")),
        |s| s.0.push(collection(9, "/c")),
        |s| s.1.push(project(2, "/other", None)),
        |s| s.1.push(project(9, "/q", None)),
        |s| s.2.push(tag(3, "other")),
        |s| s.2.push(tag(9, "web")),
        |s| s.1.push(project(9, "/r", Some(2))),
        |s| s.3.push(link(1, 3)),
        |s| s.3.push(link(2, 4)),
        |s| s.4.push(link(2, 3)),
        |s| s.4.push(link(1, 1)),
        |s| s.2.push(tag(9, "WEB")),
    ];
    for breakage in broken {
        let mut rows = sample();
        breakage(&mut rows);
        let (c, p, t, pt, ct) = rows;
        assert!(Store::from_rows(c, p, t, pt, ct).is_none());
    }
}

#[test]
fn new_rows_count_on_from_loaded_identifiers() {
    let (c, p, t, pt, ct) = sample();
    let mut store = Store::from_rows(c, p, t, pt, ct).unwrap();
    assert_eq!(add(&mut store, &from_path("/new")), Ok(()));
    assert_eq!(get_id(&store, &from_path("/new")), Ok(8));
    assert_eq!(add_tag(&mut store, &from_path("/new"), Tag { name: "x".to_string() }, true), Ok(()));
    assert_eq!(store.tags()[2].id, 6);
    assert_eq!(store.project_tags()[3], link(8, 6));
}

#[test]
fn room_runs_out_at_the_greatest_identifier() {
    let store = Store::new();
    assert!(store.has_room(EmptyDataType::Tag, 0));
    assert!(store.has_room(EmptyDataType::Tag, 1));
    assert!(store.has_room(EmptyDataType::Tag, 1_000_000));

    let full = Store::from_rows(vec![], vec![], vec![tag(i64::MAX, "last")], vec![], vec![])
        .unwrap();
    assert!(full.has_room(EmptyDataType::Tag, 0));
    assert!(!full.has_room(EmptyDataType::Tag, 1));
    assert!(full.has_room(EmptyDataType::Project, 1));

    let nearly = Store::from_rows(vec![], vec![], vec![tag(i64::MAX - 3, "t")], vec![], vec![])
        .unwrap();
    assert!(nearly.has_room(EmptyDataType::Tag, 3));
    assert!(!nearly.has_room(EmptyDataType::Tag, 4));
}

#[test]
fn identifiers_below_one_count_as_unused() {
    let mut store =
        Store::from_rows(vec![], vec![project(-5, "/p", None)], vec![], vec![], vec![]).unwrap();
    assert_eq!(add(&mut store, &from_path("/q")), Ok(()));
    assert_eq!(get_id(&store, &from_path("/q")), Ok(1));
}

#[test]
fn a_link_that_stands_twice_is_taken_once() {
    let (c, p, t, mut pt, mut ct) = sample();
    pt.push(link(7, 5));
    pt.insert(0, link(7, 3));
    ct.push(link(4, 5));
    let store = Store::from_rows(c, p, t, pt, ct).expect("the rows are consistent");
    assert_eq!(store.project_tags(), &vec![link(7, 3), link(2, 3), link(7, 5)]);
    assert_eq!(store.collection_tags(), &vec![link(4, 5)]);
}

#[test]
fn loaded_tag_names_are_put_in_lowercase() {
    let store = Store::from_rows(
        vec![],
        vec![project(1, "/p", None)],
        vec![tag(1, "Rust"), tag(2, "web")],
        vec![link(1, 1)],
        vec![],
    )
    .expect("the rows are consistent");
    assert_eq!(store.tags()[0].name, "rust");
    assert_eq!(store.tags()[1].name, "web");
    assert_eq!(get_id(&store, &folder_finder::tags::word_to_tag("RUST")), Ok(1));
    assert_eq!(list_projects(&store)[0].tags[0].name, "rust");
}
