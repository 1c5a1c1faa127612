use folder_finder::collections::path_to_collection;
use folder_finder::database::{
    add, add_project, add_project_collection, add_tag, add_tags, delete, get_collection_tags,
    get_id, get_project_tags, is_present, list, list_collections, list_projects, list_tags, Store,
};
use folder_finder::projects::from_path;
use folder_finder::resolution::{effective_tags, resolved};
use folder_finder::tags::word_to_tag;
use folder_finder::types::{
    AlreadyExistsError, Collection, DataType, EmptyDataType, NotFoundError, Project, Tag,
};

fn tag(name: &str) -> Tag {
    Tag { name: name.to_string() }
}

fn names(tags: &[Tag]) -> Vec<String> {
    let mut out: Vec<String> = tags.iter().map(|t| t.name.clone()).collect();
    out.sort();
    out
}

fn strings(words: &[&str]) -> Vec<String> {
    words.iter().map(|w| w.to_string()).collect()
}

/// Everything a listing shows, so that two states can be compared.
fn snapshot(store: &Store) -> Vec<String> {
    let mut out = Vec::new();
    for c in list_collections(store) {
        out.push(format!("c {} {:?}", c.path, names(&c.tags)));
    }
    for p in list_projects(store) {
        let owner = p.collection.as_ref().map(|c| c.path.clone());
        out.push(format!("p {} {} {:?} {:?}", p.name, p.path, owner, names(&p.tags)));
    }
    for t in list_tags(store) {
        out.push(format!("t {}", t.name));
    }
    out
}

#[test]
fn project_inherits_until_collection_is_deleted() {
    let mut store = Store::new();
    let collection = path_to_collection("/home/u/proj");
    let app = from_path("/home/u/proj/app");
    assert_eq!(add(&mut store, &collection), Ok(()));
    assert_eq!(add_tag(&mut store, &collection, tag("work"), true), Ok(()));
    assert_eq!(add(&mut store, &app), Ok(()));
    assert_eq!(add_project_collection(&mut store, &app, &collection), Ok(()));

    let listed = list_projects(&store);
    assert_eq!(listed.len(), 1);
    assert_eq!(listed[0].name, "app");
    assert!(listed[0].tags.is_empty());
    assert_eq!(names(&effective_tags(&listed[0])), strings(&["work"]));

    assert_eq!(add_tag(&mut store, &app, tag("rust"), true), Ok(()));
    let listed = list_projects(&store);
    assert_eq!(names(&effective_tags(&listed[0])), strings(&["rust", "work"]));

    assert_eq!(delete(&mut store, &collection), Ok(()));
    assert!(is_present(&store, &app));
    assert!(!is_present(&store, &collection));
    let listed = list_projects(&store);
    assert_eq!(listed.len(), 1);
    assert!(listed[0].collection.is_none());
    assert_eq!(names(&effective_tags(&listed[0])), strings(&["rust"]));
}

#[test]
fn added_entity_is_present_and_second_add_is_refused() {
    let entities = vec![
        path_to_collection("/srv/code"),
        from_path("/srv/code/tool"),
        word_to_tag("cli"),
    ];
    for e in &entities {
        let mut store = Store::new();
        assert!(!is_present(&store, e));
        assert_eq!(add(&mut store, e), Ok(()));
        assert!(is_present(&store, e));
        let before = snapshot(&store);
        assert_eq!(add(&mut store, e), Err(AlreadyExistsError));
        assert_eq!(snapshot(&store), before);
        assert!(is_present(&store, e));
    }
}

#[test]
fn same_path_may_be_a_collection_and_a_project() {
    let mut store = Store::new();
    assert_eq!(add(&mut store, &path_to_collection("/srv/code")), Ok(()));
    assert!(!is_present(&store, &from_path("/srv/code")));
    assert_eq!(add(&mut store, &from_path("/srv/code")), Ok(()));
    assert_eq!(list_collections(&store).len(), 1);
    assert_eq!(list_projects(&store).len(), 1);
}

#[test]
fn paths_are_compared_exactly() {
    let mut store = Store::new();
    assert_eq!(add(&mut store, &from_path("/srv/Code")), Ok(()));
    assert!(!is_present(&store, &from_path("/srv/code")));
    assert!(!is_present(&store, &from_path("/srv/Code/")));
    assert_eq!(add(&mut store, &from_path("/srv/code")), Ok(()));
}

#[test]
fn deleting_what_is_absent_changes_nothing() {
    let mut store = Store::new();
    assert_eq!(add(&mut store, &path_to_collection("/a")), Ok(()));
    assert_eq!(add(&mut store, &from_path("/a/p")), Ok(()));
    assert_eq!(add_tag(&mut store, &from_path("/a/p"), tag("x"), true), Ok(()));
    let before = snapshot(&store);
    assert_eq!(delete(&mut store, &path_to_collection("/b")), Ok(()));
    assert_eq!(delete(&mut store, &from_path("/a")), Ok(()));
    assert_eq!(delete(&mut store, &word_to_tag("y")), Ok(()));
    assert_eq!(snapshot(&store), before);
    let mut empty = Store::new();
    assert_eq!(delete(&mut empty, &word_to_tag("y")), Ok(()));
    assert!(snapshot(&empty).is_empty());
}

#[test]
fn deleted_entity_is_gone() {
    let mut store = Store::new();
    let p = from_path("/a/p");
    assert_eq!(add(&mut store, &p), Ok(()));
    assert_eq!(delete(&mut store, &p), Ok(()));
    assert!(!is_present(&store, &p));
    assert_eq!(get_id(&store, &p), Err(NotFoundError::Project));
    assert_eq!(add(&mut store, &p), Ok(()));
}

#[test]
fn effective_tags_are_own_and_inherited() {
    let owner = Collection { path: "/c".to_string(), tags: vec![tag("work"), tag("rust")] };
    let project = Project {
        name: "p".to_string(),
        path: "/c/p".to_string(),
        collection: Some(owner),
        tags: vec![tag("rust"), tag("cli")],
    };
    let effective = effective_tags(&project);
    let listed: Vec<&str> = effective.iter().map(|t| t.name.as_str()).collect();
    assert_eq!(listed, vec!["rust", "cli", "work"]);

    let alone = Project {
        name: "p".to_string(),
        path: "/c/p".to_string(),
        collection: None,
        tags: vec![tag("rust"), tag("cli")],
    };
    assert_eq!(names(&effective_tags(&alone)), strings(&["cli", "rust"]));

    let bare = Project {
        name: "p".to_string(),
        path: "/c/p".to_string(),
        collection: None,
        tags: vec![],
    };
    assert!(effective_tags(&bare).is_empty());
}

#[test]
fn deleting_a_collection_orphans_its_projects() {
    let mut store = Store::new();
    let c = path_to_collection("/c");
    let other = path_to_collection("/d");
    let p = from_path("/c/p");
    let q = from_path("/d/q");
    for e in [&c, &other, &p, &q] {
        assert_eq!(add(&mut store, e), Ok(()));
    }
    assert_eq!(add_project_collection(&mut store, &p, &c), Ok(()));
    assert_eq!(add_project_collection(&mut store, &q, &other), Ok(()));
    assert_eq!(add_tag(&mut store, &c, tag("shared"), true), Ok(()));
    assert_eq!(add_tag(&mut store, &p, tag("own"), true), Ok(()));
    let id = get_id(&store, &p).unwrap();

    assert_eq!(delete(&mut store, &c), Ok(()));

    assert!(is_present(&store, &p));
    assert_eq!(get_id(&store, &p), Ok(id));
    let listed = list_projects(&store);
    assert_eq!(listed.len(), 2);
    assert_eq!(listed[0].path, "/c/p");
    assert!(listed[0].collection.is_none());
    assert_eq!(names(&listed[0].tags), strings(&["own"]));
    assert_eq!(listed[1].collection.as_ref().map(|c| c.path.as_str()), Some("/d"));
    // the tag that was attached to the collection is still a tag
    assert!(is_present(&store, &word_to_tag("shared")));
    assert_eq!(list_collections(&store).len(), 1);
}

#[test]
fn deleting_a_tag_detaches_it_everywhere() {
    let mut store = Store::new();
    let c = path_to_collection("/c");
    let p = from_path("/c/p");
    let q = from_path("/c/q");
    for e in [&c, &p, &q] {
        assert_eq!(add(&mut store, e), Ok(()));
    }
    assert_eq!(add_tag(&mut store, &c, tag("old"), true), Ok(()));
    assert_eq!(add_tag(&mut store, &c, tag("keep"), true), Ok(()));
    assert_eq!(add_tag(&mut store, &p, tag("old"), true), Ok(()));
    assert_eq!(add_tag(&mut store, &q, tag("keep"), true), Ok(()));
    assert_eq!(add_tag(&mut store, &q, tag("old"), true), Ok(()));

    assert_eq!(delete(&mut store, &word_to_tag("old")), Ok(()));

    assert!(!is_present(&store, &word_to_tag("old")));
    assert!(is_present(&store, &c) && is_present(&store, &p) && is_present(&store, &q));
    let collections = list_collections(&store);
    assert_eq!(names(&collections[0].tags), strings(&["keep"]));
    let projects = list_projects(&store);
    assert!(projects[0].tags.is_empty());
    assert_eq!(names(&projects[1].tags), strings(&["keep"]));
    assert_eq!(names(&list_tags(&store)), strings(&["keep"]));
    assert!(store.project_tags().iter().all(|l| l.tag_id == get_id(&store, &word_to_tag("keep")).unwrap()));
}

#[test]
fn deleting_a_project_removes_only_its_links() {
    let mut store = Store::new();
    let p = from_path("/p");
    let q = from_path("/q");
    assert_eq!(add(&mut store, &p), Ok(()));
    assert_eq!(add(&mut store, &q), Ok(()));
    assert_eq!(add_tag(&mut store, &p, tag("t"), true), Ok(()));
    assert_eq!(add_tag(&mut store, &q, tag("t"), true), Ok(()));
    assert_eq!(store.project_tags().len(), 2);
    assert_eq!(delete(&mut store, &p), Ok(()));
    assert_eq!(store.project_tags().len(), 1);
    assert!(is_present(&store, &word_to_tag("t")));
    assert_eq!(names(&list_projects(&store)[0].tags), strings(&["t"]));
}

#[test]
fn tagging_with_a_missing_tag_is_refused_without_force() {
    let mut store = Store::new();
    let p = from_path("/p");
    assert_eq!(add(&mut store, &p), Ok(()));
    let before = snapshot(&store);
    assert_eq!(add_tag(&mut store, &p, tag("new"), false), Err(NotFoundError::Tag));
    assert!(!is_present(&store, &word_to_tag("new")));
    assert_eq!(snapshot(&store), before);
    assert!(list_tags(&store).is_empty());
}

#[test]
fn forced_tagging_creates_the_tag_and_repeats_as_a_no_op() {
    let mut store = Store::new();
    let p = from_path("/p");
    assert_eq!(add(&mut store, &p), Ok(()));
    assert_eq!(add_tag(&mut store, &p, tag("new"), true), Ok(()));
    assert!(is_present(&store, &word_to_tag("new")));
    assert_eq!(names(&list_projects(&store)[0].tags), strings(&["new"]));
    let before = snapshot(&store);
    let links = store.project_tags().len();
    assert_eq!(add_tag(&mut store, &p, tag("new"), true), Ok(()));
    assert_eq!(add_tag(&mut store, &p, tag("new"), false), Ok(()));
    assert_eq!(snapshot(&store), before);
    assert_eq!(store.project_tags().len(), links);
    assert_eq!(list_tags(&store).len(), 1);
}

#[test]
fn tagging_an_existing_tag_needs_no_force() {
    let mut store = Store::new();
    let c = path_to_collection("/c");
    assert_eq!(add(&mut store, &c), Ok(()));
    assert_eq!(add(&mut store, &word_to_tag("work")), Ok(()));
    assert_eq!(add_tag(&mut store, &c, tag("work"), false), Ok(()));
    assert_eq!(names(&list_collections(&store)[0].tags), strings(&["work"]));
}

#[test]
fn tagging_a_missing_entity_names_its_kind() {
    let mut store = Store::new();
    assert_eq!(add(&mut store, &word_to_tag("t")), Ok(()));
    assert_eq!(
        add_tag(&mut store, &from_path("/p"), tag("t"), true),
        Err(NotFoundError::Project)
    );
    assert_eq!(
        add_tag(&mut store, &path_to_collection("/c"), tag("t"), false),
        Err(NotFoundError::Collection)
    );
    // the entity is looked for before the tag
    assert_eq!(
        add_tag(&mut store, &from_path("/p"), tag("missing"), false),
        Err(NotFoundError::Project)
    );
    assert!(!is_present(&store, &word_to_tag("missing")));
}

#[test]
fn tag_names_are_folded_to_lowercase() {
    let mut store = Store::new();
    assert_eq!(add(&mut store, &DataType::Tag(tag("Rust"))), Ok(()));
    assert!(is_present(&store, &DataType::Tag(tag("rust"))));
    assert!(is_present(&store, &DataType::Tag(tag("RUST"))));
    assert_eq!(
        get_id(&store, &DataType::Tag(tag("rust"))),
        get_id(&store, &DataType::Tag(tag("Rust")))
    );
    assert_eq!(list_tags(&store)[0].name, "rust");

    let mut store = Store::new();
    assert_eq!(add(&mut store, &DataType::Tag(tag("rust"))), Ok(()));
    assert_eq!(add(&mut store, &DataType::Tag(tag("Rust"))), Err(AlreadyExistsError));
    assert_eq!(list_tags(&store).len(), 1);
}

#[test]
fn tagging_folds_the_tag_name_too() {
    let mut store = Store::new();
    let p = from_path("/p");
    assert_eq!(add(&mut store, &p), Ok(()));
    assert_eq!(add_tag(&mut store, &p, tag("CLI"), true), Ok(()));
    assert_eq!(add_tag(&mut store, &p, tag("cli"), false), Ok(()));
    assert_eq!(list_tags(&store).len(), 1);
    assert_eq!(list_projects(&store)[0].tags[0].name, "cli");
    assert_eq!(store.project_tags().len(), 1);
}

#[test]
fn word_to_tag_lowers_the_word() {
    match word_to_tag("GitHub") {
        DataType::Tag(t) => assert_eq!(t.name, "github"),
        _ => panic!("a word stands for a tag"),
    }
    match word_to_tag("ÄÖ") {
        DataType::Tag(t) => assert_eq!(t.name, "äö"),
        _ => panic!("a word stands for a tag"),
    }
}

#[test]
fn identifiers_count_up_from_the_greatest() {
    let mut store = Store::new();
    let a = from_path("/a");
    let b = from_path("/b");
    let c = from_path("/c");
    assert_eq!(get_id(&store, &a), Err(NotFoundError::Project));
    assert_eq!(add(&mut store, &a), Ok(()));
    assert_eq!(add(&mut store, &b), Ok(()));
    assert_eq!(get_id(&store, &a), Ok(1));
    assert_eq!(get_id(&store, &b), Ok(2));
    // the greatest identifier is free again once its row is gone
    assert_eq!(delete(&mut store, &b), Ok(()));
    assert_eq!(add(&mut store, &c), Ok(()));
    assert_eq!(get_id(&store, &c), Ok(2));
    // a smaller one is not
    assert_eq!(delete(&mut store, &a), Ok(()));
    assert_eq!(add(&mut store, &b), Ok(()));
    assert_eq!(get_id(&store, &b), Ok(3));
    // each table counts for itself
    assert_eq!(add(&mut store, &path_to_collection("/a")), Ok(()));
    assert_eq!(get_id(&store, &path_to_collection("/a")), Ok(1));
    assert_eq!(add(&mut store, &word_to_tag("t")), Ok(()));
    assert_eq!(get_id(&store, &word_to_tag("t")), Ok(1));
}

#[test]
fn get_id_names_the_kind_that_is_missing() {
    let store = Store::new();
    assert_eq!(get_id(&store, &path_to_collection("/c")), Err(NotFoundError::Collection));
    assert_eq!(get_id(&store, &from_path("/p")), Err(NotFoundError::Project));
    assert_eq!(get_id(&store, &word_to_tag("t")), Err(NotFoundError::Tag));
}

#[test]
fn listings_keep_the_order_of_adding() {
    let mut store = Store::new();
    for path in ["/z", "/a", "/m"] {
        assert_eq!(add(&mut store, &path_to_collection(path)), Ok(()));
    }
    for word in ["zeta", "Alpha", "mid"] {
        assert_eq!(add(&mut store, &word_to_tag(word)), Ok(()));
    }
    let paths: Vec<String> = list_collections(&store).into_iter().map(|c| c.path).collect();
    assert_eq!(paths, strings(&["/z", "/a", "/m"]));
    let tags: Vec<String> = list_tags(&store).into_iter().map(|t| t.name).collect();
    assert_eq!(tags, strings(&["zeta", "alpha", "mid"]));
}

#[test]
fn listed_tags_follow_the_table_of_tags() {
    let mut store = Store::new();
    let p = from_path("/p");
    assert_eq!(add(&mut store, &p), Ok(()));
    for word in ["one", "two", "three"] {
        assert_eq!(add(&mut store, &word_to_tag(word)), Ok(()));
    }
    assert_eq!(add_tag(&mut store, &p, tag("three"), false), Ok(()));
    assert_eq!(add_tag(&mut store, &p, tag("one"), false), Ok(()));
    let id = get_id(&store, &p).unwrap();
    let listed: Vec<String> = get_project_tags(&store, id).into_iter().map(|t| t.name).collect();
    assert_eq!(listed, strings(&["one", "three"]));
    assert!(get_project_tags(&store, id + 1).is_empty());
    assert!(get_collection_tags(&store, id).is_empty());
}

#[test]
fn listed_project_shows_own_tags_and_its_owner() {
    let mut store = Store::new();
    let c = path_to_collection("/c");
    let p = from_path("/c/p");
    assert_eq!(add(&mut store, &c), Ok(()));
    assert_eq!(add(&mut store, &p), Ok(()));
    assert_eq!(add_project_collection(&mut store, &p, &c), Ok(()));
    assert_eq!(add_tag(&mut store, &c, tag("theirs"), true), Ok(()));
    assert_eq!(add_tag(&mut store, &p, tag("mine"), true), Ok(()));
    let listed = list_projects(&store);
    assert_eq!(names(&listed[0].tags), strings(&["mine"]));
    let owner = listed[0].collection.as_ref().unwrap();
    assert_eq!(owner.path, "/c");
    assert_eq!(names(&owner.tags), strings(&["theirs"]));
    let id = get_id(&store, &c).unwrap();
    assert_eq!(names(&get_collection_tags(&store, id)), strings(&["theirs"]));
}

#[test]
fn adding_ignores_the_tags_and_owner_a_value_carries() {
    let mut store = Store::new();
    let p = DataType::Project(Project {
        name: "nick".to_string(),
        path: "/c/p".to_string(),
        collection: Some(Collection { path: "/c".to_string(), tags: vec![tag("x")] }),
        tags: vec![tag("y")],
    });
    assert_eq!(add(&mut store, &p), Ok(()));
    let listed = list_projects(&store);
    assert_eq!(listed[0].name, "nick");
    assert!(listed[0].collection.is_none());
    assert!(listed[0].tags.is_empty());
    assert!(list_tags(&store).is_empty());
    assert!(list_collections(&store).is_empty());
}

#[test]
fn add_project_names_the_project_after_its_folder() {
    let mut store = Store::new();
    assert_eq!(add_project(&mut store, "/home/u/code/tool"), Ok(()));
    assert_eq!(add_project(&mut store, "/home/u/code/tool"), Err(AlreadyExistsError));
    let listed = list_projects(&store);
    assert_eq!(listed.len(), 1);
    assert_eq!(listed[0].name, "tool");
    assert_eq!(listed[0].path, "/home/u/code/tool");
}

#[test]
fn owner_must_be_a_collection_and_owned_a_project() {
    let mut store = Store::new();
    let c = path_to_collection("/c");
    let p = from_path("/c/p");
    assert_eq!(add_project_collection(&mut store, &p, &c), Err(NotFoundError::Project));
    assert_eq!(add(&mut store, &p), Ok(()));
    assert_eq!(add_project_collection(&mut store, &p, &c), Err(NotFoundError::Collection));
    assert_eq!(add(&mut store, &c), Ok(()));
    assert_eq!(add_project_collection(&mut store, &c, &c), Err(NotFoundError::Project));
    assert_eq!(add_project_collection(&mut store, &p, &p), Err(NotFoundError::Collection));
    assert!(list_projects(&store)[0].collection.is_none());
    assert_eq!(add_project_collection(&mut store, &p, &c), Ok(()));
    assert_eq!(store.projects()[0].collection_id, Some(1));
    // a project changes hands
    let d = path_to_collection("/d");
    assert_eq!(add(&mut store, &d), Ok(()));
    assert_eq!(add_project_collection(&mut store, &p, &d), Ok(()));
    assert_eq!(store.projects()[0].collection_id, Some(2));
}

#[test]
fn tagging_in_a_batch_goes_on_after_a_failure() {
    let mut store = Store::new();
    let p = from_path("/p");
    assert_eq!(add(&mut store, &p), Ok(()));
    assert_eq!(add(&mut store, &word_to_tag("known")), Ok(()));
    let tags = vec![tag("missing"), tag("known"), tag("other")];
    let answers = add_tags(&mut store, &p, &tags, false);
    assert_eq!(answers, vec![Err(NotFoundError::Tag), Ok(()), Err(NotFoundError::Tag)]);
    assert_eq!(names(&list_projects(&store)[0].tags), strings(&["known"]));
    let answers = add_tags(&mut store, &p, &tags, true);
    assert_eq!(answers, vec![Ok(()), Ok(()), Ok(())]);
    assert_eq!(names(&list_projects(&store)[0].tags), strings(&["known", "missing", "other"]));
    let answers = add_tags(&mut store, &from_path("/q"), &tags, true);
    assert_eq!(answers, vec![Err(NotFoundError::Project); 3]);
    assert!(add_tags(&mut store, &p, &Vec::new(), true).is_empty());
}

#[test]
fn getters_tell_the_kind() {
    let c = path_to_collection("/c");
    let p = from_path("/c/p");
    let t = word_to_tag("t");
    assert_eq!(c.collection().map(|c| c.path.as_str()), Some("/c"));
    assert!(c.project().is_none() && c.tag().is_none());
    assert_eq!(p.project().map(|p| p.name.as_str()), Some("p"));
    assert!(p.collection().is_none() && p.tag().is_none());
    assert_eq!(t.tag().map(|t| t.name.as_str()), Some("t"));
    assert!(t.collection().is_none() && t.project().is_none());
}

#[test]
fn listing_by_kind_gives_the_entities_of_that_kind() {
    let mut store = Store::new();
    let c = path_to_collection("/c");
    let p = from_path("/c/p");
    assert_eq!(add(&mut store, &c), Ok(()));
    assert_eq!(add(&mut store, &p), Ok(()));
    assert_eq!(add(&mut store, &from_path("/q")), Ok(()));
    assert_eq!(add_project_collection(&mut store, &p, &c), Ok(()));
    assert_eq!(add_tag(&mut store, &c, tag("work"), true), Ok(()));
    assert_eq!(add_tag(&mut store, &p, tag("rust"), true), Ok(()));

    let collections = list(&store, EmptyDataType::Collection);
    assert_eq!(collections.len(), 1);
    let shown = collections[0].collection().expect("a collection");
    assert_eq!(shown.path, "/c");
    assert_eq!(names(&shown.tags), strings(&["work"]));

    let projects = list(&store, EmptyDataType::Project);
    assert_eq!(projects.len(), 2);
    let first = projects[0].project().expect("a project");
    assert_eq!(first.path, "/c/p");
    assert_eq!(names(&first.tags), strings(&["rust"]));
    assert_eq!(first.collection.as_ref().map(|c| c.path.as_str()), Some("/c"));
    assert_eq!(projects[1].project().expect("a project").path, "/q");

    let tags = list(&store, EmptyDataType::Tag);
    let listed: Vec<&str> = tags.iter().map(|t| t.tag().expect("a tag").name.as_str()).collect();
    assert_eq!(listed, vec!["work", "rust"]);
    assert!(list(&Store::new(), EmptyDataType::Tag).is_empty());
}

#[test]
fn resolved_project_carries_its_effective_tags() {
    let project = Project {
        name: "p".to_string(),
        path: "/c/p".to_string(),
        collection: Some(Collection { path: "/c".to_string(), tags: vec![tag("work")] }),
        tags: vec![tag("rust")],
    };
    let shown = resolved(&project);
    assert_eq!(shown.name, "p");
    assert_eq!(shown.path, "/c/p");
    assert_eq!(shown.collection.as_ref().map(|c| c.path.as_str()), Some("/c"));
    let listed: Vec<&str> = shown.tags.iter().map(|t| t.name.as_str()).collect();
    assert_eq!(listed, vec!["rust", "work"]);
    assert_eq!(shown.display(), format!("p{} | rust work", " ".repeat(24)));
}
