//! The relationship store: the tables in memory and the operations on them.

use crate::invariants::{lemma_greatest_bounds, lemma_greatest_step};
use crate::laws::{law_add_then_present, law_delete_then_absent, law_tag_attaches};
use crate::model::{
    carried, greatest, links_known, names_of, orphaned, spares_data, spares_tag, Link,
    ProjectRec, TagRec, Tables,
};
use crate::rows::{
    collection_recs, folded, loaded, project_recs, tables_of, tag_recs, CollectionRow, ProjectRow,
    TagRow,
};
use crate::sequences::{distinct, lemma_index_of, lemma_merged};
use crate::location::{backup_name, Location, Setup};
use crate::paths::{base_name, joined};
use crate::projects::from_path;
use crate::tags::to_lowercase;
use crate::types::{
    tag_keys, tag_names, AlreadyExistsError, Collection, CollectionView, DataType, DatabaseError,
    EmptyDataType, Entity, DataView, NotFoundError, Project, ProjectView, Tag,
};
use vstd::prelude::*;

verus! {

/// The store: every project, collection and tag that is tracked, and which
/// tag is attached to what.
#[derive(Debug)]
pub struct Store {
    collections: Vec<CollectionRow>,
    projects: Vec<ProjectRow>,
    tags: Vec<TagRow>,
    project_tags: Vec<Link>,
    collection_tags: Vec<Link>,
}

impl View for Store {
    type V = Tables;

    closed spec fn view(&self) -> Tables {
        tables_of(
            self.collections@,
            self.projects@,
            self.tags@,
            self.project_tags@,
            self.collection_tags@,
        )
    }
}

impl Store {
    /// The tables are consistent.
    pub open spec fn wf(&self) -> bool {
        self@.wf()
    }

    /// A store that holds nothing.
    pub fn new() -> (r: Store)
        ensures
            r@ == Tables::empty(),
            r.wf(),
            forall|kind: EmptyDataType| #[trigger] r@.used(kind) == 0,
    {
        let r = Store {
            collections: Vec::new(),
            projects: Vec::new(),
            tags: Vec::new(),
            project_tags: Vec::new(),
            collection_tags: Vec::new(),
        };
        assert(r@.collections =~= Seq::empty());
        assert(r@.projects =~= Seq::empty());
        assert(r@.tags =~= Seq::empty());
        assert forall|kind: EmptyDataType| #[trigger] r@.used(kind) == 0 by {
            assert(r@.ids(kind) =~= Seq::empty());
        }
        r
    }

    /// The store that holds rows from elsewhere, if they are consistent.
    /// The names of the tags are put in lowercase and a link that stands
    /// twice is taken once; then no identifier and no identity key may
    /// stand twice in a table, and every owner and every end of a link must
    /// be a row that is there.
    pub fn from_rows(
        collections: Vec<CollectionRow>,
        projects: Vec<ProjectRow>,
        tags: Vec<TagRow>,
        project_tags: Vec<Link>,
        collection_tags: Vec<Link>,
    ) -> (r: Option<Store>)
        ensures
            r is Some <==> loaded(
                collections@,
                projects@,
                tags@,
                project_tags@,
                collection_tags@,
            ).wf(),
            r matches Some(s) ==> s@ == loaded(
                collections@,
                projects@,
                tags@,
                project_tags@,
                collection_tags@,
            ),
    {
        let store = Store {
            collections,
            projects,
            tags: fold_names(&tags),
            project_tags: once(&project_tags),
            collection_tags: once(&collection_tags),
        };
        proof {
            lemma_merged(Seq::empty(), project_tags@);
            lemma_merged(Seq::empty(), collection_tags@);
        }
        if consistent(&store) {
            Some(store)
        } else {
            None
        }
    }

    /// Whether the table of one kind can take `n` more rows.
    pub fn has_room(&self, kind: EmptyDataType, n: usize) -> (r: bool)
        ensures
            r == self@.room(kind, n as int),
    {
        let used = largest_id(self, kind);
        proof {
            lemma_greatest_bounds(self@.ids(kind));
        }
        n as u64 <= (i64::MAX - used) as u64
    }

    /// The rows of the table of collections, in the order in which they
    /// were added.
    pub fn collections(&self) -> (r: &Vec<CollectionRow>)
        ensures
            collection_recs(r@) == self@.collections,
    {
        &self.collections
    }

    /// The rows of the table of projects, in the order in which they were
    /// added.
    pub fn projects(&self) -> (r: &Vec<ProjectRow>)
        ensures
            project_recs(r@) == self@.projects,
    {
        &self.projects
    }

    /// The rows of the table of tags, in the order in which they were added.
    pub fn tags(&self) -> (r: &Vec<TagRow>)
        ensures
            tag_recs(r@) == self@.tags,
    {
        &self.tags
    }

    /// The links between projects and tags.
    pub fn project_tags(&self) -> (r: &Vec<Link>)
        ensures
            r@ == self@.project_tags,
    {
        &self.project_tags
    }

    /// The links between collections and tags.
    pub fn collection_tags(&self) -> (r: &Vec<Link>)
        ensures
            r@ == self@.collection_tags,
    {
        &self.collection_tags
    }
}

/// The first row of the table of one kind that has the key.
fn find_key(store: &Store, kind: EmptyDataType, key: &String) -> (r: Option<usize>)
    ensures
        match r {
            Some(i) => i < store@.keys(kind).len() && store@.keys(kind)[i as int] == key@
                && forall|j: int| 0 <= j < i ==> store@.keys(kind)[j] != key@,
            None => !store@.keys(kind).contains(key@),
        },
{
    let ghost keys = store@.keys(kind);
    let n = match kind {
        EmptyDataType::Collection => store.collections.len(),
        EmptyDataType::Project => store.projects.len(),
        EmptyDataType::Tag => store.tags.len(),
    };
    let mut i: usize = 0;
    while i < n
        invariant
            i <= n,
            n == keys.len(),
            keys == store@.keys(kind),
            forall|j: int| 0 <= j < i ==> keys[j] != key@,
        decreases n - i,
    {
        let hit = match kind {
            EmptyDataType::Collection => store.collections[i].path == *key,
            EmptyDataType::Project => store.projects[i].path == *key,
            EmptyDataType::Tag => store.tags[i].name == *key,
        };
        if hit {
            return Some(i);
        }
        i += 1;
    }
    None
}

/// The first row of the table of one kind that has the identifier.
fn find_id(store: &Store, kind: EmptyDataType, id: i64) -> (r: Option<usize>)
    ensures
        match r {
            Some(i) => i < store@.ids(kind).len() && store@.ids(kind)[i as int] == id
                && forall|j: int| 0 <= j < i ==> store@.ids(kind)[j] != id,
            None => !store@.ids(kind).contains(id),
        },
{
    let ghost ids = store@.ids(kind);
    let n = match kind {
        EmptyDataType::Collection => store.collections.len(),
        EmptyDataType::Project => store.projects.len(),
        EmptyDataType::Tag => store.tags.len(),
    };
    let mut i: usize = 0;
    while i < n
        invariant
            i <= n,
            n == ids.len(),
            ids == store@.ids(kind),
            forall|j: int| 0 <= j < i ==> ids[j] != id,
        decreases n - i,
    {
        let here = match kind {
            EmptyDataType::Collection => store.collections[i].id,
            EmptyDataType::Project => store.projects[i].id,
            EmptyDataType::Tag => store.tags[i].id,
        };
        if here == id {
            return Some(i);
        }
        i += 1;
    }
    None
}

/// Where the entity's row stands in its table, if it is there.
fn locate(store: &Store, data: &DataType) -> (r: Option<usize>)
    ensures
        r is Some <==> store@.contains(data.entity()),
        match r {
            Some(i) => i < store@.keys(data.kind()).len() && store@.keys(data.kind())[i as int]
                == data.entity().key(),
            None => true,
        },
{
    match data {
        DataType::Collection(c) => find_key(store, EmptyDataType::Collection, &c.path),
        DataType::Project(p) => find_key(store, EmptyDataType::Project, &p.path),
        DataType::Tag(t) => {
            let name = to_lowercase(t.name.as_str());
            find_key(store, EmptyDataType::Tag, &name)
        },
    }
}

/// Whether the entity is in the store: a collection or a project by its
/// path, a tag by its lowercase name.
pub fn is_present(store: &Store, data: &DataType) -> (r: bool)
    ensures
        r == store@.contains(data.entity()),
{
    locate(store, data).is_some()
}

/// The identifier under which the entity is stored.
pub fn get_id(store: &Store, data: &DataType) -> (r: Result<i64, NotFoundError>)
    requires
        store.wf(),
    ensures
        match r {
            Ok(id) => store@.contains(data.entity()) && id == store@.id_of(data.entity()),
            Err(e) => !store@.contains(data.entity()) && e == NotFoundError::of(data.kind()),
        },
{
    match locate(store, data) {
        None => Err(NotFoundError::of(data.kind())),
        Some(i) => {
            proof {
                lemma_index_of(store@.keys(data.kind()), i as int);
            }
            Ok(
                match data {
                    DataType::Collection(_) => store.collections[i].id,
                    DataType::Project(_) => store.projects[i].id,
                    DataType::Tag(_) => store.tags[i].id,
                },
            )
        },
    }
}

/// The greatest identifier in the table of the given kind, or 0.
fn largest_id(store: &Store, kind: EmptyDataType) -> (m: i64)
    ensures
        m == greatest(store@.ids(kind)),
{
    let ghost ids = store@.ids(kind);
    let n = match kind {
        EmptyDataType::Collection => store.collections.len(),
        EmptyDataType::Project => store.projects.len(),
        EmptyDataType::Tag => store.tags.len(),
    };
    let mut m: i64 = 0;
    let mut i: usize = 0;
    while i < n
        invariant
            i <= n,
            n == ids.len(),
            ids == store@.ids(kind),
            m == greatest(ids.take(i as int)),
        decreases n - i,
    {
        let id = match kind {
            EmptyDataType::Collection => store.collections[i].id,
            EmptyDataType::Project => store.projects[i].id,
            EmptyDataType::Tag => store.tags[i].id,
        };
        proof {
            lemma_greatest_step(ids, i as int);
        }
        if id > m {
            m = id;
        }
        i += 1;
    }
    assert(ids.take(n as int) == ids);
    m
}

/// Puts a new entity into the store: a collection with its path, a project
/// with its name and path and no owner, a tag with its lowercase name. The
/// tags and the owner that the value carries are not stored.
pub fn add(store: &mut Store, data: &DataType) -> (r: Result<(), AlreadyExistsError>)
    requires
        old(store).wf(),
        old(store)@.has_room(data.kind()),
    ensures
        final(store).wf(),
        r == old(store)@.add_outcome(data.entity()),
        final(store)@ == old(store)@.added(data.entity()),
        final(store)@.contains(data.entity()),
        old(store)@.grows_by(
            final(store)@,
            if data is Collection {
                1
            } else {
                0
            },
            if data is Project {
                1
            } else {
                0
            },
            if data is Tag {
                1
            } else {
                0
            },
        ),
{
    proof {
        law_add_then_present(old(store)@, data.entity());
        old(store)@.lemma_added_used(data.entity(), EmptyDataType::Collection);
        old(store)@.lemma_added_used(data.entity(), EmptyDataType::Project);
        old(store)@.lemma_added_used(data.entity(), EmptyDataType::Tag);
    }
    if locate(store, data).is_some() {
        return Err(AlreadyExistsError);
    }
    let id = largest_id(store, data.kind()) + 1;
    match data {
        DataType::Collection(c) => {
            store.collections.push(CollectionRow { id, path: c.path.clone() });
        },
        DataType::Project(p) => {
            store.projects.push(
                ProjectRow { id, name: p.name.clone(), path: p.path.clone(), collection_id: None },
            );
        },
        DataType::Tag(t) => {
            store.tags.push(TagRow { id, name: to_lowercase(t.name.as_str()) });
        },
    }
    proof {
        let before = old(store)@;
        let after = before.insert(data.entity());
        assert(store@.collections =~= after.collections);
        assert(store@.projects =~= after.projects);
        assert(store@.tags =~= after.tags);
        before.lemma_insert_wf(data.entity());
    }
    Ok(())
}

/// The links that pass: those that do not start at `id`, or, with `by_tag`,
/// those that do not end there.
fn spared(links: &Vec<Link>, id: i64, by_tag: bool) -> (r: Vec<Link>)
    ensures
        r@ == links@.filter(
            if by_tag {
                spares_tag(id)
            } else {
                spares_data(id)
            },
        ),
{
    let ghost pred = if by_tag {
        spares_tag(id)
    } else {
        spares_data(id)
    };
    let mut out: Vec<Link> = Vec::new();
    let mut i: usize = 0;
    proof {
        reveal(Seq::filter);
    }
    while i < links.len()
        invariant
            i <= links.len(),
            pred == if by_tag {
                spares_tag(id)
            } else {
                spares_data(id)
            },
            out@ == links@.take(i as int).filter(pred),
        decreases links.len() - i,
    {
        let l = links[i];
        proof {
            links@.take(i as int).lemma_filter_push(l, pred);
            assert(links@.take(i + 1) == links@.take(i as int).push(l));
        }
        let end = if by_tag {
            l.tag_id
        } else {
            l.data_id
        };
        if end != id {
            out.push(l);
        }
        i += 1;
    }
    assert(links@.take(links.len() as int) == links@);
    out
}

/// Takes the owner away from every project that `cid` owns.
fn orphan(rows: &mut Vec<ProjectRow>, cid: i64)
    ensures
        project_recs(final(rows)@) == project_recs(old(rows)@).map_values(
            |p: ProjectRec| orphaned(p, cid),
        ),
{
    let mut i: usize = 0;
    while i < rows.len()
        invariant
            i <= rows.len(),
            rows.len() == old(rows).len(),
            forall|j: int| 0 <= j < i ==> rows@[j]@ == orphaned(old(rows)@[j]@, cid),
            forall|j: int| i <= j < rows.len() ==> rows@[j] == old(rows)@[j],
        decreases rows.len() - i,
    {
        let owned = match rows[i].collection_id {
            Some(c) => c == cid,
            None => false,
        };
        if owned {
            rows[i].collection_id = None;
        }
        i += 1;
    }
    assert(project_recs(rows@) =~= project_recs(old(rows)@).map_values(
        |p: ProjectRec| orphaned(p, cid),
    ));
}

/// Takes an entity out of the store, with every link to or from it. The
/// projects of a collection stay, without an owner. Where the entity is not
/// in the store, nothing happens.
pub fn delete(store: &mut Store, data: &DataType) -> (r: Result<(), DatabaseError>)
    requires
        old(store).wf(),
    ensures
        r is Ok,
        final(store).wf(),
        final(store)@ == old(store)@.remove(data.entity()),
        !final(store)@.contains(data.entity()),
        old(store)@.grows_by(final(store)@, 0, 0, 0),
{
    proof {
        law_delete_then_absent(old(store)@, data.entity());
        old(store)@.lemma_removed_used(data.entity(), EmptyDataType::Collection);
        old(store)@.lemma_removed_used(data.entity(), EmptyDataType::Project);
        old(store)@.lemma_removed_used(data.entity(), EmptyDataType::Tag);
    }
    if let Some(i) = locate(store, data) {
        match data {
            DataType::Collection(_) => {
                proof {
                    lemma_index_of(store@.collection_paths(), i as int);
                }
                let row = store.collections.remove(i);
                orphan(&mut store.projects, row.id);
                store.collection_tags = spared(&store.collection_tags, row.id, false);
            },
            DataType::Project(_) => {
                proof {
                    lemma_index_of(store@.project_paths(), i as int);
                }
                let row = store.projects.remove(i);
                store.project_tags = spared(&store.project_tags, row.id, false);
            },
            DataType::Tag(_) => {
                proof {
                    lemma_index_of(store@.tag_names(), i as int);
                }
                let row = store.tags.remove(i);
                store.project_tags = spared(&store.project_tags, row.id, true);
                store.collection_tags = spared(&store.collection_tags, row.id, true);
            },
        }
        proof {
            let after = old(store)@.remove(data.entity());
            assert(store@.collections =~= after.collections);
            assert(store@.projects =~= after.projects);
            assert(store@.tags =~= after.tags);
        }
    }
    proof {
        old(store)@.lemma_remove_wf(data.entity());
    }
    Ok(())
}

/// The first place at which the link stands in the table.
fn find_link(links: &Vec<Link>, l: Link) -> (r: Option<usize>)
    ensures
        match r {
            Some(i) => i < links.len() && links@[i as int] == l && forall|j: int|
                0 <= j < i ==> links@[j] != l,
            None => !links@.contains(l),
        },
{
    let mut i: usize = 0;
    while i < links.len()
        invariant
            i <= links.len(),
            forall|j: int| 0 <= j < i ==> links@[j] != l,
        decreases links.len() - i,
    {
        if links[i].data_id == l.data_id && links[i].tag_id == l.tag_id {
            return Some(i);
        }
        i += 1;
    }
    None
}

fn has_link(links: &Vec<Link>, l: Link) -> (r: bool)
    ensures
        r == links@.contains(l),
{
    find_link(links, l).is_some()
}

/// Whether no key stands twice in the table of one kind.
fn distinct_keys(store: &Store, kind: EmptyDataType) -> (r: bool)
    ensures
        r == store@.keys(kind).no_duplicates(),
{
    let ghost keys = store@.keys(kind);
    let n = match kind {
        EmptyDataType::Collection => store.collections.len(),
        EmptyDataType::Project => store.projects.len(),
        EmptyDataType::Tag => store.tags.len(),
    };
    let mut i: usize = 0;
    while i < n
        invariant
            i <= n,
            n == keys.len(),
            keys == store@.keys(kind),
            forall|a: int, b: int| 0 <= a < b < i ==> keys[a] != keys[b],
        decreases n - i,
    {
        let first = match kind {
            EmptyDataType::Collection => find_key(store, kind, &store.collections[i].path),
            EmptyDataType::Project => find_key(store, kind, &store.projects[i].path),
            EmptyDataType::Tag => find_key(store, kind, &store.tags[i].name),
        };
        match first {
            Some(j) if j == i => {},
            _ => {
                proof {
                    assert(keys.contains(keys[i as int]));
                    if let Some(j) = first {
                        assert(keys[j as int] == keys[i as int]);
                    }
                }
                return false;
            },
        }
        i += 1;
    }
    true
}

/// Whether no identifier stands twice in the table of one kind.
fn distinct_ids(store: &Store, kind: EmptyDataType) -> (r: bool)
    ensures
        r == store@.ids(kind).no_duplicates(),
{
    let ghost ids = store@.ids(kind);
    let n = match kind {
        EmptyDataType::Collection => store.collections.len(),
        EmptyDataType::Project => store.projects.len(),
        EmptyDataType::Tag => store.tags.len(),
    };
    let mut i: usize = 0;
    while i < n
        invariant
            i <= n,
            n == ids.len(),
            ids == store@.ids(kind),
            forall|a: int, b: int| 0 <= a < b < i ==> ids[a] != ids[b],
        decreases n - i,
    {
        let id = match kind {
            EmptyDataType::Collection => store.collections[i].id,
            EmptyDataType::Project => store.projects[i].id,
            EmptyDataType::Tag => store.tags[i].id,
        };
        let first = find_id(store, kind, id);
        match first {
            Some(j) if j == i => {},
            _ => {
                proof {
                    assert(ids.contains(ids[i as int]));
                    if let Some(j) = first {
                        assert(ids[j as int] == ids[i as int]);
                    }
                }
                return false;
            },
        }
        i += 1;
    }
    true
}

/// The links, each where it first stands.
fn once(links: &Vec<Link>) -> (r: Vec<Link>)
    ensures
        r@ == distinct(links@),
{
    let mut out: Vec<Link> = Vec::new();
    let mut i: usize = 0;
    while i < links.len()
        invariant
            i <= links.len(),
            out@ == distinct(links@.take(i as int)),
        decreases links.len() - i,
    {
        assert(links@.take(i + 1).drop_last() == links@.take(i as int));
        if !has_link(&out, links[i]) {
            out.push(links[i]);
        }
        i += 1;
    }
    assert(links@.take(links.len() as int) == links@);
    out
}

/// The tag rows with their names in lowercase.
fn fold_names(tags: &Vec<TagRow>) -> (r: Vec<TagRow>)
    ensures
        tag_recs(r@) == folded(tag_recs(tags@)),
{
    let mut out: Vec<TagRow> = Vec::new();
    let mut i: usize = 0;
    while i < tags.len()
        invariant
            i <= tags.len(),
            out.len() == i,
            forall|j: int|
                0 <= j < i ==> (#[trigger] out[j])@ == (TagRec {
                    id: tags[j].id,
                    name: crate::tags::lowercase(tags[j].name@),
                }),
        decreases tags.len() - i,
    {
        out.push(TagRow { id: tags[i].id, name: to_lowercase(tags[i].name.as_str()) });
        i += 1;
    }
    assert(tag_recs(out@) =~= folded(tag_recs(tags@)));
    out
}

/// Whether every owner of a project is a collection of the store.
fn owners_known(store: &Store) -> (r: bool)
    ensures
        r == store@.owners_known(),
{
    let mut i: usize = 0;
    while i < store.projects.len()
        invariant
            i <= store.projects.len(),
            forall|j: int|
                0 <= j < i ==> match (#[trigger] store@.projects[j]).collection_id {
                    Some(c) => store@.collection_ids().contains(c),
                    None => true,
                },
        decreases store.projects.len() - i,
    {
        if let Some(c) = store.projects[i].collection_id {
            if find_id(store, EmptyDataType::Collection, c).is_none() {
                assert(store@.projects[i as int].collection_id == Some(c));
                return false;
            }
        }
        i += 1;
    }
    true
}

/// Whether both ends of every link of a table are rows of the store.
fn links_valid(store: &Store, of_projects: bool) -> (r: bool)
    ensures
        r == if of_projects {
            links_known(store@.project_tags, store@.project_ids(), store@.tag_ids())
        } else {
            links_known(store@.collection_tags, store@.collection_ids(), store@.tag_ids())
        },
{
    let links = if of_projects {
        &store.project_tags
    } else {
        &store.collection_tags
    };
    let kind = if of_projects {
        EmptyDataType::Project
    } else {
        EmptyDataType::Collection
    };
    let mut i: usize = 0;
    while i < links.len()
        invariant
            i <= links.len(),
            links@ == if of_projects {
                store@.project_tags
            } else {
                store@.collection_tags
            },
            kind == if of_projects {
                EmptyDataType::Project
            } else {
                EmptyDataType::Collection
            },
            links_known(links@.take(i as int), store@.ids(kind), store@.tag_ids()),
        decreases links.len() - i,
    {
        let l = links[i];
        if find_id(store, kind, l.data_id).is_none() || find_id(
            store,
            EmptyDataType::Tag,
            l.tag_id,
        ).is_none() {
            assert(links@[i as int] == l);
            return false;
        }
        assert(links@.take(i + 1) == links@.take(i as int).push(l));
        i += 1;
    }
    assert(links@.take(links.len() as int) == links@);
    true
}

/// Whether the tables of a store that holds no link twice are consistent.
fn consistent(store: &Store) -> (r: bool)
    requires
        store@.links_unique(),
    ensures
        r == store.wf(),
{
    distinct_ids(store, EmptyDataType::Collection) && distinct_keys(
        store,
        EmptyDataType::Collection,
    ) && distinct_ids(store, EmptyDataType::Project) && distinct_keys(
        store,
        EmptyDataType::Project,
    ) && distinct_ids(store, EmptyDataType::Tag) && distinct_keys(store, EmptyDataType::Tag)
        && owners_known(store) && links_valid(store, true) && links_valid(store, false)
}

/// Attaches a tag to a collection or a project. The tag goes by its
/// lowercase name. Where it does not exist yet, `force` decides: with it the
/// tag is created first, without it the call fails. A tag that is attached
/// already stays attached once.
pub fn add_tag(store: &mut Store, data: &DataType, tag: Tag, force: bool) -> (r: Result<
    (),
    NotFoundError,
>)
    requires
        old(store).wf(),
        !(data is Tag),
        old(store)@.has_room(EmptyDataType::Tag),
    ensures
        final(store).wf(),
        r == old(store)@.tag_outcome(data.entity(), tag.key(), force),
        final(store)@ == old(store)@.tagged(data.entity(), tag.key(), force),
        r is Ok ==> final(store)@.has_tag(tag.key()) && final(store)@.tags_of(
            data.entity(),
        ).contains(tag.key()),
        old(store)@.grows_by(final(store)@, 0, 0, 1),
{
    proof {
        if old(store)@.tag_outcome(data.entity(), tag.key(), force) is Ok {
            law_tag_attaches(old(store)@, data.entity(), tag.key(), force);
        }
        let e = data.entity();
        old(store)@.lemma_tagged_used(e, tag.key(), force, EmptyDataType::Collection);
        old(store)@.lemma_tagged_used(e, tag.key(), force, EmptyDataType::Project);
        old(store)@.lemma_tagged_used(e, tag.key(), force, EmptyDataType::Tag);
    }
    let at = match locate(store, data) {
        Some(i) => i,
        None => {
            return Err(NotFoundError::of(data.kind()));
        },
    };
    let name = to_lowercase(tag.name.as_str());
    let tag_at = match find_key(store, EmptyDataType::Tag, &name) {
        Some(j) => j,
        None => {
            if !force {
                return Err(NotFoundError::Tag);
            }
            let id = largest_id(store, EmptyDataType::Tag) + 1;
            store.tags.push(TagRow { id, name });
            store.tags.len() - 1
        },
    };
    let ghost with_tag = old(store)@.with_tag(tag.key());
    proof {
        old(store)@.lemma_with_tag(tag.key());
        old(store)@.lemma_link_wf(data.entity(), tag.key());
        assert(store@.tags =~= with_tag.tags);
        assert(store@ == with_tag);
        lemma_index_of(with_tag.tag_names(), tag_at as int);
    }
    let tag_id = store.tags[tag_at].id;
    match data {
        DataType::Collection(_) => {
            proof {
                lemma_index_of(with_tag.collection_paths(), at as int);
            }
            let l = Link { data_id: store.collections[at].id, tag_id };
            if !has_link(&store.collection_tags, l) {
                store.collection_tags.push(l);
            }
        },
        DataType::Project(_) => {
            proof {
                lemma_index_of(with_tag.project_paths(), at as int);
            }
            let l = Link { data_id: store.projects[at].id, tag_id };
            if !has_link(&store.project_tags, l) {
                store.project_tags.push(l);
            }
        },
        DataType::Tag(_) => {},
    }
    Ok(())
}

/// Makes a collection the owner of a project. Both must be in the store.
pub fn add_project_collection(store: &mut Store, proj: &DataType, collection: &DataType) -> (r:
    Result<(), NotFoundError>)
    requires
        old(store).wf(),
    ensures
        final(store).wf(),
        r == old(store)@.adopt_outcome(proj.entity(), collection.entity()),
        final(store)@ == old(store)@.adopted(proj.entity(), collection.entity()),
        old(store)@.grows_by(final(store)@, 0, 0, 0),
{
    proof {
        let p = proj.entity();
        let c = collection.entity();
        old(store)@.lemma_adopted_used(p, c, EmptyDataType::Collection);
        old(store)@.lemma_adopted_used(p, c, EmptyDataType::Project);
        old(store)@.lemma_adopted_used(p, c, EmptyDataType::Tag);
    }
    let at = match (proj, locate(store, proj)) {
        (DataType::Project(_), Some(i)) => i,
        _ => {
            return Err(NotFoundError::Project);
        },
    };
    let owner = match (collection, locate(store, collection)) {
        (DataType::Collection(_), Some(i)) => i,
        _ => {
            return Err(NotFoundError::Collection);
        },
    };
    proof {
        lemma_index_of(store@.project_paths(), at as int);
        lemma_index_of(store@.collection_paths(), owner as int);
        old(store)@.lemma_adopt_wf(proj.entity(), collection.entity());
    }
    store.projects[at].collection_id = Some(store.collections[owner].id);
    assert(store@.projects =~= old(store)@.adopted(proj.entity(), collection.entity()).projects);
    Ok(())
}

/// What a list of collections shows, in order.
pub open spec fn collection_views(list: Seq<Collection>) -> Seq<CollectionView> {
    list.map_values(|c: Collection| c@)
}

/// What a list of projects shows, in order.
pub open spec fn project_views(list: Seq<Project>) -> Seq<ProjectView> {
    list.map_values(|p: Project| p@)
}

/// The tags that the link table attaches to the entity `id`.
fn linked_tags(tags: &Vec<TagRow>, links: &Vec<Link>, id: i64) -> (r: Vec<Tag>)
    ensures
        tag_names(r@) == names_of(tag_recs(tags@).filter(carried(links@, id))),
{
    let ghost pred = carried(links@, id);
    let ghost recs = tag_recs(tags@);
    let mut out: Vec<Tag> = Vec::new();
    let mut i: usize = 0;
    proof {
        reveal(Seq::filter);
        assert(tag_names(out@) =~= names_of(recs.take(0).filter(pred)));
    }
    while i < tags.len()
        invariant
            i <= tags.len(),
            pred == carried(links@, id),
            recs == tag_recs(tags@),
            tag_names(out@) == names_of(recs.take(i as int).filter(pred)),
        decreases tags.len() - i,
    {
        let ghost before = out@;
        proof {
            recs.take(i as int).lemma_filter_push(recs[i as int], pred);
            assert(recs.take(i + 1) == recs.take(i as int).push(recs[i as int]));
        }
        if has_link(links, Link { data_id: id, tag_id: tags[i].id }) {
            out.push(Tag { name: tags[i].name.clone() });
            assert(tag_names(out@) =~= tag_names(before).push(recs[i as int].name));
            assert(names_of(recs.take(i as int).filter(pred).push(recs[i as int])) =~= names_of(
                recs.take(i as int).filter(pred),
            ).push(recs[i as int].name));
        }
        i += 1;
    }
    assert(recs.take(tags.len() as int) == recs);
    out
}

/// The tags attached to the project itself, not those of its owner.
pub fn get_project_tags(store: &Store, project_id: i64) -> (r: Vec<Tag>)
    requires
        store.wf(),
    ensures
        tag_names(r@) == store@.project_tags_of(project_id),
        tag_names(r@).no_duplicates(),
{
    proof {
        store@.lemma_tags_linked_distinct(store@.project_tags, project_id);
    }
    linked_tags(&store.tags, &store.project_tags, project_id)
}

/// The tags attached to the collection.
pub fn get_collection_tags(store: &Store, collection_id: i64) -> (r: Vec<Tag>)
    requires
        store.wf(),
    ensures
        tag_names(r@) == store@.collection_tags_of(collection_id),
        tag_names(r@).no_duplicates(),
{
    proof {
        store@.lemma_tags_linked_distinct(store@.collection_tags, collection_id);
    }
    linked_tags(&store.tags, &store.collection_tags, collection_id)
}

/// Every collection, in the order in which they were added, each with the
/// tags attached to it.
pub fn list_collections(store: &Store) -> (r: Vec<Collection>)
    requires
        store.wf(),
    ensures
        collection_views(r@) == store@.list_collections(),
        forall|i: int| 0 <= i < r.len() ==> (#[trigger] r[i]@).tags.no_duplicates(),
{
    let mut out: Vec<Collection> = Vec::new();
    let mut i: usize = 0;
    while i < store.collections.len()
        invariant
            store.wf(),
            i <= store.collections.len(),
            out.len() == i,
            forall|j: int|
                0 <= j < i ==> (#[trigger] out[j]@) == store@.listed_collection(
                    store@.collections[j],
                ),
            forall|j: int| 0 <= j < i ==> (#[trigger] out[j]@).tags.no_duplicates(),
        decreases store.collections.len() - i,
    {
        let row = &store.collections[i];
        let tags = get_collection_tags(store, row.id);
        out.push(Collection { path: row.path.clone(), tags });
        i += 1;
    }
    assert(collection_views(out@) =~= store@.list_collections());
    out
}

/// Every tag, in the order in which they were added.
pub fn list_tags(store: &Store) -> (r: Vec<Tag>)
    ensures
        tag_names(r@) == store@.tag_names(),
{
    let mut out: Vec<Tag> = Vec::new();
    let mut i: usize = 0;
    while i < store.tags.len()
        invariant
            i <= store.tags.len(),
            out.len() == i,
            forall|j: int| 0 <= j < i ==> (#[trigger] out[j])@ == store@.tags[j].name,
        decreases store.tags.len() - i,
    {
        out.push(Tag { name: store.tags[i].name.clone() });
        i += 1;
    }
    assert(tag_names(out@) =~= store@.tag_names());
    out
}

/// The collection that owns the project row, as a listing shows it.
fn owner_of(store: &Store, row: &ProjectRow) -> (r: Option<Collection>)
    requires
        store.wf(),
    ensures
        match (r, store@.owner(row@)) {
            (Some(c), Some(rec)) => c@ == store@.listed_collection(rec)
                && c@.tags.no_duplicates(),
            (None, None) => true,
            _ => false,
        },
{
    match row.collection_id {
        None => None,
        Some(cid) => match find_id(store, EmptyDataType::Collection, cid) {
            None => None,
            Some(k) => {
                proof {
                    lemma_index_of(store@.collection_ids(), k as int);
                }
                let owner = &store.collections[k];
                Some(
                    Collection {
                        path: owner.path.clone(),
                        tags: get_collection_tags(store, owner.id),
                    },
                )
            },
        },
    }
}

/// Every project, in the order in which they were added, each with the
/// tags attached to the project itself and with the collection that owns
/// it. What the project has from its owner is left to `effective_tags`.
pub fn list_projects(store: &Store) -> (r: Vec<Project>)
    requires
        store.wf(),
    ensures
        project_views(r@) == store@.list_projects(),
        forall|i: int| 0 <= i < r.len() ==> (#[trigger] r[i]@).tags.no_duplicates(),
        forall|i: int|
            0 <= i < r.len() ==> match (#[trigger] r[i]@).collection {
                Some(c) => c.tags.no_duplicates(),
                None => true,
            },
{
    let mut out: Vec<Project> = Vec::new();
    let mut i: usize = 0;
    while i < store.projects.len()
        invariant
            store.wf(),
            i <= store.projects.len(),
            out.len() == i,
            forall|j: int|
                0 <= j < i ==> (#[trigger] out[j]@) == store@.listed_project(store@.projects[j]),
            forall|j: int| 0 <= j < i ==> (#[trigger] out[j]@).tags.no_duplicates(),
            forall|j: int|
                0 <= j < i ==> match (#[trigger] out[j]@).collection {
                    Some(c) => c.tags.no_duplicates(),
                    None => true,
                },
        decreases store.projects.len() - i,
    {
        let row = &store.projects[i];
        let tags = get_project_tags(store, row.id);
        let collection = owner_of(store, row);
        out.push(Project { name: row.name.clone(), path: row.path.clone(), collection, tags });
        i += 1;
    }
    assert(project_views(out@) =~= store@.list_projects());
    out
}

/// The entities of a listing, in order, as the store sees them listed.
pub open spec fn listed(s: Tables, kind: EmptyDataType) -> Seq<DataView> {
    match kind {
        EmptyDataType::Collection => s.list_collections().map_values(
            |c: CollectionView| DataView::Collection(c),
        ),
        EmptyDataType::Project => s.list_projects().map_values(
            |p: ProjectView| DataView::Project(p),
        ),
        EmptyDataType::Tag => s.tag_names().map_values(|t: Seq<char>| DataView::Tag(t)),
    }
}

/// Every entity of one kind, in the order in which they were added: the
/// collections as `list_collections` gives them, the projects as
/// `list_projects` does, the tags as `list_tags` does.
pub fn list(store: &Store, kind: EmptyDataType) -> (r: Vec<DataType>)
    requires
        store.wf(),
    ensures
        r@.map_values(|d: DataType| d@) == listed(store@, kind),
{
    let mut out: Vec<DataType> = Vec::new();
    match kind {
        EmptyDataType::Collection => {
            let all = list_collections(store);
            let ghost views = collection_views(all@);
            for c in it: all
                invariant
                    out.len() == it.index(),
                    collection_views(it.seq()) == views,
                    forall|i: int|
                        0 <= i < out.len() ==> (#[trigger] out[i])@ == DataView::Collection(views[i]),
            {
                out.push(DataType::Collection(c));
            }
        },
        EmptyDataType::Project => {
            let all = list_projects(store);
            let ghost views = project_views(all@);
            for p in it: all
                invariant
                    out.len() == it.index(),
                    project_views(it.seq()) == views,
                    forall|i: int|
                        0 <= i < out.len() ==> (#[trigger] out[i])@ == DataView::Project(views[i]),
            {
                out.push(DataType::Project(p));
            }
        },
        EmptyDataType::Tag => {
            let all = list_tags(store);
            let ghost views = tag_names(all@);
            for t in it: all
                invariant
                    out.len() == it.index(),
                    tag_names(it.seq()) == views,
                    forall|i: int| 0 <= i < out.len() ==> (#[trigger] out[i])@ == DataView::Tag(views[i]),
            {
                out.push(DataType::Tag(t));
            }
        },
    }
    assert(out@.map_values(|d: DataType| d@) =~= listed(store@, kind));
    out
}

/// Puts the folder at `path` into the store as a project, named after the
/// folder.
pub fn add_project(store: &mut Store, path: &str) -> (r: Result<(), AlreadyExistsError>)
    requires
        old(store).wf(),
        old(store)@.has_room(EmptyDataType::Project),
    ensures
        final(store).wf(),
        r == old(store)@.add_outcome(Entity::Project { name: base_name(path@), path: path@ }),
        final(store)@ == old(store)@.added(
            Entity::Project { name: base_name(path@), path: path@ },
        ),
        old(store)@.grows_by(final(store)@, 0, 1, 0),
{
    let project = from_path(path);
    self::add(store, &project)
}

/// Attaches each of the tags in turn, as `add_tag` does, and goes on after
/// a failure. The answers come back in the order of the tags.
pub fn add_tags(store: &mut Store, data: &DataType, tags: &Vec<Tag>, force: bool) -> (r: Vec<
    Result<(), NotFoundError>,
>)
    requires
        old(store).wf(),
        !(data is Tag),
        old(store)@.room(EmptyDataType::Tag, tags.len() as int),
    ensures
        final(store).wf(),
        final(store)@ == old(store)@.tagged_all(data.entity(), tag_keys(tags@), force),
        r@ == old(store)@.tag_outcomes(data.entity(), tag_keys(tags@), force),
        old(store)@.grows_by(final(store)@, 0, 0, tags.len() as int),
{
    proof {
        let e = data.entity();
        old(store)@.lemma_tagged_all(e, tag_keys(tags@), force, EmptyDataType::Collection);
        old(store)@.lemma_tagged_all(e, tag_keys(tags@), force, EmptyDataType::Project);
        old(store)@.lemma_tagged_all(e, tag_keys(tags@), force, EmptyDataType::Tag);
    }
    let ghost start = store@;
    let ghost e = data.entity();
    let ghost keys = tag_keys(tags@);
    let mut out: Vec<Result<(), NotFoundError>> = Vec::new();
    let mut i: usize = 0;
    while i < tags.len()
        invariant
            i <= tags.len(),
            store.wf(),
            !(data is Tag),
            e == data.entity(),
            keys == tag_keys(tags@),
            store@.room(EmptyDataType::Tag, tags.len() - i),
            store@ == start.tagged_all(e, keys.take(i as int), force),
            out.len() == i,
            forall|j: int|
                0 <= j < i ==> out[j] == start.tagged_all(e, keys.take(j), force).tag_outcome(
                    e,
                    keys[j],
                    force,
                ),
        decreases tags.len() - i,
    {
        proof {
            store@.lemma_tagged_used(e, keys[i as int], force, EmptyDataType::Tag);
            assert(keys.take(i + 1).drop_last() == keys.take(i as int));
        }
        let answer = add_tag(store, data, tags[i].clone(), force);
        out.push(answer);
        i += 1;
    }
    assert(keys.take(tags.len() as int) == keys);
    assert(out@ =~= start.tag_outcomes(e, keys, force));
    out
}

/// What setting up the store takes, given what is on disk. A folder that is
/// missing is made. With `reset`, a store that exists is set aside under a
/// name that carries `date`, never destroyed, and a new one is made; without
/// it a new one is made only where none exists.
pub fn init(location: &Location, dir_exists: bool, file_exists: bool, reset: bool, date: &str) -> (r:
    Setup)
    ensures
        r.create_dir == !dir_exists,
        r.create == (reset || !file_exists),
        match r.backup {
            Some(to) => reset && file_exists && to@ == joined(location.dir@, backup_name(date@)),
            None => !(reset && file_exists),
        },
{
    let backup = if reset && file_exists {
        Some(location.backup(date))
    } else {
        None
    };
    Setup { create_dir: !dir_exists, backup, create: reset || !file_exists }
}

} // verus!
