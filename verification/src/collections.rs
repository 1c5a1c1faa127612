//! Collections: folders whose subfolders are projects.

use crate::auto_tags::Found;
use crate::database::{add_project_collection, add_tags, Store};
use crate::model::Tables;
use crate::projects::{from_path, project_at, registered};
use crate::types::{
    tag_keys, AlreadyExistsError, Collection, CollectionView, DataType, EmptyDataType, Entity, Tag,
};
use vstd::prelude::*;

verus! {

/// The collection that the folder at a path stands for, as the store sees
/// it.
pub open spec fn collection_at(full_path: Seq<char>) -> Entity {
    Entity::Collection { path: full_path }
}

/// The collection that the folder at `full_path` stands for, with no tags.
/// The path is taken as it is; it is expected to be absolute and canonical.
pub fn path_to_collection(full_path: &str) -> (r: DataType)
    ensures
        r matches DataType::Collection(c) && c@ == (CollectionView {
            path: full_path@,
            tags: Seq::empty(),
        }),
        r.entity() == collection_at(full_path@),
{
    let c = Collection { path: String::from_str(full_path), tags: Vec::new() };
    assert(c@.tags =~= Seq::empty());
    DataType::Collection(c)
}

/// A folder inside a collection's folder, and the markers found in it.
#[derive(Debug)]
pub struct Subfolder {
    pub path: String,
    pub found: Found,
}

/// A subfolder as mathematics.
pub struct SubfolderView {
    pub path: Seq<char>,
    pub found: Found,
}

impl View for Subfolder {
    type V = SubfolderView;

    open spec fn view(&self) -> SubfolderView {
        SubfolderView { path: self.path@, found: self.found }
    }
}

pub open spec fn subfolder_views(subfolders: Seq<Subfolder>) -> Seq<SubfolderView> {
    subfolders.map_values(|s: Subfolder| s@)
}

/// The tables after each subfolder in turn has been taken in as a project,
/// with the tags its markers suggest, and given to the collection. A
/// subfolder that is a project already is given to the collection as it is.
pub open spec fn with_subfolders(s: Tables, collection: Entity, subfolders: Seq<SubfolderView>) -> Tables
    decreases subfolders.len(),
{
    if subfolders.len() == 0 {
        s
    } else {
        let sub = subfolders.last();
        registered(
            with_subfolders(s, collection, subfolders.drop_last()),
            sub.path,
            Seq::empty(),
            sub.found,
        ).adopted(project_at(sub.path), collection)
    }
}

/// The tables after the folder at `path` has been taken in as a collection:
/// the collection is added, the given tags are attached to it, created where
/// they are missing, and its subfolders become its projects. Where the
/// collection is there already, nothing changes.
pub open spec fn collected(
    s: Tables,
    path: Seq<char>,
    tags: Seq<Seq<char>>,
    subfolders: Seq<SubfolderView>,
) -> Tables {
    let c = collection_at(path);
    if s.contains(c) {
        s
    } else {
        with_subfolders(s.insert(c).tagged_all(c, tags, true), c, subfolders)
    }
}

/// Takes the folder at `path` in as a collection: adds it, attaches the
/// given tags, creating those that are missing, takes each subfolder in as a
/// project with the tags that its markers suggest, and makes the collection
/// the owner of each. Fails, and changes nothing, where the collection is
/// in the store already.
pub fn add(store: &mut Store, path: &str, tags: &Vec<Tag>, subfolders: &Vec<Subfolder>) -> (r:
    Result<(), AlreadyExistsError>)
    requires
        old(store).wf(),
        old(store)@.has_room(EmptyDataType::Collection),
        old(store)@.room(EmptyDataType::Project, subfolders.len() as int),
        old(store)@.room(EmptyDataType::Tag, tags.len() + 3 * subfolders.len()),
    ensures
        final(store).wf(),
        r == old(store)@.add_outcome(collection_at(path@)),
        final(store)@ == collected(
            old(store)@,
            path@,
            tag_keys(tags@),
            subfolder_views(subfolders@),
        ),
        old(store)@.grows_by(
            final(store)@,
            1,
            subfolders.len() as int,
            tags.len() + 3 * subfolders.len(),
        ),
{
    let collection = path_to_collection(path);
    if let Err(e) = crate::database::add(store, &collection) {
        return Err(e);
    }
    let ghost c = collection_at(path@);
    let _ = add_tags(store, &collection, tags, true);
    let ghost start = store@;
    let ghost subs = subfolder_views(subfolders@);
    let none: Vec<Tag> = Vec::new();
    assert(tag_keys(none@) =~= Seq::empty());
    let mut i: usize = 0;
    while i < subfolders.len()
        invariant
            i <= subfolders.len(),
            store.wf(),
            c == collection_at(path@),
            collection.entity() == c,
            subs == subfolder_views(subfolders@),
            tag_keys(none@) == Seq::<Seq<char>>::empty(),
            none.len() == 0,
            start.grows_by(store@, 0, i as int, 3 * i),
            start.room(EmptyDataType::Project, subfolders.len() as int),
            start.room(EmptyDataType::Tag, 3 * subfolders.len()),
            old(store)@.grows_by(start, 1, 0, tags.len() as int),
            store@ == with_subfolders(start, c, subs.take(i as int)),
        decreases subfolders.len() - i,
    {
        let sub = &subfolders[i];
        assert(subs.take(i + 1).drop_last() == subs.take(i as int));
        let project = from_path(sub.path.as_str());
        let _ = crate::projects::add(store, sub.path.as_str(), &none, &sub.found);
        let _ = add_project_collection(store, &project, &collection);
        i += 1;
    }
    assert(subs.take(subfolders.len() as int) == subs);
    Ok(())
}

/// Which collection a chosen line stands for: the first whose line is the
/// chosen text, by its place in the list.
pub fn goto(collections: &Vec<Collection>, chosen: &str) -> (r: Option<usize>)
    ensures
        match r {
            Some(i) => i < collections.len() && collections[i as int]@.display() == chosen@
                && forall|j: int| 0 <= j < i ==> (#[trigger] collections[j])@.display() != chosen@,
            None => forall|j: int|
                0 <= j < collections.len() ==> (#[trigger] collections[j])@.display() != chosen@,
        },
{
    let wanted = String::from_str(chosen);
    let mut i: usize = 0;
    while i < collections.len()
        invariant
            i <= collections.len(),
            wanted@ == chosen@,
            forall|j: int| 0 <= j < i ==> (#[trigger] collections[j])@.display() != chosen@,
        decreases collections.len() - i,
    {
        if collections[i].display() == wanted {
            return Some(i);
        }
        i += 1;
    }
    None
}

} // verus!
