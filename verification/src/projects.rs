//! Projects: folders that are tracked one by one.

use crate::auto_tags::{auto_tag_project, auto_tagged, Found};
use crate::database::{add_tags, Store};
use crate::model::Tables;
use crate::paths::{base_name, base_name_of};
use crate::types::{
    tag_keys, AlreadyExistsError, DataType, EmptyDataType, Entity, Project, ProjectView, Tag,
};
use vstd::prelude::*;

verus! {

/// The project that the folder at a path stands for, as the store sees it.
pub open spec fn project_at(full_path: Seq<char>) -> Entity {
    Entity::Project { name: base_name(full_path), path: full_path }
}

/// The project that the folder at `full_path` stands for: named after the
/// folder, with no owner and no tags. The path is taken as it is; it is
/// expected to be absolute and canonical.
pub fn from_path(full_path: &str) -> (r: DataType)
    ensures
        r matches DataType::Project(p) && p@ == (ProjectView {
            name: base_name(full_path@),
            path: full_path@,
            collection: None,
            tags: Seq::empty(),
        }),
        r.entity() == project_at(full_path@),
{
    let p = Project {
        name: base_name_of(full_path),
        path: String::from_str(full_path),
        collection: None,
        tags: Vec::new(),
    };
    assert(p@.tags =~= Seq::empty());
    DataType::Project(p)
}

/// The tables after the folder at `path` has been taken in as a project:
/// the project is added, the given tags are attached to it, created where
/// they are missing, and then the tags that the markers suggest. Where the
/// project is there already, nothing changes.
pub open spec fn registered(s: Tables, path: Seq<char>, tags: Seq<Seq<char>>, found: Found) -> Tables {
    let e = project_at(path);
    if s.contains(e) {
        s
    } else {
        auto_tagged(s.insert(e).tagged_all(e, tags, true), e, Seq::empty(), found)
    }
}

/// Takes the folder at `path` in as a project: adds it, attaches the given
/// tags, creating those that are missing, and then the tags that the markers
/// found in the folder suggest. Fails, and changes nothing, where the
/// project is in the store already.
pub fn add(store: &mut Store, path: &str, tags: &Vec<Tag>, found: &Found) -> (r: Result<
    (),
    AlreadyExistsError,
>)
    requires
        old(store).wf(),
        old(store)@.has_room(EmptyDataType::Project),
        old(store)@.room(EmptyDataType::Tag, tags.len() + 3),
    ensures
        final(store).wf(),
        r == old(store)@.add_outcome(project_at(path@)),
        final(store)@ == registered(old(store)@, path@, tag_keys(tags@), *found),
        old(store)@.grows_by(final(store)@, 0, 1, tags.len() + 3),
{
    let proj = from_path(path);
    if let Err(e) = crate::database::add(store, &proj) {
        return Err(e);
    }
    let _ = add_tags(store, &proj, tags, true);
    auto_tag_project(store, &proj, found);
    Ok(())
}

} // verus!
