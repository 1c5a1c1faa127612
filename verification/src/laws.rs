//! What holds of the store whatever it contains: the laws that relate its
//! operations to one another.

use crate::model::{carried, spares_data, spares_tag, Link, ProjectRec, Tables};
use crate::sequences::{lemma_filter_members, lemma_remove_no_duplicates};
use crate::tags::lowercase;
use crate::types::{AlreadyExistsError, DataType, Entity, NotFoundError, Tag};
use vstd::prelude::*;

verus! {

/// Once an entity has been added it is in the store, whether the call put it
/// there or found it there. Adding it again is refused and changes nothing.
pub proof fn law_add_then_present(s: Tables, e: Entity)
    ensures
        s.added(e).contains(e),
        s.added(e).add_outcome(e) == Err::<(), AlreadyExistsError>(AlreadyExistsError),
        s.added(e).added(e) == s.added(e),
{
    if !s.contains(e) {
        let t = s.insert(e);
        match e {
            Entity::Collection { path } => {
                assert(t.collection_paths()[s.collections.len() as int] == path);
            },
            Entity::Project { path, .. } => {
                assert(t.project_paths()[s.projects.len() as int] == path);
            },
            Entity::Tag { name } => {
                assert(t.tag_names()[s.tags.len() as int] == name);
            },
        }
    }
}

/// Deleting an entity that is not in the store changes nothing.
pub proof fn law_delete_absent(s: Tables, e: Entity)
    requires
        !s.contains(e),
    ensures
        s.remove(e) == s,
{
}

/// After an entity has been deleted it is not in the store.
pub proof fn law_delete_then_absent(s: Tables, e: Entity)
    requires
        s.wf(),
    ensures
        !s.remove(e).contains(e),
{
    if s.contains(e) {
        let t = s.remove(e);
        match e {
            Entity::Collection { path } => {
                let i = s.collection_paths().index_of(path);
                lemma_remove_no_duplicates(s.collection_paths(), i);
                assert(t.collection_paths() =~= s.collection_paths().remove(i));
            },
            Entity::Project { path, .. } => {
                let i = s.project_paths().index_of(path);
                lemma_remove_no_duplicates(s.project_paths(), i);
                assert(t.project_paths() =~= s.project_paths().remove(i));
            },
            Entity::Tag { name } => {
                let i = s.tag_names().index_of(name);
                lemma_remove_no_duplicates(s.tag_names(), i);
                assert(t.tag_names() =~= s.tag_names().remove(i));
            },
        }
    }
}

/// The tags a listed project has in effect are those attached to it in the
/// store together with those attached to the collection that owns it; with
/// no owner they are its own.
pub proof fn law_effective_tags(s: Tables, p: ProjectRec)
    ensures
        s.listed_project(p).effective_tags() == match s.owner(p) {
            Some(c) => s.project_tags_of(p.id).to_set().union(s.collection_tags_of(c.id).to_set()),
            None => s.project_tags_of(p.id).to_set(),
        },
{
    assert(s.listed_project(p).effective_tags() =~= match s.owner(p) {
        Some(c) => s.project_tags_of(p.id).to_set().union(s.collection_tags_of(c.id).to_set()),
        None => s.project_tags_of(p.id).to_set(),
    });
}

/// Deleting a collection leaves each project it owned in the store, without
/// an owner and with the tags that were attached to the project itself.
pub proof fn law_delete_collection_keeps_projects(
    s: Tables,
    collection: Seq<char>,
    project: Seq<char>,
)
    requires
        s.wf(),
        s.has_collection(collection),
        s.has_project(project),
        s.project(project).collection_id == Some(s.collection(collection).id),
    ensures
        ({
            let t = s.remove(Entity::Collection { path: collection });
            &&& t.has_project(project)
            &&& t.project(project) == ProjectRec { collection_id: None, ..s.project(project) }
            &&& t.owner(t.project(project)) is None
            &&& t.project_tags_of(t.project(project).id) == s.project_tags_of(
                s.project(project).id,
            )
        }),
{
    let t = s.remove(Entity::Collection { path: collection });
    assert(t.project_paths() =~= s.project_paths());
}

/// Deleting a tag deletes no collection and no project, and takes the tag's
/// name, and nothing else, out of the tags attached to each of them.
pub proof fn law_delete_tag_detaches(s: Tables, name: Seq<char>, id: i64)
    requires
        s.wf(),
    ensures
        ({
            let t = s.remove(Entity::Tag { name });
            &&& t.collections == s.collections
            &&& t.projects == s.projects
            &&& t.project_tags_of(id).to_set() == s.project_tags_of(id).to_set().remove(name)
            &&& t.collection_tags_of(id).to_set() == s.collection_tags_of(id).to_set().remove(
                name,
            )
        }),
{
    let t = s.remove(Entity::Tag { name });
    lemma_detached(s, s.project_tags, t.project_tags, name, id);
    lemma_detached(s, s.collection_tags, t.collection_tags, name, id);
}

/// The tags that one link table attaches to `id`, before and after the tag
/// `name` is deleted.
proof fn lemma_detached(
    s: Tables,
    links: Seq<Link>,
    left: Seq<Link>,
    name: Seq<char>,
    id: i64,
)
    requires
        s.wf(),
        left == if s.has_tag(name) {
            links.filter(spares_tag(s.tag(name).id))
        } else {
            links
        },
    ensures
        s.remove(Entity::Tag { name }).tags_linked(left, id).to_set() == s.tags_linked(
            links,
            id,
        ).to_set().remove(name),
{
    let t = s.remove(Entity::Tag { name });
    let before = s.tags_linked(links, id);
    let after = t.tags_linked(left, id);
    assert forall|x: Seq<char>| after.contains(x) <==> before.contains(x) && x != name by {
        s.lemma_tags_linked_members(links, id, x);
        t.lemma_tags_linked_members(left, id, x);
        if s.has_tag(name) {
            let k = s.tag_names().index_of(name);
            let gone = s.tags[k].id;
            lemma_remove_no_duplicates(s.tag_names(), k);
            lemma_filter_members(links, spares_tag(gone));
            assert(t.tags =~= s.tags.remove(k));
            if after.contains(x) {
                let i = choose|i: int|
                    0 <= i < t.tags.len() && (#[trigger] t.tags[i]).name == x && left.contains(
                        Link { data_id: id, tag_id: t.tags[i].id },
                    );
                let j = if i < k {
                    i
                } else {
                    i + 1
                };
                assert(s.tags[j] == t.tags[i]);
                assert(s.tag_names()[j] == x);
                assert(s.tag_names()[k] == name);
            }
            if before.contains(x) && x != name {
                let j = choose|j: int|
                    0 <= j < s.tags.len() && (#[trigger] s.tags[j]).name == x && links.contains(
                        Link { data_id: id, tag_id: s.tags[j].id },
                    );
                assert(s.tag_names()[j] == x);
                assert(s.tag_names()[k] == name);
                assert(s.tag_ids()[j] != s.tag_ids()[k]);
                let i = if j < k {
                    j
                } else {
                    j - 1
                };
                assert(t.tags[i] == s.tags[j]);
            }
        } else {
            if before.contains(x) {
                let j = choose|j: int|
                    0 <= j < s.tags.len() && (#[trigger] s.tags[j]).name == x && links.contains(
                        Link { data_id: id, tag_id: s.tags[j].id },
                    );
                assert(s.tag_names()[j] == x);
            }
        }
    }
    assert(after.to_set() =~= before.to_set().remove(name));
}

/// Deleting a collection or a project deletes no tag, and every other
/// collection and project keeps the tags attached to it.
pub proof fn law_delete_keeps_other_tags(s: Tables, e: Entity, other: i64)
    requires
        s.wf(),
        !(e is Tag),
    ensures
        ({
            let t = s.remove(e);
            &&& t.tags == s.tags
            &&& !(e is Project && s.contains(e) && other == s.id_of(e)) ==> t.project_tags_of(other)
                == s.project_tags_of(other)
            &&& !(e is Collection && s.contains(e) && other == s.id_of(e))
                ==> t.collection_tags_of(other) == s.collection_tags_of(other)
        }),
{
    let t = s.remove(e);
    if s.contains(e) {
        let id = s.id_of(e);
        if e is Project && other != id {
            lemma_filter_members(s.project_tags, spares_data(id));
            assert(carried(t.project_tags, other) =~= carried(s.project_tags, other));
        }
        if e is Collection && other != id {
            lemma_filter_members(s.collection_tags, spares_data(id));
            assert(carried(t.collection_tags, other) =~= carried(s.collection_tags, other));
        }
    }
}

/// Tagging with a tag that does not exist, without `force`, fails for want
/// of the tag and does not create it.
pub proof fn law_tag_missing_refused(s: Tables, e: Entity, tag: Seq<char>)
    requires
        s.contains(e),
        !s.has_tag(tag),
    ensures
        s.tag_outcome(e, tag, false) == Err::<(), NotFoundError>(NotFoundError::Tag),
        s.tagged(e, tag, false) == s,
        !s.tagged(e, tag, false).has_tag(tag),
{
}

/// Where tagging a collection or a project succeeds, the tag exists
/// afterwards and is attached. Doing it again succeeds too, with or without
/// `force`, and changes nothing.
pub proof fn law_tag_attaches(s: Tables, e: Entity, tag: Seq<char>, force: bool)
    requires
        !(e is Tag),
        s.tag_outcome(e, tag, force) is Ok,
    ensures
        ({
            let t = s.tagged(e, tag, force);
            &&& t.has_tag(tag)
            &&& t.contains(e)
            &&& t.tags_of(e).contains(tag)
            &&& forall|again: bool|
                #![trigger t.tag_outcome(e, tag, again)]
                #![trigger t.tagged(e, tag, again)]
                t.tag_outcome(e, tag, again) is Ok && t.tagged(e, tag, again) == t
        }),
{
    let w = s.with_tag(tag);
    let t = s.tagged(e, tag, force);
    law_add_then_present(s, Entity::Tag { name: tag });
    assert(t.tags == w.tags);
    assert(t.with_tag(tag) == t);
    let l = Link { data_id: w.id_of(e), tag_id: w.tag(tag).id };
    let i = w.tag_names().index_of(tag);
    assert(t.tags[i].name == tag);
    match e {
        Entity::Collection { .. } => {
            assert(t.collection_tags.contains(l)) by {
                if !w.collection_tags.contains(l) {
                    assert(t.collection_tags[w.collection_tags.len() as int] == l);
                }
            }
            t.lemma_tags_linked_members(t.collection_tags, t.id_of(e), tag);
        },
        Entity::Project { .. } => {
            assert(t.project_tags.contains(l)) by {
                if !w.project_tags.contains(l) {
                    assert(t.project_tags[w.project_tags.len() as int] == l);
                }
            }
            t.lemma_tags_linked_members(t.project_tags, t.id_of(e), tag);
        },
        Entity::Tag { .. } => {},
    }
}

/// Tagging a collection or a project with `force` succeeds whether or not
/// the tag exists: afterwards the tag exists and is attached. Doing it again
/// succeeds too and changes nothing.
pub proof fn law_tag_forced(s: Tables, e: Entity, tag: Seq<char>)
    requires
        s.contains(e),
        !(e is Tag),
    ensures
        ({
            let t = s.tagged(e, tag, true);
            &&& s.tag_outcome(e, tag, true) is Ok
            &&& t.has_tag(tag)
            &&& t.contains(e)
            &&& t.tags_of(e).contains(tag)
            &&& t.tag_outcome(e, tag, true) is Ok
            &&& t.tagged(e, tag, true) == t
        }),
{
    law_tag_attaches(s, e, tag, true);
    let t = s.tagged(e, tag, true);
    assert(t.tag_outcome(e, tag, true) is Ok && t.tagged(e, tag, true) == t);
}

/// Tags whose names differ only in case are the same tag to the store: once
/// one has been added the other is there, and adding the other is refused.
pub proof fn law_tag_case_folded(s: Tables, a: Tag, b: Tag)
    requires
        lowercase(a@) == lowercase(b@),
    ensures
        DataType::Tag(a).entity() == DataType::Tag(b).entity(),
        s.added(DataType::Tag(a).entity()).contains(DataType::Tag(b).entity()),
        s.added(DataType::Tag(a).entity()).add_outcome(DataType::Tag(b).entity()) is Err,
{
    law_add_then_present(s, DataType::Tag(a).entity());
}

} // verus!
