//! Why the operations of the store keep the tables consistent.

use crate::model::{
    carried, greatest, links_known, orphaned, spares_data, spares_tag, with_link, Link, Tables,
};
use crate::sequences::{
    lemma_filter_members, lemma_filter_no_duplicates, lemma_remove_no_duplicates,
};
use crate::types::{EmptyDataType, Entity};
use vstd::prelude::*;

verus! {

/// No identifier is above the greatest.
pub proof fn lemma_greatest_bounds(ids: Seq<i64>)
    ensures
        greatest(ids) >= 0,
        forall|i: int| 0 <= i < ids.len() ==> ids[i] <= greatest(ids),
    decreases ids.len(),
{
    if ids.len() > 0 {
        lemma_greatest_bounds(ids.drop_last());
        assert forall|i: int| 0 <= i < ids.len() implies ids[i] <= greatest(ids) by {
            if i < ids.len() - 1 {
                assert(ids.drop_last()[i] == ids[i]);
            }
        }
    }
}

/// The greatest is the least bound of the identifiers that is not below 0.
pub proof fn lemma_greatest_least(ids: Seq<i64>, bound: int)
    requires
        bound >= 0,
        forall|i: int| 0 <= i < ids.len() ==> ids[i] <= bound,
    ensures
        greatest(ids) <= bound,
    decreases ids.len(),
{
    if ids.len() > 0 {
        assert forall|i: int| 0 <= i < ids.drop_last().len() implies ids.drop_last()[i] <= bound by {
            assert(ids.drop_last()[i] == ids[i]);
        }
        lemma_greatest_least(ids.drop_last(), bound);
    }
}

/// The greatest of a prefix, one element longer.
pub proof fn lemma_greatest_step(ids: Seq<i64>, i: int)
    requires
        0 <= i < ids.len(),
    ensures
        greatest(ids.take(i + 1)) == if ids[i] > greatest(ids.take(i)) {
            ids[i] as int
        } else {
            greatest(ids.take(i))
        },
{
    assert(ids.take(i + 1).drop_last() == ids.take(i));
}

/// Links stay valid when the tables they point into gain a row.
pub proof fn lemma_links_known_push(
    links: Seq<Link>,
    data_ids: Seq<i64>,
    tag_ids: Seq<i64>,
    id: i64,
)
    requires
        links_known(links, data_ids, tag_ids),
    ensures
        links_known(links, data_ids.push(id), tag_ids),
        links_known(links, data_ids, tag_ids.push(id)),
{
    assert forall|i: int| 0 <= i < links.len() implies data_ids.push(id).contains(
        (#[trigger] links[i]).data_id,
    ) && tag_ids.push(id).contains(links[i].tag_id) by {
        let k = data_ids.index_of(links[i].data_id);
        assert(data_ids.push(id)[k] == links[i].data_id);
        let k = tag_ids.index_of(links[i].tag_id);
        assert(tag_ids.push(id)[k] == links[i].tag_id);
    }
}

/// Links that pass a filter under which both their ends survive are valid
/// in the tables that are left.
pub proof fn lemma_links_filtered(
    links: Seq<Link>,
    pred: spec_fn(Link) -> bool,
    data_ids: Seq<i64>,
    tag_ids: Seq<i64>,
)
    requires
        links.no_duplicates(),
        forall|l: Link|
            #[trigger] links.contains(l) && pred(l) ==> data_ids.contains(l.data_id)
                && tag_ids.contains(l.tag_id),
    ensures
        links.filter(pred).no_duplicates(),
        links_known(links.filter(pred), data_ids, tag_ids),
{
    lemma_filter_no_duplicates(links, pred);
    lemma_filter_members(links, pred);
    let kept = links.filter(pred);
    assert forall|i: int| 0 <= i < kept.len() implies data_ids.contains(
        (#[trigger] kept[i]).data_id,
    ) && tag_ids.contains(kept[i].tag_id) by {
        assert(kept.contains(kept[i]));
    }
}

impl Tables {
    /// A new row under a key that was free leaves the tables consistent.
    pub proof fn lemma_insert_wf(self, e: Entity)
        requires
            self.wf(),
            !self.contains(e),
            self.has_room(e.kind()),
        ensures
            self.insert(e).wf(),
    {
        let t = self.insert(e);
        let id = self.next_id(e.kind()) as i64;
        lemma_greatest_bounds(self.ids(e.kind()));
        assert(!self.ids(e.kind()).contains(id));
        match e {
            Entity::Collection { path } => {
                assert(t.collection_ids() =~= self.collection_ids().push(id));
                assert(t.collection_paths() =~= self.collection_paths().push(path));
                lemma_links_known_push(
                    self.collection_tags,
                    self.collection_ids(),
                    self.tag_ids(),
                    id,
                );
                assert forall|i: int| 0 <= i < t.projects.len() implies match (
                #[trigger] t.projects[i]).collection_id {
                    Some(c) => t.collection_ids().contains(c),
                    None => true,
                } by {
                    if let Some(c) = self.projects[i].collection_id {
                        let k = self.collection_ids().index_of(c);
                        assert(t.collection_ids()[k] == c);
                    }
                }
            },
            Entity::Project { name, path } => {
                assert(t.project_ids() =~= self.project_ids().push(id));
                assert(t.project_paths() =~= self.project_paths().push(path));
                lemma_links_known_push(self.project_tags, self.project_ids(), self.tag_ids(), id);
            },
            Entity::Tag { name } => {
                assert(t.tag_ids() =~= self.tag_ids().push(id));
                assert(t.tag_names() =~= self.tag_names().push(name));
                lemma_links_known_push(self.project_tags, self.project_ids(), self.tag_ids(), id);
                lemma_links_known_push(
                    self.collection_tags,
                    self.collection_ids(),
                    self.tag_ids(),
                    id,
                );
            },
        }
    }

    /// Taking an entity out, with what hung on it, leaves the tables
    /// consistent: no link and no project points at a row that is gone.
    pub proof fn lemma_remove_wf(self, e: Entity)
        requires
            self.wf(),
        ensures
            self.remove(e).wf(),
    {
        if self.contains(e) {
            let t = self.remove(e);
            let id = self.id_of(e);
            match e {
                Entity::Collection { path } => {
                    let i = self.collection_paths().index_of(path);
                    assert(self.collection_ids()[i] == id);
                    assert(t.collection_ids() =~= self.collection_ids().remove(i));
                    assert(t.collection_paths() =~= self.collection_paths().remove(i));
                    assert(t.project_ids() =~= self.project_ids());
                    assert(t.project_paths() =~= self.project_paths());
                    lemma_remove_no_duplicates(self.collection_ids(), i);
                    lemma_remove_no_duplicates(self.collection_paths(), i);
                    assert forall|l: Link| #[trigger]
                        self.collection_tags.contains(l) && l.data_id != id implies
                        t.collection_ids().contains(l.data_id) && t.tag_ids().contains(
                        l.tag_id,
                    ) by {
                        let k = self.collection_tags.index_of(l);
                        assert(self.collection_tags[k] == l);
                    }
                    lemma_links_filtered(
                        self.collection_tags,
                        spares_data(id),
                        t.collection_ids(),
                        t.tag_ids(),
                    );
                    assert forall|k: int| 0 <= k < t.projects.len() implies match (
                    #[trigger] t.projects[k]).collection_id {
                        Some(c) => t.collection_ids().contains(c),
                        None => true,
                    } by {
                        assert(t.projects[k] == orphaned(self.projects[k], id));
                    }
                },
                Entity::Project { path, .. } => {
                    let i = self.project_paths().index_of(path);
                    assert(self.project_ids()[i] == id);
                    assert(t.project_ids() =~= self.project_ids().remove(i));
                    assert(t.project_paths() =~= self.project_paths().remove(i));
                    lemma_remove_no_duplicates(self.project_ids(), i);
                    lemma_remove_no_duplicates(self.project_paths(), i);
                    assert forall|l: Link| #[trigger]
                        self.project_tags.contains(l) && l.data_id != id implies
                        t.project_ids().contains(l.data_id) && t.tag_ids().contains(l.tag_id) by {
                        let k = self.project_tags.index_of(l);
                        assert(self.project_tags[k] == l);
                    }
                    lemma_links_filtered(
                        self.project_tags,
                        spares_data(id),
                        t.project_ids(),
                        t.tag_ids(),
                    );
                    assert forall|k: int| 0 <= k < t.projects.len() implies match (
                    #[trigger] t.projects[k]).collection_id {
                        Some(c) => t.collection_ids().contains(c),
                        None => true,
                    } by {
                        if k < i {
                            assert(t.projects[k] == self.projects[k]);
                        } else {
                            assert(t.projects[k] == self.projects[k + 1]);
                        }
                    }
                },
                Entity::Tag { name } => {
                    let i = self.tag_names().index_of(name);
                    assert(self.tag_ids()[i] == id);
                    assert(t.tag_ids() =~= self.tag_ids().remove(i));
                    assert(t.tag_names() =~= self.tag_names().remove(i));
                    lemma_remove_no_duplicates(self.tag_ids(), i);
                    lemma_remove_no_duplicates(self.tag_names(), i);
                    assert forall|l: Link| #[trigger]
                        self.project_tags.contains(l) && l.tag_id != id implies
                        t.project_ids().contains(l.data_id) && t.tag_ids().contains(l.tag_id) by {
                        let k = self.project_tags.index_of(l);
                        assert(self.project_tags[k] == l);
                    }
                    lemma_links_filtered(
                        self.project_tags,
                        spares_tag(id),
                        t.project_ids(),
                        t.tag_ids(),
                    );
                    assert forall|l: Link| #[trigger]
                        self.collection_tags.contains(l) && l.tag_id != id implies
                        t.collection_ids().contains(l.data_id) && t.tag_ids().contains(
                        l.tag_id,
                    ) by {
                        let k = self.collection_tags.index_of(l);
                        assert(self.collection_tags[k] == l);
                    }
                    lemma_links_filtered(
                        self.collection_tags,
                        spares_tag(id),
                        t.collection_ids(),
                        t.tag_ids(),
                    );
                },
            }
        }
    }

    /// The row of an entity that is there carries its identity key, and its
    /// identifier is one of its table's.
    pub proof fn lemma_contained(self, e: Entity)
        requires
            self.contains(e),
        ensures
            self.ids(e.kind()).contains(self.id_of(e)),
            match e {
                Entity::Collection { path } => self.collection(path).path == path,
                Entity::Project { path, .. } => self.project(path).path == path,
                Entity::Tag { name } => self.tag(name).name == name,
            },
    {
        match e {
            Entity::Collection { path } => {
                let i = self.collection_paths().index_of(path);
                assert(self.collection_ids()[i] == self.id_of(e));
            },
            Entity::Project { path, .. } => {
                let i = self.project_paths().index_of(path);
                assert(self.project_ids()[i] == self.id_of(e));
            },
            Entity::Tag { name } => {
                let i = self.tag_names().index_of(name);
                assert(self.tag_ids()[i] == self.id_of(e));
            },
        }
    }

    /// Creating a missing tag leaves every collection and project where it
    /// was, and the tag is there afterwards.
    pub proof fn lemma_with_tag(self, name: Seq<char>)
        requires
            self.wf(),
            self.has_tag(name) || self.has_room(EmptyDataType::Tag),
        ensures
            self.with_tag(name).wf(),
            self.with_tag(name).has_tag(name),
            self.with_tag(name).collections == self.collections,
            self.with_tag(name).projects == self.projects,
            self.with_tag(name).project_tags == self.project_tags,
            self.with_tag(name).collection_tags == self.collection_tags,
    {
        let e = Entity::Tag { name };
        if !self.has_tag(name) {
            self.lemma_insert_wf(e);
            let t = self.insert(e);
            assert(t.tag_names()[self.tags.len() as int] == name);
        }
    }

    /// Tagging an entity that is there leaves the tables consistent.
    pub proof fn lemma_link_wf(self, e: Entity, tag: Seq<char>)
        requires
            self.wf(),
            self.contains(e),
            self.has_tag(tag) || self.has_room(EmptyDataType::Tag),
        ensures
            self.link(e, tag).wf(),
    {
        let s = self.with_tag(tag);
        self.lemma_with_tag(tag);
        s.lemma_contained(Entity::Tag { name: tag });
        let l = Link { data_id: s.id_of(e), tag_id: s.tag(tag).id };
        match e {
            Entity::Collection { .. } => {
                s.lemma_contained(e);
                let links = with_link(s.collection_tags, l);
                assert(links_known(links, s.collection_ids(), s.tag_ids()));
            },
            Entity::Project { .. } => {
                s.lemma_contained(e);
                let links = with_link(s.project_tags, l);
                assert(links_known(links, s.project_ids(), s.tag_ids()));
            },
            Entity::Tag { .. } => {},
        }
    }

    /// Giving a project an owner leaves the tables consistent.
    pub proof fn lemma_adopt_wf(self, project: Entity, collection: Entity)
        requires
            self.wf(),
        ensures
            self.adopted(project, collection).wf(),
    {
        if self.adopt_outcome(project, collection) is Ok {
            let t = self.adopted(project, collection);
            self.lemma_contained(collection);
            assert(t.project_ids() =~= self.project_ids());
            assert(t.project_paths() =~= self.project_paths());
        }
    }

    /// No tag is listed twice for an entity.
    pub proof fn lemma_tags_linked_distinct(self, links: Seq<Link>, id: i64)
        requires
            self.tag_names().no_duplicates(),
        ensures
            self.tags_linked(links, id).no_duplicates(),
    {
        let kept = self.tags.filter(carried(links, id));
        let names = self.tags_linked(links, id);
        assert(self.tags.no_duplicates()) by {
            assert forall|a: int, b: int|
                0 <= a < self.tags.len() && 0 <= b < self.tags.len() && a != b implies self.tags[a]
                != self.tags[b] by {
                assert(self.tag_names()[a] != self.tag_names()[b]);
            }
        }
        lemma_filter_no_duplicates(self.tags, carried(links, id));
        lemma_filter_members(self.tags, carried(links, id));
        assert forall|a: int, b: int|
            0 <= a < names.len() && 0 <= b < names.len() && a != b implies names[a]
            != names[b] by {
            assert(kept.contains(kept[a]));
            assert(kept.contains(kept[b]));
            let x = self.tags.index_of(kept[a]);
            let y = self.tags.index_of(kept[b]);
            assert(self.tag_names()[x] == kept[a].name);
            assert(self.tag_names()[y] == kept[b].name);
        }
    }

    /// A name is listed for an entity exactly when a tag of that name is
    /// linked to it.
    pub proof fn lemma_tags_linked_members(self, links: Seq<Link>, id: i64, name: Seq<char>)
        ensures
            self.tags_linked(links, id).contains(name) <==> exists|i: int|
                0 <= i < self.tags.len() && (#[trigger] self.tags[i]).name == name
                    && links.contains(Link { data_id: id, tag_id: self.tags[i].id }),
    {
        let kept = self.tags.filter(carried(links, id));
        let names = self.tags_linked(links, id);
        lemma_filter_members(self.tags, carried(links, id));
        if names.contains(name) {
            let k = names.index_of(name);
            assert(kept.contains(kept[k]));
            let i = self.tags.index_of(kept[k]);
            assert(self.tags[i].name == name);
        }
        if exists|i: int|
            0 <= i < self.tags.len() && (#[trigger] self.tags[i]).name == name && links.contains(
                Link { data_id: id, tag_id: self.tags[i].id },
            ) {
            let i = choose|i: int|
                0 <= i < self.tags.len() && (#[trigger] self.tags[i]).name == name
                    && links.contains(Link { data_id: id, tag_id: self.tags[i].id });
            assert(self.tags.contains(self.tags[i]));
            assert(kept.contains(self.tags[i]));
            let k = kept.index_of(self.tags[i]);
            assert(names[k] == name);
        }
    }

    /// Adding an entity uses up at most one identifier of its kind, and none
    /// of another kind.
    pub proof fn lemma_added_used(self, e: Entity, kind: EmptyDataType)
        ensures
            self.used(kind) <= self.added(e).used(kind),
            self.added(e).used(kind) <= self.used(kind) + if e.kind() == kind {
                1int
            } else {
                0int
            },
    {
        if !self.contains(e) {
            let t = self.insert(e);
            let id = self.next_id(e.kind()) as i64;
            lemma_greatest_bounds(self.ids(e.kind()));
            assert(t.ids(e.kind()) =~= self.ids(e.kind()).push(id));
            assert(t.ids(e.kind()).drop_last() == self.ids(e.kind()));
            if e.kind() != kind {
                assert(t.ids(kind) =~= self.ids(kind));
            }
        }
    }

    /// Tagging uses up at most one identifier for a tag, and no other.
    pub proof fn lemma_tagged_used(
        self,
        e: Entity,
        tag: Seq<char>,
        force: bool,
        kind: EmptyDataType,
    )
        ensures
            self.used(kind) <= self.tagged(e, tag, force).used(kind),
            self.tagged(e, tag, force).used(kind) <= self.used(kind) + if kind
                == EmptyDataType::Tag {
                1int
            } else {
                0int
            },
    {
        let t = self.tagged(e, tag, force);
        let w = self.with_tag(tag);
        self.lemma_added_used(Entity::Tag { name: tag }, kind);
        assert(t.tags == self.tags || t.tags == w.tags);
        assert(t.collections == self.collections);
        assert(t.projects == self.projects);
    }

    /// Tagging leaves consistent tables consistent.
    pub proof fn lemma_tagged_wf(self, e: Entity, tag: Seq<char>, force: bool)
        requires
            self.wf(),
            self.has_room(EmptyDataType::Tag),
        ensures
            self.tagged(e, tag, force).wf(),
    {
        if self.tag_outcome(e, tag, force) is Ok {
            self.lemma_link_wf(e, tag);
        }
    }

    /// Tagging with several tags uses up at most one identifier for each,
    /// leaves consistent tables consistent, and leaves the collections and
    /// projects as they are.
    pub proof fn lemma_tagged_all(
        self,
        e: Entity,
        tags: Seq<Seq<char>>,
        force: bool,
        kind: EmptyDataType,
    )
        requires
            self.wf(),
            self.room(EmptyDataType::Tag, tags.len() as int),
        ensures
            self.tagged_all(e, tags, force).wf(),
            self.used(kind) <= self.tagged_all(e, tags, force).used(kind),
            self.tagged_all(e, tags, force).used(kind) <= self.used(kind) + if kind
                == EmptyDataType::Tag {
                tags.len() as int
            } else {
                0int
            },
            self.tagged_all(e, tags, force).collections == self.collections,
            self.tagged_all(e, tags, force).projects == self.projects,
        decreases tags.len(),
    {
        if tags.len() > 0 {
            let before = self.tagged_all(e, tags.drop_last(), force);
            self.lemma_tagged_all(e, tags.drop_last(), force, kind);
            self.lemma_tagged_all(e, tags.drop_last(), force, EmptyDataType::Tag);
            before.lemma_tagged_wf(e, tags.last(), force);
            before.lemma_tagged_used(e, tags.last(), force, kind);
        }
    }

    /// Deleting uses up no identifier.
    pub proof fn lemma_removed_used(self, e: Entity, kind: EmptyDataType)
        ensures
            self.remove(e).used(kind) <= self.used(kind),
    {
        let t = self.remove(e);
        let before = self.ids(kind);
        let after = t.ids(kind);
        lemma_greatest_bounds(before);
        if self.contains(e) {
            assert forall|i: int| 0 <= i < after.len() implies after[i] <= greatest(before) by {
                if e.kind() == kind {
                    let at = self.keys(kind).index_of(e.key());
                    assert(after =~= before.remove(at));
                    if i < at {
                        assert(after[i] == before[i]);
                    } else {
                        assert(after[i] == before[i + 1]);
                    }
                } else {
                    assert(after =~= before);
                }
            }
            lemma_greatest_least(after, greatest(before));
        }
    }

    /// Giving a project an owner uses up no identifier.
    pub proof fn lemma_adopted_used(self, project: Entity, collection: Entity, kind: EmptyDataType)
        ensures
            self.adopted(project, collection).used(kind) == self.used(kind),
    {
        assert(self.adopted(project, collection).ids(kind) =~= self.ids(kind));
    }
}

} // verus!
