//! The store as mathematics: five tables of rows, what it means for them to
//! be consistent, and what each operation of the store makes of them.

use crate::types::{
    AlreadyExistsError, CollectionView, EmptyDataType, Entity, NotFoundError, ProjectView,
};
use vstd::prelude::*;

verus! {

/// A row of the table of collections.
pub struct CollectionRec {
    pub id: i64,
    pub path: Seq<char>,
}

/// A row of the table of projects. `collection_id` names the collection that
/// owns the project, if one does.
pub struct ProjectRec {
    pub id: i64,
    pub name: Seq<char>,
    pub path: Seq<char>,
    pub collection_id: Option<i64>,
}

/// A row of the table of tags.
pub struct TagRec {
    pub id: i64,
    pub name: Seq<char>,
}

/// One row of a link table: the entity `data_id` carries the tag `tag_id`.
#[derive(Debug, Clone, Copy, PartialEq, Eq, Structural)]
pub struct Link {
    pub data_id: i64,
    pub tag_id: i64,
}

/// The five tables. Rows stand in the order in which they were added.
pub struct Tables {
    pub collections: Seq<CollectionRec>,
    pub projects: Seq<ProjectRec>,
    pub tags: Seq<TagRec>,
    pub project_tags: Seq<Link>,
    pub collection_tags: Seq<Link>,
}

/// The greatest of the identifiers, or 0 where there is none above 0.
pub open spec fn greatest(ids: Seq<i64>) -> int
    decreases ids.len(),
{
    if ids.len() == 0 {
        0
    } else {
        let rest = greatest(ids.drop_last());
        if ids.last() > rest {
            ids.last() as int
        } else {
            rest
        }
    }
}

/// Both ends of every link are identifiers that exist.
pub open spec fn links_known(links: Seq<Link>, data_ids: Seq<i64>, tag_ids: Seq<i64>) -> bool {
    forall|i: int|
        0 <= i < links.len() ==> data_ids.contains((#[trigger] links[i]).data_id)
            && tag_ids.contains(links[i].tag_id)
}

/// The link table with the link recorded once.
pub open spec fn with_link(links: Seq<Link>, l: Link) -> Seq<Link> {
    if links.contains(l) {
        links
    } else {
        links.push(l)
    }
}

/// The links that do not start at the entity `id`.
pub open spec fn spares_data(id: i64) -> spec_fn(Link) -> bool {
    |l: Link| l.data_id != id
}

/// The links that do not end at the tag `id`.
pub open spec fn spares_tag(id: i64) -> spec_fn(Link) -> bool {
    |l: Link| l.tag_id != id
}

/// The tags that the entity `id` carries according to `links`.
pub open spec fn carried(links: Seq<Link>, id: i64) -> spec_fn(TagRec) -> bool {
    |t: TagRec| links.contains(Link { data_id: id, tag_id: t.id })
}

/// The names of tag rows, in order.
pub open spec fn names_of(tags: Seq<TagRec>) -> Seq<Seq<char>> {
    tags.map_values(|t: TagRec| t.name)
}

/// The project row with its owner taken away if the owner is `cid`.
pub open spec fn orphaned(p: ProjectRec, cid: i64) -> ProjectRec {
    if p.collection_id == Some(cid) {
        ProjectRec { collection_id: None, ..p }
    } else {
        p
    }
}

impl Tables {
    /// The tables with no row in them.
    pub open spec fn empty() -> Tables {
        Tables {
            collections: Seq::empty(),
            projects: Seq::empty(),
            tags: Seq::empty(),
            project_tags: Seq::empty(),
            collection_tags: Seq::empty(),
        }
    }

    pub open spec fn collection_ids(self) -> Seq<i64> {
        self.collections.map_values(|r: CollectionRec| r.id)
    }

    pub open spec fn collection_paths(self) -> Seq<Seq<char>> {
        self.collections.map_values(|r: CollectionRec| r.path)
    }

    pub open spec fn project_ids(self) -> Seq<i64> {
        self.projects.map_values(|r: ProjectRec| r.id)
    }

    pub open spec fn project_paths(self) -> Seq<Seq<char>> {
        self.projects.map_values(|r: ProjectRec| r.path)
    }

    pub open spec fn tag_ids(self) -> Seq<i64> {
        self.tags.map_values(|r: TagRec| r.id)
    }

    pub open spec fn tag_names(self) -> Seq<Seq<char>> {
        names_of(self.tags)
    }

    /// No two rows of a table share an identifier or an identity key.
    pub open spec fn keys_unique(self) -> bool {
        &&& self.collection_ids().no_duplicates()
        &&& self.collection_paths().no_duplicates()
        &&& self.project_ids().no_duplicates()
        &&& self.project_paths().no_duplicates()
        &&& self.tag_ids().no_duplicates()
        &&& self.tag_names().no_duplicates()
    }

    /// Every owner of a project is a collection that exists.
    pub open spec fn owners_known(self) -> bool {
        forall|i: int|
            0 <= i < self.projects.len() ==> match (#[trigger] self.projects[i]).collection_id {
                Some(c) => self.collection_ids().contains(c),
                None => true,
            }
    }

    /// Every owner and every end of a link is a row that exists.
    pub open spec fn refs_valid(self) -> bool {
        &&& self.owners_known()
        &&& links_known(self.project_tags, self.project_ids(), self.tag_ids())
        &&& links_known(self.collection_tags, self.collection_ids(), self.tag_ids())
    }

    /// No link is recorded twice.
    pub open spec fn links_unique(self) -> bool {
        &&& self.project_tags.no_duplicates()
        &&& self.collection_tags.no_duplicates()
    }

    /// The tables are consistent.
    pub open spec fn wf(self) -> bool {
        &&& self.keys_unique()
        &&& self.refs_valid()
        &&& self.links_unique()
    }

    pub open spec fn has_collection(self, path: Seq<char>) -> bool {
        self.collection_paths().contains(path)
    }

    pub open spec fn has_project(self, path: Seq<char>) -> bool {
        self.project_paths().contains(path)
    }

    pub open spec fn has_tag(self, name: Seq<char>) -> bool {
        self.tag_names().contains(name)
    }

    /// The row of the collection at `path`, where there is one.
    pub open spec fn collection(self, path: Seq<char>) -> CollectionRec {
        self.collections[self.collection_paths().index_of(path)]
    }

    pub open spec fn project(self, path: Seq<char>) -> ProjectRec {
        self.projects[self.project_paths().index_of(path)]
    }

    pub open spec fn tag(self, name: Seq<char>) -> TagRec {
        self.tags[self.tag_names().index_of(name)]
    }

    /// Whether a row with the entity's identity key is present.
    pub open spec fn contains(self, e: Entity) -> bool {
        match e {
            Entity::Collection { path } => self.has_collection(path),
            Entity::Project { path, .. } => self.has_project(path),
            Entity::Tag { name } => self.has_tag(name),
        }
    }

    /// The identifier under which the entity is stored, where it is.
    pub open spec fn id_of(self, e: Entity) -> i64 {
        match e {
            Entity::Collection { path } => self.collection(path).id,
            Entity::Project { path, .. } => self.project(path).id,
            Entity::Tag { name } => self.tag(name).id,
        }
    }

    /// The identifiers in the table of one kind, in the order of its rows.
    pub open spec fn ids(self, kind: EmptyDataType) -> Seq<i64> {
        match kind {
            EmptyDataType::Collection => self.collection_ids(),
            EmptyDataType::Project => self.project_ids(),
            EmptyDataType::Tag => self.tag_ids(),
        }
    }

    /// The identity keys in the table of one kind, in the order of its rows.
    pub open spec fn keys(self, kind: EmptyDataType) -> Seq<Seq<char>> {
        match kind {
            EmptyDataType::Collection => self.collection_paths(),
            EmptyDataType::Project => self.project_paths(),
            EmptyDataType::Tag => self.tag_names(),
        }
    }

    /// The greatest identifier that the table of this kind has used, or 0.
    pub open spec fn used(self, kind: EmptyDataType) -> int {
        greatest(self.ids(kind))
    }

    /// The identifier that the next row of this kind gets: one more than the
    /// greatest in use.
    pub open spec fn next_id(self, kind: EmptyDataType) -> int {
        self.used(kind) + 1
    }

    /// Whether `after` has used at most so many identifiers more than these
    /// tables: `collections` for collections, `projects` for projects and
    /// `tags` for tags.
    pub open spec fn grows_by(self, after: Tables, collections: int, projects: int, tags: int) -> bool {
        &&& after.used(EmptyDataType::Collection) <= self.used(EmptyDataType::Collection)
            + collections
        &&& after.used(EmptyDataType::Project) <= self.used(EmptyDataType::Project) + projects
        &&& after.used(EmptyDataType::Tag) <= self.used(EmptyDataType::Tag) + tags
    }

    /// Whether the table of this kind can take `n` more rows: identifiers
    /// are 64-bit.
    pub open spec fn room(self, kind: EmptyDataType, n: int) -> bool {
        self.used(kind) + n <= i64::MAX
    }

    /// Whether the table of this kind can take one more row.
    pub open spec fn has_room(self, kind: EmptyDataType) -> bool {
        self.room(kind, 1)
    }

    /// The tables with a new row for the entity at the end of its table.
    pub open spec fn insert(self, e: Entity) -> Tables {
        let id = self.next_id(e.kind()) as i64;
        match e {
            Entity::Collection { path } => Tables {
                collections: self.collections.push(CollectionRec { id, path }),
                ..self
            },
            Entity::Project { name, path } => Tables {
                projects: self.projects.push(ProjectRec { id, name, path, collection_id: None }),
                ..self
            },
            Entity::Tag { name } => Tables { tags: self.tags.push(TagRec { id, name }), ..self },
        }
    }

    /// The tables without the entity's row and without what hung on it: its
    /// links, and for a collection its hold on the projects it owned. Where
    /// the entity is absent nothing changes.
    pub open spec fn remove(self, e: Entity) -> Tables {
        if !self.contains(e) {
            self
        } else {
            let id = self.id_of(e);
            match e {
                Entity::Collection { path } => Tables {
                    collections: self.collections.remove(self.collection_paths().index_of(path)),
                    projects: self.projects.map_values(|p: ProjectRec| orphaned(p, id)),
                    collection_tags: self.collection_tags.filter(spares_data(id)),
                    ..self
                },
                Entity::Project { path, .. } => Tables {
                    projects: self.projects.remove(self.project_paths().index_of(path)),
                    project_tags: self.project_tags.filter(spares_data(id)),
                    ..self
                },
                Entity::Tag { name } => Tables {
                    tags: self.tags.remove(self.tag_names().index_of(name)),
                    project_tags: self.project_tags.filter(spares_tag(id)),
                    collection_tags: self.collection_tags.filter(spares_tag(id)),
                    ..self
                },
            }
        }
    }

    /// The names of the tags that `links` attaches to the entity `id`, in
    /// the order of the table of tags.
    pub open spec fn tags_linked(self, links: Seq<Link>, id: i64) -> Seq<Seq<char>> {
        names_of(self.tags.filter(carried(links, id)))
    }

    /// The tags attached to the project itself.
    pub open spec fn project_tags_of(self, id: i64) -> Seq<Seq<char>> {
        self.tags_linked(self.project_tags, id)
    }

    /// The tags attached to the collection.
    pub open spec fn collection_tags_of(self, id: i64) -> Seq<Seq<char>> {
        self.tags_linked(self.collection_tags, id)
    }

    /// The tags attached to the entity itself. A tag carries none.
    pub open spec fn tags_of(self, e: Entity) -> Seq<Seq<char>> {
        match e {
            Entity::Collection { .. } => self.collection_tags_of(self.id_of(e)),
            Entity::Project { .. } => self.project_tags_of(self.id_of(e)),
            Entity::Tag { .. } => Seq::empty(),
        }
    }

    /// The collection that owns the project, if one does.
    pub open spec fn owner(self, p: ProjectRec) -> Option<CollectionRec> {
        match p.collection_id {
            Some(c) => if self.collection_ids().contains(c) {
                Some(self.collections[self.collection_ids().index_of(c)])
            } else {
                None
            },
            None => None,
        }
    }

    /// A collection as a listing shows it: with the tags attached to it.
    pub open spec fn listed_collection(self, r: CollectionRec) -> CollectionView {
        CollectionView { path: r.path, tags: self.collection_tags_of(r.id) }
    }

    /// A project as a listing shows it: with the tags attached to the
    /// project itself, and with its owner as a listing shows that.
    pub open spec fn listed_project(self, p: ProjectRec) -> ProjectView {
        ProjectView {
            name: p.name,
            path: p.path,
            collection: match self.owner(p) {
                Some(c) => Some(self.listed_collection(c)),
                None => None,
            },
            tags: self.project_tags_of(p.id),
        }
    }

    /// The collections as a listing shows them, in the order of their rows.
    pub open spec fn list_collections(self) -> Seq<CollectionView> {
        self.collections.map_values(|r: CollectionRec| self.listed_collection(r))
    }

    /// The projects as a listing shows them, in the order of their rows.
    pub open spec fn list_projects(self) -> Seq<ProjectView> {
        self.projects.map_values(|p: ProjectRec| self.listed_project(p))
    }

    /// What adding the entity answers: an error where its key is taken.
    pub open spec fn add_outcome(self, e: Entity) -> Result<(), AlreadyExistsError> {
        if self.contains(e) {
            Err(AlreadyExistsError)
        } else {
            Ok(())
        }
    }

    /// The tables after adding the entity: unchanged where its key is taken.
    pub open spec fn added(self, e: Entity) -> Tables {
        if self.contains(e) {
            self
        } else {
            self.insert(e)
        }
    }

    /// The tables with the tag in them, created if it was missing.
    pub open spec fn with_tag(self, name: Seq<char>) -> Tables {
        self.added(Entity::Tag { name })
    }

    /// The tables in which the collection or project carries the tag. The
    /// tag is created if it is missing; a link that is there is not
    /// recorded again.
    pub open spec fn link(self, e: Entity, tag: Seq<char>) -> Tables {
        let s = self.with_tag(tag);
        let l = Link { data_id: s.id_of(e), tag_id: s.tag(tag).id };
        match e {
            Entity::Collection { .. } => Tables {
                collection_tags: with_link(s.collection_tags, l),
                ..s
            },
            Entity::Project { .. } => Tables { project_tags: with_link(s.project_tags, l), ..s },
            Entity::Tag { .. } => self,
        }
    }

    /// What tagging answers: the entity must be there, and the tag too
    /// unless `force` allows creating it.
    pub open spec fn tag_outcome(self, e: Entity, tag: Seq<char>, force: bool) -> Result<
        (),
        NotFoundError,
    > {
        if !self.contains(e) {
            Err(NotFoundError::spec_of(e.kind()))
        } else if !self.has_tag(tag) && !force {
            Err(NotFoundError::Tag)
        } else {
            Ok(())
        }
    }

    /// The tables after tagging: unchanged where tagging fails.
    pub open spec fn tagged(self, e: Entity, tag: Seq<char>, force: bool) -> Tables {
        if self.tag_outcome(e, tag, force) is Ok {
            self.link(e, tag)
        } else {
            self
        }
    }

    /// The tables after tagging with each tag in turn.
    pub open spec fn tagged_all(self, e: Entity, tags: Seq<Seq<char>>, force: bool) -> Tables
        decreases tags.len(),
    {
        if tags.len() == 0 {
            self
        } else {
            self.tagged_all(e, tags.drop_last(), force).tagged(e, tags.last(), force)
        }
    }

    /// What tagging with each tag in turn answers: one answer for each tag,
    /// each given by the tables as the tags before it left them.
    pub open spec fn tag_outcomes(self, e: Entity, tags: Seq<Seq<char>>, force: bool) -> Seq<
        Result<(), NotFoundError>,
    > {
        Seq::new(
            tags.len(),
            |i: int| self.tagged_all(e, tags.take(i), force).tag_outcome(e, tags[i], force),
        )
    }

    /// The tables after adding each entity in turn.
    pub open spec fn added_all(self, es: Seq<Entity>) -> Tables
        decreases es.len(),
    {
        if es.len() == 0 {
            self
        } else {
            self.added_all(es.drop_last()).added(es.last())
        }
    }

    /// What adding each entity in turn answers.
    pub open spec fn add_outcomes(self, es: Seq<Entity>) -> Seq<Result<(), AlreadyExistsError>> {
        Seq::new(es.len(), |i: int| self.added_all(es.take(i)).add_outcome(es[i]))
    }

    /// The tables after deleting each entity in turn.
    pub open spec fn removed_all(self, es: Seq<Entity>) -> Tables
        decreases es.len(),
    {
        if es.len() == 0 {
            self
        } else {
            self.removed_all(es.drop_last()).remove(es.last())
        }
    }

    /// What making a collection the owner of a project answers: both must
    /// be there, each under its own kind.
    pub open spec fn adopt_outcome(self, project: Entity, collection: Entity) -> Result<
        (),
        NotFoundError,
    > {
        if !(project is Project && self.contains(project)) {
            Err(NotFoundError::Project)
        } else if !(collection is Collection && self.contains(collection)) {
            Err(NotFoundError::Collection)
        } else {
            Ok(())
        }
    }

    /// The tables after making the collection the owner of the project:
    /// unchanged where that fails.
    pub open spec fn adopted(self, project: Entity, collection: Entity) -> Tables {
        if self.adopt_outcome(project, collection) is Ok {
            let i = self.project_paths().index_of(project->Project_path);
            Tables {
                projects: self.projects.update(
                    i,
                    ProjectRec { collection_id: Some(self.id_of(collection)), ..self.projects[i] },
                ),
                ..self
            }
        } else {
            self
        }
    }
}

} // verus!
