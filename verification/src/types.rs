//! The three kinds of entity and the errors the store reports.

use crate::tags::lowercase;
use vstd::prelude::*;

verus! {

/// A label. Two tags are the same tag when their names are equal; the store
/// knows a tag by its name in lowercase.
#[derive(Debug, PartialEq, Eq, Hash)]
pub struct Tag {
    pub name: String,
}

impl View for Tag {
    type V = Seq<char>;

    open spec fn view(&self) -> Seq<char> {
        self.name@
    }
}

impl Tag {
    /// The name under which the store knows the tag: its name in lowercase.
    pub open spec fn key(&self) -> Seq<char> {
        lowercase(self@)
    }
}

impl Clone for Tag {
    fn clone(&self) -> (r: Self)
        ensures
            r == *self,
    {
        Tag { name: self.name.clone() }
    }
}

/// The names of a sequence of tags, in order.
pub open spec fn tag_names(tags: Seq<Tag>) -> Seq<Seq<char>> {
    tags.map_values(|t: Tag| t@)
}

/// The names under which the store knows a sequence of tags, in order.
pub open spec fn tag_keys(tags: Seq<Tag>) -> Seq<Seq<char>> {
    tags.map_values(|t: Tag| t.key())
}

/// A copy of a list of tags.
pub fn clone_tags(tags: &Vec<Tag>) -> (r: Vec<Tag>)
    ensures
        r@ == tags@,
{
    let mut out: Vec<Tag> = Vec::new();
    let mut i: usize = 0;
    while i < tags.len()
        invariant
            i <= tags.len(),
            out@ == tags@.take(i as int),
        decreases tags.len() - i,
    {
        out.push(tags[i].clone());
        assert(tags@.take(i + 1) == tags@.take(i as int).push(tags@[i as int]));
        i += 1;
    }
    out
}

/// A parent folder that groups projects. `tags` is a set: the order of the
/// list carries no meaning.
#[derive(Debug)]
pub struct Collection {
    pub path: String,
    pub tags: Vec<Tag>,
}

/// A collection as mathematics: its path and the names of its tags.
pub struct CollectionView {
    pub path: Seq<char>,
    pub tags: Seq<Seq<char>>,
}

impl View for Collection {
    type V = CollectionView;

    open spec fn view(&self) -> CollectionView {
        CollectionView { path: self.path@, tags: tag_names(self.tags@) }
    }
}

impl Clone for Collection {
    fn clone(&self) -> (r: Self)
        ensures
            r@ == self@,
            r.path == self.path,
            r.tags@ == self.tags@,
    {
        Collection { path: self.path.clone(), tags: clone_tags(&self.tags) }
    }
}

/// A tracked development folder. `collection` is the collection that owns
/// it, if any; `tags` holds the tags assigned to the project itself.
#[derive(Debug)]
pub struct Project {
    pub name: String,
    pub path: String,
    pub collection: Option<Collection>,
    pub tags: Vec<Tag>,
}

/// A project as mathematics: its name, its path, its owner and the names of
/// its own tags.
pub struct ProjectView {
    pub name: Seq<char>,
    pub path: Seq<char>,
    pub collection: Option<CollectionView>,
    pub tags: Seq<Seq<char>>,
}

impl View for Project {
    type V = ProjectView;

    open spec fn view(&self) -> ProjectView {
        ProjectView {
            name: self.name@,
            path: self.path@,
            collection: match self.collection {
                Some(c) => Some(c@),
                None => None,
            },
            tags: tag_names(self.tags@),
        }
    }
}

impl Clone for Project {
    fn clone(&self) -> (r: Self)
        ensures
            r@ == self@,
    {
        let collection = match &self.collection {
            Some(c) => Some(c.clone()),
            None => None,
        };
        Project {
            name: self.name.clone(),
            path: self.path.clone(),
            collection,
            tags: clone_tags(&self.tags),
        }
    }
}

/// The kind of an entity, without its data.
#[derive(Debug, Clone, Copy, PartialEq, Eq, Structural)]
pub enum EmptyDataType {
    Collection,
    Project,
    Tag,
}

/// What the store keeps of an entity: its kind, its identity key and, for a
/// project, its name. A tag is known to the store by its lowercase name.
pub enum Entity {
    Collection { path: Seq<char> },
    Project { name: Seq<char>, path: Seq<char> },
    Tag { name: Seq<char> },
}

impl Entity {
    /// The identity key: the path of a collection or a project, the name of
    /// a tag.
    pub open spec fn key(self) -> Seq<char> {
        match self {
            Entity::Collection { path } => path,
            Entity::Project { path, .. } => path,
            Entity::Tag { name } => name,
        }
    }

    /// The kind of the entity.
    pub open spec fn kind(self) -> EmptyDataType {
        match self {
            Entity::Collection { .. } => EmptyDataType::Collection,
            Entity::Project { .. } => EmptyDataType::Project,
            Entity::Tag { .. } => EmptyDataType::Tag,
        }
    }
}

/// What an entity of any kind shows: the collection or the project with its
/// tags, or the name of the tag.
pub enum DataView {
    Collection(CollectionView),
    Project(ProjectView),
    Tag(Seq<char>),
}

/// An entity of any of the three kinds, as handed to the store.
pub enum DataType {
    Collection(Collection),
    Project(Project),
    Tag(Tag),
}

impl View for DataType {
    type V = DataView;

    open spec fn view(&self) -> DataView {
        match self {
            DataType::Collection(c) => DataView::Collection(c@),
            DataType::Project(p) => DataView::Project(p@),
            DataType::Tag(t) => DataView::Tag(t@),
        }
    }
}

impl DataType {
    /// The kind of the entity.
    pub open spec fn spec_kind(&self) -> EmptyDataType {
        match self {
            DataType::Collection(_) => EmptyDataType::Collection,
            DataType::Project(_) => EmptyDataType::Project,
            DataType::Tag(_) => EmptyDataType::Tag,
        }
    }

    /// The entity that the store reads out of this value.
    pub open spec fn entity(&self) -> Entity {
        match self {
            DataType::Collection(c) => Entity::Collection { path: c.path@ },
            DataType::Project(p) => Entity::Project { name: p.name@, path: p.path@ },
            DataType::Tag(t) => Entity::Tag { name: t.key() },
        }
    }

    /// The kind of the entity.
    #[verifier::when_used_as_spec(spec_kind)]
    pub fn kind(&self) -> (r: EmptyDataType)
        ensures
            r == self.spec_kind(),
    {
        match self {
            DataType::Collection(_) => EmptyDataType::Collection,
            DataType::Project(_) => EmptyDataType::Project,
            DataType::Tag(_) => EmptyDataType::Tag,
        }
    }

    /// The collection, if the entity is one.
    pub fn collection(&self) -> (r: Option<&Collection>)
        ensures
            r == match *self {
                DataType::Collection(c) => Some(&c),
                _ => None,
            },
    {
        match self {
            DataType::Collection(c) => Some(c),
            _ => None,
        }
    }

    /// The project, if the entity is one.
    pub fn project(&self) -> (r: Option<&Project>)
        ensures
            r == match *self {
                DataType::Project(p) => Some(&p),
                _ => None,
            },
    {
        match self {
            DataType::Project(p) => Some(p),
            _ => None,
        }
    }

    /// The tag, if the entity is one.
    pub fn tag(&self) -> (r: Option<&Tag>)
        ensures
            r == match *self {
                DataType::Tag(t) => Some(&t),
                _ => None,
            },
    {
        match self {
            DataType::Tag(t) => Some(t),
            _ => None,
        }
    }
}

/// An entity with the same identity key is already in the store.
#[derive(Debug, Clone, Copy, PartialEq, Eq, Structural)]
pub struct AlreadyExistsError;

/// The storage behind the store failed.
#[derive(Debug, Clone, Copy, PartialEq, Eq, Structural)]
pub struct DatabaseError;

/// The entity of the named kind is not in the store.
#[derive(Debug, Clone, Copy, PartialEq, Eq, Structural)]
pub enum NotFoundError {
    Collection,
    Project,
    Tag,
}

impl NotFoundError {
    /// The error that says an entity of this kind is missing.
    pub open spec fn spec_of(kind: EmptyDataType) -> NotFoundError {
        match kind {
            EmptyDataType::Collection => NotFoundError::Collection,
            EmptyDataType::Project => NotFoundError::Project,
            EmptyDataType::Tag => NotFoundError::Tag,
        }
    }

    /// The error that says an entity of this kind is missing.
    #[verifier::when_used_as_spec(spec_of)]
    pub fn of(kind: EmptyDataType) -> (r: NotFoundError)
        ensures
            r == NotFoundError::spec_of(kind),
    {
        match kind {
            EmptyDataType::Collection => NotFoundError::Collection,
            EmptyDataType::Project => NotFoundError::Project,
            EmptyDataType::Tag => NotFoundError::Tag,
        }
    }
}

} // verus!
