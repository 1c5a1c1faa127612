//! The rows of the tables as they are kept, and what they stand for.

use crate::model::{CollectionRec, Link, ProjectRec, TagRec, Tables};
use crate::sequences::distinct;
use crate::tags::lowercase;
use vstd::prelude::*;

verus! {

/// A row of the table of collections.
#[derive(Debug)]
pub struct CollectionRow {
    pub id: i64,
    pub path: String,
}

impl View for CollectionRow {
    type V = CollectionRec;

    open spec fn view(&self) -> CollectionRec {
        CollectionRec { id: self.id, path: self.path@ }
    }
}

/// A row of the table of projects.
#[derive(Debug)]
pub struct ProjectRow {
    pub id: i64,
    pub name: String,
    pub path: String,
    pub collection_id: Option<i64>,
}

impl View for ProjectRow {
    type V = ProjectRec;

    open spec fn view(&self) -> ProjectRec {
        ProjectRec {
            id: self.id,
            name: self.name@,
            path: self.path@,
            collection_id: self.collection_id,
        }
    }
}

/// A row of the table of tags.
#[derive(Debug)]
pub struct TagRow {
    pub id: i64,
    pub name: String,
}

impl View for TagRow {
    type V = TagRec;

    open spec fn view(&self) -> TagRec {
        TagRec { id: self.id, name: self.name@ }
    }
}

pub open spec fn collection_recs(rows: Seq<CollectionRow>) -> Seq<CollectionRec> {
    rows.map_values(|r: CollectionRow| r@)
}

pub open spec fn project_recs(rows: Seq<ProjectRow>) -> Seq<ProjectRec> {
    rows.map_values(|r: ProjectRow| r@)
}

pub open spec fn tag_recs(rows: Seq<TagRow>) -> Seq<TagRec> {
    rows.map_values(|r: TagRow| r@)
}

/// The tables that the rows make up.
pub open spec fn tables_of(
    collections: Seq<CollectionRow>,
    projects: Seq<ProjectRow>,
    tags: Seq<TagRow>,
    project_tags: Seq<Link>,
    collection_tags: Seq<Link>,
) -> Tables {
    Tables {
        collections: collection_recs(collections),
        projects: project_recs(projects),
        tags: tag_recs(tags),
        project_tags,
        collection_tags,
    }
}

/// The tag rows with their names in lowercase.
pub open spec fn folded(tags: Seq<TagRec>) -> Seq<TagRec> {
    tags.map_values(|t: TagRec| TagRec { id: t.id, name: lowercase(t.name) })
}

/// The tables that rows from elsewhere are taken for: the names of the tags
/// in lowercase, and each link once.
pub open spec fn loaded(
    collections: Seq<CollectionRow>,
    projects: Seq<ProjectRow>,
    tags: Seq<TagRow>,
    project_tags: Seq<Link>,
    collection_tags: Seq<Link>,
) -> Tables {
    Tables {
        collections: collection_recs(collections),
        projects: project_recs(projects),
        tags: folded(tag_recs(tags)),
        project_tags: distinct(project_tags),
        collection_tags: distinct(collection_tags),
    }
}

} // verus!
