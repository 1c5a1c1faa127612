//! Tags that the contents of a project's folder suggest. Looking into the
//! folder is left to the caller: it reports which marker files it found.

use crate::database::{add_tag, Store};
use crate::model::Tables;
use crate::paths::{join, joined};
use crate::tags::lowercase;
use crate::types::{tag_names, DataType, EmptyDataType, Entity, Project, Tag};
use vstd::prelude::*;

verus! {

/// A file or folder whose presence in a project's folder suggests a tag.
#[derive(Debug, Clone, Copy, PartialEq, Eq, Structural)]
pub enum Marker {
    Git,
    Rust,
    Svelte,
}

impl Marker {
    /// The name of the marker inside the project's folder.
    pub open spec fn spec_file_name(self) -> Seq<char> {
        match self {
            Marker::Git => ".git"@,
            Marker::Rust => "Cargo.toml"@,
            Marker::Svelte => "svelte.config.js"@,
        }
    }

    /// The name of the tag that the marker suggests.
    pub open spec fn spec_tag_name(self) -> Seq<char> {
        match self {
            Marker::Git => "git"@,
            Marker::Rust => "rust"@,
            Marker::Svelte => "svelte"@,
        }
    }

    /// The name of the marker inside the project's folder.
    pub fn file_name(self) -> (r: &'static str)
        ensures
            r@ == self.spec_file_name(),
    {
        match self {
            Marker::Git => ".git",
            Marker::Rust => "Cargo.toml",
            Marker::Svelte => "svelte.config.js",
        }
    }

    /// The name of the tag that the marker suggests.
    pub fn tag_name(self) -> (r: &'static str)
        ensures
            r@ == self.spec_tag_name(),
    {
        match self {
            Marker::Git => "git",
            Marker::Rust => "rust",
            Marker::Svelte => "svelte",
        }
    }

    /// Where to look for the marker of a project.
    pub fn path_in(self, proj: &Project) -> (r: String)
        ensures
            r@ == joined(proj.path@, self.spec_file_name()),
    {
        join(proj.path.as_str(), self.file_name())
    }
}

/// Which markers were found in a project's folder.
#[derive(Debug, Clone, Copy)]
pub struct Found {
    pub git: bool,
    pub rust: bool,
    pub svelte: bool,
}

/// The tag that a marker suggests for a project: its tag where the marker
/// was found and the project does not carry that tag yet.
pub open spec fn suggested(carried: Seq<Seq<char>>, marker: Marker, found: bool) -> Option<
    Seq<char>,
> {
    if found && !carried.contains(marker.spec_tag_name()) {
        Some(marker.spec_tag_name())
    } else {
        None
    }
}

/// The tag that a marker suggests for a project, given whether the marker
/// was found in the project's folder.
pub fn check(proj: &Project, marker: Marker, found: bool) -> (r: Option<Tag>)
    ensures
        suggested(proj@.tags, marker, found) == match r {
            Some(t) => Some(t@),
            None => None,
        },
{
    let name = String::from_str(marker.tag_name());
    let mut i: usize = 0;
    while i < proj.tags.len()
        invariant
            i <= proj.tags.len(),
            name@ == marker.spec_tag_name(),
            forall|j: int| 0 <= j < i ==> tag_names(proj.tags@)[j] != name@,
        decreases proj.tags.len() - i,
    {
        if proj.tags[i].name == name {
            assert(tag_names(proj.tags@)[i as int] == name@);
            return None;
        }
        i += 1;
    }
    if found {
        Some(Tag { name })
    } else {
        None
    }
}

/// The tag `git`, where the project's folder holds `.git` and the project
/// does not carry the tag.
pub fn check_git(proj: &Project, found: bool) -> (r: Option<Tag>)
    ensures
        suggested(proj@.tags, Marker::Git, found) == match r {
            Some(t) => Some(t@),
            None => None,
        },
{
    check(proj, Marker::Git, found)
}

/// The tag `rust`, where the project's folder holds `Cargo.toml` and the
/// project does not carry the tag.
pub fn check_rust(proj: &Project, found: bool) -> (r: Option<Tag>)
    ensures
        suggested(proj@.tags, Marker::Rust, found) == match r {
            Some(t) => Some(t@),
            None => None,
        },
{
    check(proj, Marker::Rust, found)
}

/// The tag `svelte`, where the project's folder holds `svelte.config.js`
/// and the project does not carry the tag.
pub fn check_svelte(proj: &Project, found: bool) -> (r: Option<Tag>)
    ensures
        suggested(proj@.tags, Marker::Svelte, found) == match r {
            Some(t) => Some(t@),
            None => None,
        },
{
    check(proj, Marker::Svelte, found)
}

/// The tables after attaching a suggested tag, created if it is missing.
/// With no suggestion, and for a project that is not in the store, nothing
/// changes.
pub open spec fn with_suggestion(s: Tables, e: Entity, suggestion: Option<Seq<char>>) -> Tables {
    match suggestion {
        Some(name) => s.tagged(e, lowercase(name), true),
        None => s,
    }
}

/// The tables after attaching to a project what the three markers suggest,
/// in the order `git`, `rust`, `svelte`. `carried` holds the names of the
/// tags that count as attached already.
pub open spec fn auto_tagged(s: Tables, e: Entity, carried: Seq<Seq<char>>, found: Found) -> Tables {
    let s = with_suggestion(s, e, suggested(carried, Marker::Git, found.git));
    let s = with_suggestion(s, e, suggested(carried, Marker::Rust, found.rust));
    with_suggestion(s, e, suggested(carried, Marker::Svelte, found.svelte))
}

/// Attaches a suggested tag, if there is one.
fn attach(store: &mut Store, data: &DataType, suggestion: Option<Tag>)
    requires
        old(store).wf(),
        data is Project,
        old(store)@.has_room(EmptyDataType::Tag),
    ensures
        final(store).wf(),
        old(store)@.grows_by(final(store)@, 0, 0, 1),
        final(store)@ == match suggestion {
            Some(t) => old(store)@.tagged(data.entity(), t.key(), true),
            None => old(store)@,
        },
{
    if let Some(tag) = suggestion {
        let _ = add_tag(store, data, tag, true);
    }
}

/// Attaches to a project the tags that the markers found in its folder
/// suggest. `proj` must be a project. The tags that the value carries count
/// as attached already; a project that is not in the store gets none.
pub fn auto_tag_project(store: &mut Store, proj: &DataType, found: &Found)
    requires
        old(store).wf(),
        proj is Project,
        old(store)@.room(EmptyDataType::Tag, 3),
    ensures
        final(store).wf(),
        final(store)@ == auto_tagged(
            old(store)@,
            proj.entity(),
            tag_names((proj->Project_0).tags@),
            *found,
        ),
        old(store)@.grows_by(final(store)@, 0, 0, 3),
{
    if let DataType::Project(p) = proj {
        let git = check_git(p, found.git);
        let rust = check_rust(p, found.rust);
        let svelte = check_svelte(p, found.svelte);
        attach(store, proj, git);
        attach(store, proj, rust);
        attach(store, proj, svelte);
    }
}

} // verus!
