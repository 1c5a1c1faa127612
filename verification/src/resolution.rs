//! Tag resolution: the tags a project has in effect, its own together with
//! those of the collection that owns it.

use crate::sequences::{lemma_merged, merged};
use crate::types::{tag_names, Project, ProjectView, Tag};
use vstd::prelude::*;

verus! {

impl ProjectView {
    /// The tags assigned to the project itself.
    pub open spec fn direct_tags(self) -> Set<Seq<char>> {
        self.tags.to_set()
    }

    /// The tags assigned to the collection that owns the project.
    pub open spec fn inherited_tags(self) -> Set<Seq<char>> {
        match self.collection {
            Some(c) => c.tags.to_set(),
            None => Set::empty(),
        }
    }

    /// The tags the project has in effect.
    pub open spec fn effective_tags(self) -> Set<Seq<char>> {
        self.direct_tags().union(self.inherited_tags())
    }

    /// The effective tags in the order in which they are handed out: the
    /// project's own first, each once.
    pub open spec fn effective_list(self) -> Seq<Seq<char>> {
        merged(
            merged(Seq::empty(), self.tags),
            match self.collection {
                Some(c) => c.tags,
                None => Seq::empty(),
            },
        )
    }
}

fn has_name(tags: &Vec<Tag>, name: &String) -> (r: bool)
    ensures
        r == tag_names(tags@).contains(name@),
{
    let mut i: usize = 0;
    while i < tags.len()
        invariant
            i <= tags.len(),
            forall|j: int| 0 <= j < i ==> tag_names(tags@)[j] != name@,
        decreases tags.len() - i,
    {
        if tags[i].name == *name {
            assert(tag_names(tags@)[i as int] == name@);
            return true;
        }
        i += 1;
    }
    false
}

/// Appends to `into` each tag of `more` whose name is not there yet.
fn merge(into: &mut Vec<Tag>, more: &Vec<Tag>)
    ensures
        tag_names(final(into)@) == merged(tag_names(old(into)@), tag_names(more@)),
{
    let ghost names = tag_names(more@);
    let mut i: usize = 0;
    while i < more.len()
        invariant
            i <= more.len(),
            names == tag_names(more@),
            tag_names(into@) == merged(tag_names(old(into)@), names.take(i as int)),
        decreases more.len() - i,
    {
        let ghost before = into@;
        assert(names.take(i + 1).drop_last() == names.take(i as int));
        if !has_name(into, &more[i].name) {
            into.push(more[i].clone());
            assert(tag_names(into@) =~= tag_names(before).push(names[i as int]));
        }
        i += 1;
    }
    assert(names.take(more.len() as int) == names);
}

/// The tags a project has in effect: those assigned to it and, where a
/// collection owns it, those assigned to the collection. Each tag is handed
/// out once.
pub fn effective_tags(project: &Project) -> (r: Vec<Tag>)
    ensures
        tag_names(r@) == project@.effective_list(),
        tag_names(r@).no_duplicates(),
        tag_names(r@).to_set() == project@.effective_tags(),
        project.collection is None ==> tag_names(r@).to_set() == project@.direct_tags(),
{
    let mut out: Vec<Tag> = Vec::new();
    assert(tag_names(out@) =~= Seq::empty());
    merge(&mut out, &project.tags);
    if let Some(c) = &project.collection {
        merge(&mut out, &c.tags);
    }
    proof {
        let own = merged(Seq::empty(), project@.tags);
        let theirs = match project@.collection {
            Some(c) => c.tags,
            None => Seq::empty(),
        };
        lemma_merged(Seq::empty(), project@.tags);
        lemma_merged(own, theirs);
        assert(Seq::<Seq<char>>::empty().to_set() =~= Set::empty());
        assert(own.to_set() =~= project@.direct_tags());
        assert(merged(own, theirs).to_set() =~= project@.effective_tags());
        if project.collection is None {
            assert(project@.effective_tags() =~= project@.direct_tags());
        }
    }
    out
}

/// The project as it is shown: with the tags it has in effect in place of
/// its own.
pub fn resolved(project: &Project) -> (r: Project)
    ensures
        r@ == (ProjectView { tags: project@.effective_list(), ..project@ }),
{
    let shown = project.clone();
    Project {
        name: shown.name,
        path: shown.path,
        collection: shown.collection,
        tags: effective_tags(project),
    }
}

} // verus!
