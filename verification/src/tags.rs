//! Tags: their names, adding and deleting them by name, and choosing among
//! them.

use crate::database::{delete, Store};
use crate::display::texts;
use crate::types::{tag_names, AlreadyExistsError, DataType, EmptyDataType, Entity, Tag};
use vstd::prelude::*;

verus! {

/// The lowercase form of a string, as `str::to_lowercase` of the standard
/// library computes it from the Unicode case tables.
pub uninterp spec fn lowercase(s: Seq<char>) -> Seq<char>;

/// Calls `str::to_lowercase`. The contract only names the result: nothing is
/// proved of the case mapping itself.
#[verifier::external_body]
pub(crate) fn to_lowercase(s: &str) -> (r: String)
    ensures
        r@ == lowercase(s@),
{
    s.to_lowercase()
}

/// The tag a word stands for: its name is the word in lowercase.
pub fn word_to_tag(word: &str) -> (r: DataType)
    ensures
        r matches DataType::Tag(t) && t@ == lowercase(word@),
        r.entity() == word_entity(word@),
{
    DataType::Tag(Tag { name: to_lowercase(word) })
}

/// The tag that the store reads out of the tag a word stands for.
pub open spec fn word_entity(word: Seq<char>) -> Entity {
    Entity::Tag { name: lowercase(lowercase(word)) }
}

/// The tags that the store reads out of the tags a list of words stands for.
pub open spec fn word_entities(words: Seq<String>) -> Seq<Entity> {
    words.map_values(|w: String| word_entity(w@))
}

/// Adds the tag of each word in turn, and goes on after a word whose tag
/// exists. The answers come back in the order of the words.
pub fn add(store: &mut Store, words: &Vec<String>) -> (r: Vec<Result<(), AlreadyExistsError>>)
    requires
        old(store).wf(),
        old(store)@.room(EmptyDataType::Tag, words.len() as int),
    ensures
        final(store).wf(),
        final(store)@ == old(store)@.added_all(word_entities(words@)),
        r@ == old(store)@.add_outcomes(word_entities(words@)),
        old(store)@.grows_by(final(store)@, 0, 0, words.len() as int),
{
    let ghost start = store@;
    let ghost es = word_entities(words@);
    let mut out: Vec<Result<(), AlreadyExistsError>> = Vec::new();
    let mut i: usize = 0;
    while i < words.len()
        invariant
            i <= words.len(),
            store.wf(),
            es == word_entities(words@),
            start.grows_by(store@, 0, 0, i as int),
            start.room(EmptyDataType::Tag, words.len() as int),
            store@ == start.added_all(es.take(i as int)),
            out.len() == i,
            forall|j: int|
                0 <= j < i ==> out[j] == start.added_all(es.take(j)).add_outcome(es[j]),
        decreases words.len() - i,
    {
        assert(es.take(i + 1).drop_last() == es.take(i as int));
        let tag = word_to_tag(words[i].as_str());
        let answer = crate::database::add(store, &tag);
        out.push(answer);
        i += 1;
    }
    assert(es.take(words.len() as int) == es);
    assert(out@ =~= start.add_outcomes(es));
    out
}

/// Deletes the tag of each word in turn. A word whose tag does not exist
/// changes nothing.
pub fn del(store: &mut Store, words: &Vec<String>)
    requires
        old(store).wf(),
    ensures
        final(store).wf(),
        final(store)@ == old(store)@.removed_all(word_entities(words@)),
        old(store)@.grows_by(final(store)@, 0, 0, 0),
{
    let ghost start = store@;
    let ghost es = word_entities(words@);
    let mut i: usize = 0;
    while i < words.len()
        invariant
            i <= words.len(),
            store.wf(),
            es == word_entities(words@),
            start.grows_by(store@, 0, 0, 0),
            store@ == start.removed_all(es.take(i as int)),
        decreases words.len() - i,
    {
        assert(es.take(i + 1).drop_last() == es.take(i as int));
        let tag = word_to_tag(words[i].as_str());
        let _ = delete(store, &tag);
        i += 1;
    }
    assert(es.take(words.len() as int) == es);
}

/// The first line of the menu where new tags may be written.
pub open spec fn more_line() -> Seq<char> {
    "Add more tags"@
}

/// How many lines of the menu stand before the first tag.
pub open spec fn offset(allow_new: bool) -> int {
    if allow_new {
        1
    } else {
        0
    }
}

/// The lines of the menu from which tags are chosen: the names of the tags,
/// behind a line that asks for new ones where those are allowed.
pub open spec fn menu_lines(names: Seq<Seq<char>>, allow_new: bool) -> Seq<Seq<char>> {
    if allow_new {
        seq![more_line()] + names
    } else {
        names
    }
}

/// The lines of the menu from which tags are chosen.
pub fn menu(tags: &Vec<Tag>, allow_new: bool) -> (r: Vec<String>)
    ensures
        texts(r@) == menu_lines(tag_names(tags@), allow_new),
{
    let mut out: Vec<String> = Vec::new();
    if allow_new {
        out.push(String::from_str("Add more tags"));
    }
    let ghost head = texts(out@);
    assert(head =~= menu_lines(Seq::empty(), allow_new));
    let mut i: usize = 0;
    while i < tags.len()
        invariant
            i <= tags.len(),
            texts(out@) == head + tag_names(tags@).take(i as int),
        decreases tags.len() - i,
    {
        let ghost before = texts(out@);
        out.push(tags[i].name.clone());
        assert(texts(out@) =~= before.push(tags@[i as int]@));
        assert(tag_names(tags@).take(i + 1) =~= tag_names(tags@).take(i as int).push(
            tags@[i as int]@,
        ));
        i += 1;
    }
    assert(tag_names(tags@).take(tags.len() as int) == tag_names(tags@));
    assert(head + tag_names(tags@) =~= menu_lines(tag_names(tags@), allow_new));
    out
}

/// What was chosen from the menu: tags that exist, and whether new ones are
/// to be written.
pub struct Selection {
    pub tags: Vec<Tag>,
    pub ask_new: bool,
}

/// The chosen lines that stand for a tag, out of `n` tags.
pub open spec fn picks(n: int, allow_new: bool) -> spec_fn(usize) -> bool {
    |i: usize| offset(allow_new) <= i < n + offset(allow_new)
}

/// The names of the tags that the chosen lines stand for, in the order in
/// which the lines were chosen.
pub open spec fn chosen(names: Seq<Seq<char>>, allow_new: bool, selected: Seq<usize>) -> Seq<
    Seq<char>,
> {
    selected.filter(picks(names.len() as int, allow_new)).map_values(
        |i: usize| names[i - offset(allow_new)],
    )
}

/// Reads a choice of lines of the menu: each chosen line that stands for a
/// tag gives that tag, and the first line, where new tags are allowed, asks
/// for new ones. A line that is not on the menu gives nothing.
pub fn select_tags(tags: &Vec<Tag>, allow_new: bool, selected: &Vec<usize>) -> (r: Selection)
    ensures
        tag_names(r.tags@) == chosen(tag_names(tags@), allow_new, selected@),
        r.ask_new == (allow_new && selected@.contains(0)),
{
    let ghost names = tag_names(tags@);
    let ghost pred = picks(names.len() as int, allow_new);
    let first: usize = if allow_new {
        1
    } else {
        0
    };
    let mut out: Vec<Tag> = Vec::new();
    let mut ask_new = false;
    let mut k: usize = 0;
    assert(tag_names(out@) =~= chosen(names, allow_new, selected@.take(0))) by {
        reveal(Seq::filter);
    }
    while k < selected.len()
        invariant
            k <= selected.len(),
            first == offset(allow_new),
            names == tag_names(tags@),
            pred == picks(names.len() as int, allow_new),
            tag_names(out@) == chosen(names, allow_new, selected@.take(k as int)),
            ask_new == (allow_new && selected@.take(k as int).contains(0)),
        decreases selected.len() - k,
    {
        let i = selected[k];
        let ghost before = out@;
        let ghost seen = selected@.take(k as int);
        proof {
            seen.lemma_filter_push(i, pred);
            assert(selected@.take(k + 1) == seen.push(i));
            assert(seen.push(i).contains(0) <==> seen.contains(0) || i == 0) by {
                if seen.contains(0) {
                    let j = seen.index_of(0);
                    assert(seen.push(i)[j] == 0);
                }
                if i == 0 {
                    assert(seen.push(i)[k as int] == 0);
                }
            }
        }
        if allow_new && i == 0 {
            ask_new = true;
        }
        if i >= first && i - first < tags.len() {
            out.push(tags[i - first].clone());
            assert(tag_names(out@) =~= tag_names(before).push(names[i - first]));
            assert(seen.filter(pred).push(i).map_values(|i: usize| names[i - offset(allow_new)])
                =~= seen.filter(pred).map_values(|i: usize| names[i - offset(allow_new)]).push(
                names[i - first],
            ));
        }
        k += 1;
    }
    assert(selected@.take(selected.len() as int) == selected@);
    Selection { tags: out, ask_new }
}

} // verus!
