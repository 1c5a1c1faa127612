//! Lines of text that show a collection or a project.

use crate::types::{tag_names, Collection, CollectionView, Project, ProjectView, Tag};
use vstd::prelude::*;
use vstd::relations::sorted_by;
use vstd::seq_lib::lemma_sorted_unique;

verus! {

/// Whether `a` comes before `b`, or is `b`, in the order of dictionaries:
/// the first character in which they differ decides, by its code, and a
/// text comes before every text that it starts.
pub open spec fn text_le(a: Seq<char>, b: Seq<char>) -> bool
    decreases a.len(),
{
    if a.len() == 0 {
        true
    } else if b.len() == 0 {
        false
    } else if a[0] != b[0] {
        (a[0] as u32) < (b[0] as u32)
    } else {
        text_le(a.skip(1), b.skip(1))
    }
}

/// The order of dictionaries as a relation.
pub open spec fn by_text() -> spec_fn(Seq<char>, Seq<char>) -> bool {
    |a: Seq<char>, b: Seq<char>| text_le(a, b)
}

/// Every text comes before or is itself.
pub proof fn lemma_text_le_reflexive(a: Seq<char>)
    ensures
        text_le(a, a),
    decreases a.len(),
{
    if a.len() > 0 {
        lemma_text_le_reflexive(a.skip(1));
    }
}

/// Two texts that each come before or are the other are the same text.
pub proof fn lemma_text_le_antisymmetric(a: Seq<char>, b: Seq<char>)
    requires
        text_le(a, b),
        text_le(b, a),
    ensures
        a == b,
    decreases a.len(),
{
    if a.len() > 0 {
        lemma_text_le_antisymmetric(a.skip(1), b.skip(1));
        assert(a =~= seq![a[0]] + a.skip(1));
        assert(b =~= seq![b[0]] + b.skip(1));
    } else {
        assert(a =~= b);
    }
}

/// What comes before a text comes before what that text comes before.
pub proof fn lemma_text_le_transitive(a: Seq<char>, b: Seq<char>, c: Seq<char>)
    requires
        text_le(a, b),
        text_le(b, c),
    ensures
        text_le(a, c),
    decreases a.len(),
{
    if a.len() > 0 && a[0] == b[0] && b[0] == c[0] {
        lemma_text_le_transitive(a.skip(1), b.skip(1), c.skip(1));
    }
}

/// Of two texts one comes before or is the other.
pub proof fn lemma_text_le_total(a: Seq<char>, b: Seq<char>)
    ensures
        text_le(a, b) || text_le(b, a),
    decreases a.len(),
{
    if a.len() > 0 && b.len() > 0 {
        if a[0] == b[0] {
            lemma_text_le_total(a.skip(1), b.skip(1));
        } else {
            vstd::utf8::char_u32_cast(a[0], a[0] as u32);
            vstd::utf8::char_u32_cast(b[0], b[0] as u32);
        }
    }
}

/// The order of dictionaries is a total order.
pub proof fn lemma_by_text_total_ordering()
    ensures
        vstd::relations::total_ordering(by_text()),
{
    let r = by_text();
    assert forall|x: Seq<char>| #[trigger] r(x, x) by {
        lemma_text_le_reflexive(x);
    }
    assert forall|x: Seq<char>, y: Seq<char>| #[trigger] r(x, y) && #[trigger] r(y, x) implies x
        == y by {
        lemma_text_le_antisymmetric(x, y);
    }
    assert forall|x: Seq<char>, y: Seq<char>, z: Seq<char>| #[trigger]
        r(x, y) && #[trigger] r(y, z) implies r(x, z) by {
        lemma_text_le_transitive(x, y, z);
    }
    assert forall|x: Seq<char>, y: Seq<char>| #[trigger] r(x, y) || #[trigger] r(y, x) by {
        lemma_text_le_total(x, y);
    }
}

/// Whether `a` comes before `b`, or is `b`, in the order of dictionaries.
pub fn le(a: &str, b: &str) -> (r: bool)
    ensures
        r == text_le(a@, b@),
{
    let n = a.unicode_len();
    let m = b.unicode_len();
    let mut i: usize = 0;
    assert(a@.skip(0) == a@);
    assert(b@.skip(0) == b@);
    while i < n && i < m
        invariant
            i <= n,
            i <= m,
            n == a@.len(),
            m == b@.len(),
            text_le(a@, b@) == text_le(a@.skip(i as int), b@.skip(i as int)),
        decreases n - i,
    {
        let x = a.get_char(i);
        let y = b.get_char(i);
        proof {
            assert(a@.skip(i as int)[0] == x);
            assert(b@.skip(i as int)[0] == y);
            assert(a@.skip(i as int).skip(1) == a@.skip(i + 1));
            assert(b@.skip(i as int).skip(1) == b@.skip(i + 1));
        }
        if x != y {
            return (x as u32) < (y as u32);
        }
        i += 1;
    }
    i == n
}

/// The texts of a sequence of strings, in order.
pub open spec fn texts(strings: Seq<String>) -> Seq<Seq<char>> {
    strings.map_values(|s: String| s@)
}

/// The names in the order of dictionaries.
pub open spec fn in_order(names: Seq<Seq<char>>) -> Seq<Seq<char>> {
    names.sort_by(by_text())
}

/// The names of the tags in the order of dictionaries.
pub fn sorted_names(tags: &Vec<Tag>) -> (r: Vec<String>)
    ensures
        texts(r@) == in_order(tag_names(tags@)),
{
    let ghost names = tag_names(tags@);
    let mut out: Vec<String> = Vec::new();
    let mut i: usize = 0;
    proof {
        lemma_by_text_total_ordering();
        assert(names.take(0) =~= Seq::empty());
        assert(texts(out@) =~= Seq::empty());
    }
    while i < tags.len()
        invariant
            i <= tags.len(),
            names == tag_names(tags@),
            vstd::relations::total_ordering(by_text()),
            sorted_by(texts(out@), by_text()),
            texts(out@).to_multiset() == names.take(i as int).to_multiset(),
        decreases tags.len() - i,
    {
        let name = &tags[i].name;
        let mut at: usize = 0;
        while at < out.len() && le(out[at].as_str(), name.as_str())
            invariant
                at <= out.len(),
                forall|j: int| 0 <= j < at ==> by_text()(#[trigger] texts(out@)[j], name@),
            decreases out.len() - at,
        {
            at += 1;
        }
        let ghost before = texts(out@);
        proof {
            assert forall|j: int| at <= j < before.len() implies by_text()(
                name@,
                #[trigger] before[j],
            ) by {
                assert(by_text()(before[at as int], name@) || by_text()(name@, before[at as int]));
                if j > at {
                    assert(by_text()(before[at as int], before[j]));
                }
            }
            vstd::seq_lib::to_multiset_insert(before, at as int, name@);
            vstd::seq_lib::to_multiset_build(names.take(i as int), name@);
            assert(names.take(i + 1) == names.take(i as int).push(name@));
        }
        out.insert(at, name.clone());
        proof {
            let after = texts(out@);
            assert(after =~= before.insert(at as int, name@));
            assert forall|a: int, b: int| 0 <= a < b < after.len() implies by_text()(
                #[trigger] after[a],
                #[trigger] after[b],
            ) by {
                if a < at && b > at {
                    assert(by_text()(before[a], name@));
                    assert(by_text()(name@, before[b - 1]));
                } else if a < at && b < at {
                    assert(by_text()(before[a], before[b]));
                } else if a > at {
                    assert(by_text()(before[a - 1], before[b - 1]));
                }
            }
        }
        i += 1;
    }
    proof {
        assert(names.take(tags.len() as int) == names);
        names.lemma_sort_by_ensures(by_text());
        lemma_sorted_unique(texts(out@), in_order(names), by_text());
    }
    out
}

/// The names one after another, each followed by a space.
pub open spec fn spaced(names: Seq<Seq<char>>) -> Seq<char>
    decreases names.len(),
{
    if names.len() == 0 {
        Seq::empty()
    } else {
        spaced(names.drop_last()) + names.last().push(' ')
    }
}

/// A text without the whitespace at its end, as `str::trim_end` of the
/// standard library leaves it: whitespace is what Unicode calls so.
pub uninterp spec fn trimmed_end(s: Seq<char>) -> Seq<char>;

/// Calls `str::trim_end`. The contract only names the result: nothing is
/// proved of what counts as whitespace.
#[verifier::external_body]
fn trim_end(s: &str) -> (r: String)
    ensures
        r@ == trimmed_end(s@),
{
    s.trim_end().to_string()
}

/// The names separated by spaces, without whitespace at the end.
pub open spec fn listed(names: Seq<Seq<char>>) -> Seq<char> {
    trimmed_end(spaced(names))
}

fn list(names: &Vec<String>) -> (r: String)
    ensures
        r@ == listed(texts(names@)),
{
    let mut all = String::new();
    let mut i: usize = 0;
    proof {
        reveal_strlit(" ");
        assert(texts(names@).take(0) =~= Seq::empty());
    }
    while i < names.len()
        invariant
            i <= names.len(),
            " "@ == seq![' '],
            all@ == spaced(texts(names@).take(i as int)),
        decreases names.len() - i,
    {
        let ghost before = all@;
        all.append(names[i].as_str());
        all.append(" ");
        proof {
            let upto = texts(names@).take(i + 1);
            assert(upto.drop_last() == texts(names@).take(i as int));
            assert(all@ =~= before + names@[i as int]@.push(' '));
        }
        i += 1;
    }
    assert(texts(names@).take(names.len() as int) == texts(names@));
    trim_end(all.as_str())
}

/// The text filled up with spaces at its end to `width` characters. A
/// longer text stays as it is.
pub open spec fn padded(text: Seq<char>, width: nat) -> Seq<char> {
    if text.len() >= width {
        text
    } else {
        text + Seq::new((width - text.len()) as nat, |i: int| ' ')
    }
}

fn pad(text: &str, width: usize) -> (r: String)
    ensures
        r@ == padded(text@, width as nat),
{
    let n = text.unicode_len();
    let mut out = String::from_str(text);
    let mut k: usize = n;
    proof {
        reveal_strlit(" ");
        assert(out@ =~= text@ + Seq::new(0, |i: int| ' '));
    }
    while k < width
        invariant
            n == text@.len(),
            n <= k,
            k <= width || k == n,
            " "@ == seq![' '],
            out@ == text@ + Seq::new((k - n) as nat, |i: int| ' '),
        decreases width - k,
    {
        out.append(" ");
        assert(out@ =~= text@ + Seq::new((k + 1 - n) as nat, |i: int| ' '));
        k += 1;
    }
    proof {
        if n >= width {
            assert(out@ =~= text@);
        }
    }
    out
}

/// The separator between the two columns of a line.
pub open spec fn bar() -> Seq<char> {
    " | "@
}

/// The width of the column of project names.
pub const NAME_WIDTH: usize = 25;

impl CollectionView {
    /// The line that shows the collection: its path and its tags.
    pub open spec fn display(self) -> Seq<char> {
        self.path + bar() + listed(self.tags)
    }
}

impl ProjectView {
    /// The line that shows the project: its name in a column of 25
    /// characters, and its own tags in the order of dictionaries.
    pub open spec fn display(self) -> Seq<char> {
        padded(self.name, NAME_WIDTH as nat) + bar() + listed(in_order(self.tags))
    }
}

impl Collection {
    /// The line that shows the collection: its path and its tags.
    pub fn display(&self) -> (r: String)
        ensures
            r@ == self@.display(),
    {
        let mut names: Vec<String> = Vec::new();
        let mut i: usize = 0;
        while i < self.tags.len()
            invariant
                i <= self.tags.len(),
                names.len() == i,
                forall|j: int| 0 <= j < i ==> (#[trigger] names[j])@ == self.tags[j]@,
            decreases self.tags.len() - i,
        {
            names.push(self.tags[i].name.clone());
            i += 1;
        }
        assert(texts(names@) =~= self@.tags);
        let mut out = self.path.clone();
        out.append(" | ");
        out.append(list(&names).as_str());
        out
    }
}

impl Project {
    /// The line that shows the project: its name in a column of 25
    /// characters, and its own tags in the order of dictionaries.
    pub fn display(&self) -> (r: String)
        ensures
            r@ == self@.display(),
    {
        let names = sorted_names(&self.tags);
        let mut out = pad(self.name.as_str(), NAME_WIDTH);
        out.append(" | ");
        out.append(list(&names).as_str());
        out
    }
}

} // verus!
