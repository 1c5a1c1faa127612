//! Sequences without duplicates: how to get one, and what keeps one so.

use vstd::prelude::*;

verus! {

/// In a sequence without duplicates an element is found where it stands.
pub proof fn lemma_index_of<A>(s: Seq<A>, i: int)
    requires
        s.no_duplicates(),
        0 <= i < s.len(),
    ensures
        s.contains(s[i]),
        s.index_of(s[i]) == i,
{
    let j = s.index_of(s[i]);
    assert(s[j] == s[i]);
}

/// Appending an element that is not there yet keeps a sequence free of
/// duplicates.
pub proof fn lemma_push_no_duplicates<A>(s: Seq<A>, a: A)
    requires
        s.no_duplicates(),
        !s.contains(a),
    ensures
        s.push(a).no_duplicates(),
{
}

/// What is left of a sequence without duplicates when one element is taken
/// out: everything else, once.
pub proof fn lemma_remove_no_duplicates<A>(s: Seq<A>, i: int)
    requires
        s.no_duplicates(),
        0 <= i < s.len(),
    ensures
        s.remove(i).no_duplicates(),
        forall|x: A| #[trigger] s.remove(i).contains(x) <==> s.contains(x) && x != s[i],
{
    let r = s.remove(i);
    assert forall|x: A| #[trigger] r.contains(x) <==> s.contains(x) && x != s[i] by {
        if r.contains(x) {
            let k = r.index_of(x);
            if k < i {
                assert(s[k] == x);
            } else {
                assert(s[k + 1] == x);
            }
        }
        if s.contains(x) && x != s[i] {
            let k = s.index_of(x);
            if k < i {
                assert(r[k] == x);
            } else {
                assert(r[k - 1] == x);
            }
        }
    }
}

/// A filtered sequence holds exactly the elements that pass.
pub proof fn lemma_filter_members<A>(s: Seq<A>, pred: spec_fn(A) -> bool)
    ensures
        forall|x: A| #[trigger] s.filter(pred).contains(x) <==> s.contains(x) && pred(x),
{
    assert forall|x: A| #[trigger] s.filter(pred).contains(x) <==> s.contains(x) && pred(x) by {
        if s.filter(pred).contains(x) {
            s.lemma_filter_contains_rev(pred, x);
            let k = s.filter(pred).index_of(x);
            s.lemma_filter_pred(pred, k);
        }
        if s.contains(x) && pred(x) {
            let k = s.index_of(x);
            s.lemma_filter_contains(pred, k);
        }
    }
}

/// Filtering a sequence without duplicates leaves none.
pub proof fn lemma_filter_no_duplicates<A>(s: Seq<A>, pred: spec_fn(A) -> bool)
    requires
        s.no_duplicates(),
    ensures
        s.filter(pred).no_duplicates(),
    decreases s.len(),
{
    reveal(Seq::filter);
    if s.len() > 0 {
        let rest = s.drop_last();
        lemma_filter_no_duplicates(rest, pred);
        if pred(s.last()) {
            lemma_filter_members(rest, pred);
            if rest.contains(s.last()) {
                let k = rest.index_of(s.last());
                assert(s[k] == s.last());
            }
            lemma_push_no_duplicates(rest.filter(pred), s.last());
        }
    }
}

/// `base`, followed by each element of `more` that was not there before it,
/// in the order of `more`.
pub open spec fn merged<A>(base: Seq<A>, more: Seq<A>) -> Seq<A>
    decreases more.len(),
{
    if more.len() == 0 {
        base
    } else {
        let m = merged(base, more.drop_last());
        if m.contains(more.last()) {
            m
        } else {
            m.push(more.last())
        }
    }
}

/// The elements of a sequence, each where it first stands.
pub open spec fn distinct<A>(s: Seq<A>) -> Seq<A> {
    merged(Seq::empty(), s)
}

/// Merging adds no element twice, and yields the elements of both sides.
pub proof fn lemma_merged<A>(base: Seq<A>, more: Seq<A>)
    ensures
        base.no_duplicates() ==> merged(base, more).no_duplicates(),
        merged(base, more).to_set() == base.to_set().union(more.to_set()),
    decreases more.len(),
{
    let all = merged(base, more);
    if more.len() == 0 {
        assert(all.to_set() =~= base.to_set().union(more.to_set()));
    } else {
        let rest = more.drop_last();
        let m = merged(base, rest);
        lemma_merged(base, rest);
        assert forall|x: A| #[trigger] all.contains(x) <==> base.contains(x) || more.contains(x) by {
            assert(m.to_set().contains(x) <==> base.to_set().contains(x) || rest.to_set().contains(
                x,
            ));
            if rest.contains(x) {
                let k = rest.index_of(x);
                assert(more[k] == x);
            }
            if more.contains(x) && x != more.last() {
                let k = more.index_of(x);
                assert(rest[k] == x);
            }
            if m.contains(x) {
                let k = m.index_of(x);
                assert(all[k] == x);
            }
            if all.contains(x) && !m.contains(x) {
                let k = all.index_of(x);
                assert(k == m.len());
            }
            if !m.contains(more.last()) {
                assert(all[m.len() as int] == more.last());
            }
            assert(more[more.len() - 1] == more.last());
        }
        assert(all.to_set() =~= base.to_set().union(more.to_set()));
    }
}

} // verus!
