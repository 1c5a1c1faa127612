//! Paths as strings: the last component of a path, and a path below
//! another. Components are separated by `/`.

use vstd::prelude::*;

verus! {

/// Where the last component of a path starts: behind its last `/`, or at
/// the front where it has none.
pub open spec fn name_start(path: Seq<char>) -> int
    decreases path.len(),
{
    if path.len() == 0 {
        0
    } else if path.last() == '/' {
        path.len() as int
    } else {
        name_start(path.drop_last())
    }
}

/// The last component of a path: what follows its last `/`. It is empty
/// where the path ends in `/`.
pub open spec fn base_name(path: Seq<char>) -> Seq<char> {
    path.skip(name_start(path))
}

/// The path of `name` below `base`: a `/` goes between them unless `base`
/// is empty or ends in one.
pub open spec fn joined(base: Seq<char>, name: Seq<char>) -> Seq<char> {
    if base.len() == 0 || base.last() == '/' {
        base + name
    } else {
        base.push('/') + name
    }
}

/// The last component starts at `i` when a `/` stands before `i`, or `i`
/// is the front, and none stands behind.
pub proof fn lemma_name_start(path: Seq<char>, i: int)
    requires
        0 <= i <= path.len(),
        i == 0 || path[i - 1] == '/',
        forall|j: int| i <= j < path.len() ==> path[j] != '/',
    ensures
        name_start(path) == i,
    decreases path.len(),
{
    if path.len() > i {
        lemma_name_start(path.drop_last(), i);
    }
}

/// The last component holds no `/`, and the path is what stands before it
/// followed by it.
pub proof fn lemma_base_name(path: Seq<char>)
    ensures
        0 <= name_start(path) <= path.len(),
        name_start(path) == 0 || path[name_start(path) - 1] == '/',
        !base_name(path).contains('/'),
        path == path.take(name_start(path)) + base_name(path),
    decreases path.len(),
{
    if path.len() > 0 && path.last() != '/' {
        let rest = path.drop_last();
        lemma_base_name(rest);
        let i = name_start(rest);
        if i > 0 {
            assert(rest[i - 1] == path[i - 1]);
        }
        assert forall|k: int| 0 <= k < base_name(path).len() implies base_name(path)[k] != '/' by {
            if k < base_name(rest).len() {
                assert(base_name(rest)[k] == base_name(path)[k]);
                assert(base_name(rest).contains(base_name(rest)[k]));
            }
        }
    }
    assert(path =~= path.take(name_start(path)) + base_name(path));
}

/// The last component of a path.
pub fn base_name_of(path: &str) -> (r: String)
    ensures
        r@ == base_name(path@),
        !r@.contains('/'),
        r@.len() <= path@.len(),
        path@.skip(path@.len() - r@.len()) == r@,
        r@.len() < path@.len() ==> path@[path@.len() - r@.len() - 1] == '/',
{
    let n = path.unicode_len();
    let mut i: usize = n;
    while i > 0 && path.get_char(i - 1) != '/'
        invariant
            i <= n,
            n == path@.len(),
            forall|j: int| i <= j < n ==> path@[j] != '/',
        decreases i,
    {
        i -= 1;
    }
    proof {
        lemma_name_start(path@, i as int);
        lemma_base_name(path@);
        assert(path@.subrange(i as int, n as int) == path@.skip(i as int));
    }
    String::from_str(path.substring_char(i, n))
}

/// The path of `name` below `base`.
pub fn join(base: &str, name: &str) -> (r: String)
    ensures
        r@ == joined(base@, name@),
{
    let n = base.unicode_len();
    let mut out = String::from_str(base);
    if n > 0 && base.get_char(n - 1) != '/' {
        proof {
            reveal_strlit("/");
        }
        out.append("/");
        assert(out@ =~= base@.push('/'));
    }
    out.append(name);
    out
}

} // verus!
