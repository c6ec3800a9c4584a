//! First-match search over sequences.
use vstd::prelude::*;

verus! {

/// `i` is the first position whose element satisfies `p`.
pub open spec fn is_first_where<T>(s: Seq<T>, p: spec_fn(T) -> bool, i: int) -> bool {
    &&& 0 <= i < s.len()
    &&& p(s[i])
    &&& forall|j: int| 0 <= j < i ==> !p(s[j])
}

/// Some element satisfies `p`.
pub open spec fn any_where<T>(s: Seq<T>, p: spec_fn(T) -> bool) -> bool {
    exists|i: int| 0 <= i < s.len() && p(s[i])
}

/// The first position whose element satisfies `p`, if any.
pub open spec fn first_where<T>(s: Seq<T>, p: spec_fn(T) -> bool) -> Option<int> {
    if any_where(s, p) {
        Some(choose|i: int| is_first_where(s, p, i))
    } else {
        None
    }
}

proof fn lemma_first_where_exists<T>(s: Seq<T>, p: spec_fn(T) -> bool, i: int)
    requires
        0 <= i < s.len(),
        p(s[i]),
    ensures
        exists|k: int| is_first_where(s, p, k),
    decreases i,
{
    if exists|j: int| 0 <= j < i && p(s[j]) {
        let j = choose|j: int| 0 <= j < i && p(s[j]);
        lemma_first_where_exists(s, p, j);
    } else {
        assert(is_first_where(s, p, i));
    }
}

/// What `first_where` gives: the first matching position, or nothing when none matches.
pub proof fn lemma_first_where<T>(s: Seq<T>, p: spec_fn(T) -> bool)
    ensures
        match first_where(s, p) {
            Some(i) => is_first_where(s, p, i),
            None => !any_where(s, p),
        },
{
    if any_where(s, p) {
        let i = choose|i: int| 0 <= i < s.len() && p(s[i]);
        lemma_first_where_exists(s, p, i);
    }
}

/// The first matching position is unique.
pub proof fn lemma_first_where_unique<T>(s: Seq<T>, p: spec_fn(T) -> bool, i: int)
    requires
        is_first_where(s, p, i),
    ensures
        first_where(s, p) == Some(i),
{
    lemma_first_where(s, p);
    let k = first_where(s, p)->0;
    if k < i {
        assert(p(s[k]));
    } else if i < k {
        assert(p(s[i]));
    }
}

} // verus!
