use vstd::prelude::*;

verus! {

/// `i` is the first position in `s` whose element satisfies `p`.
pub open spec fn is_first_where<A>(s: Seq<A>, p: spec_fn(A) -> bool, i: int) -> bool {
    &&& 0 <= i < s.len()
    &&& p(s[i])
    &&& forall|j: int| 0 <= j < i ==> !p(s[j])
}

pub open spec fn exists_where<A>(s: Seq<A>, p: spec_fn(A) -> bool) -> bool {
    exists|i: int| 0 <= i < s.len() && p(s[i])
}

pub open spec fn first_where<A>(s: Seq<A>, p: spec_fn(A) -> bool) -> int {
    choose|i: int| is_first_where(s, p, i)
}

pub proof fn lemma_first_where<A>(s: Seq<A>, p: spec_fn(A) -> bool, i: int)
    requires
        is_first_where(s, p, i),
    ensures
        exists_where(s, p),
        first_where(s, p) == i,
{
    let k = first_where(s, p);
    assert(is_first_where(s, p, k));
    if k < i {
        assert(!p(s[k]));
    }
    if i < k {
        assert(!p(s[i]));
    }
}

proof fn lemma_first_where_below<A>(s: Seq<A>, p: spec_fn(A) -> bool, k: int)
    requires
        0 <= k < s.len(),
        p(s[k]),
    ensures
        is_first_where(s, p, first_where(s, p)),
    decreases k,
{
    if exists|j: int| 0 <= j < k && p(s[j]) {
        let j = choose|j: int| 0 <= j < k && p(s[j]);
        lemma_first_where_below(s, p, j);
    } else {
        assert(is_first_where(s, p, k));
    }
}

/// Where some element satisfies `p`, a first one does.
pub proof fn lemma_exists_first<A>(s: Seq<A>, p: spec_fn(A) -> bool)
    requires
        exists_where(s, p),
    ensures
        is_first_where(s, p, first_where(s, p)),
{
    let k = choose|k: int| 0 <= k < s.len() && p(s[k]);
    lemma_first_where_below(s, p, k);
}

} // verus!
