//! What it means to find one sequence in another.

use vstd::prelude::*;

verus! {

/// `needle` stands in `hay` at offset `i`.
pub open spec fn occurs_at<A>(hay: Seq<A>, needle: Seq<A>, i: int) -> bool {
    &&& 0 <= i
    &&& i + needle.len() <= hay.len()
    &&& hay.subrange(i, i + needle.len()) == needle
}

/// `i` is the offset of the first occurrence of `needle` in `hay`.
pub open spec fn first_at<A>(hay: Seq<A>, needle: Seq<A>, i: int) -> bool {
    &&& occurs_at(hay, needle, i)
    &&& forall|j: int| 0 <= j < i ==> !#[trigger] occurs_at(hay, needle, j)
}

/// `needle` stands nowhere in `hay`.
pub open spec fn absent<A>(hay: Seq<A>, needle: Seq<A>) -> bool {
    forall|j: int| !#[trigger] occurs_at(hay, needle, j)
}

/// The offset of the first occurrence of `needle` in `hay`, where there is one.
pub open spec fn find_spec<A>(hay: Seq<A>, needle: Seq<A>) -> Option<int> {
    if absent(hay, needle) {
        None
    } else {
        Some(choose|i: int| first_at(hay, needle, i))
    }
}

/// Where a needle occurs at all, it has a first occurrence.
pub proof fn lemma_first_exists<A>(hay: Seq<A>, needle: Seq<A>, k: int)
    requires
        occurs_at(hay, needle, k),
    ensures
        exists|i: int| first_at(hay, needle, i) && i <= k,
    decreases k,
{
    if forall|j: int| 0 <= j < k ==> !#[trigger] occurs_at(hay, needle, j) {
        assert(first_at(hay, needle, k));
    } else {
        let j = choose|j: int| 0 <= j < k && #[trigger] occurs_at(hay, needle, j);
        lemma_first_exists(hay, needle, j);
    }
}

/// The first occurrence is unique, so `find_spec` names it.
pub proof fn lemma_find_is<A>(hay: Seq<A>, needle: Seq<A>, i: int)
    requires
        first_at(hay, needle, i),
    ensures
        find_spec(hay, needle) == Some(i),
{
    let c = choose|c: int| first_at(hay, needle, c);
    assert(first_at(hay, needle, c));
    assert(occurs_at(hay, needle, i));
    assert(occurs_at(hay, needle, c));
    if c < i {
        assert(!occurs_at(hay, needle, c));
    }
    if i < c {
        assert(!occurs_at(hay, needle, i));
    }
}

/// What `find_spec` returns is a first occurrence, and `None` means none.
pub proof fn lemma_find_sound<A>(hay: Seq<A>, needle: Seq<A>)
    ensures
        match find_spec(hay, needle) {
            Some(i) => first_at(hay, needle, i),
            None => absent(hay, needle),
        },
{
    if !absent(hay, needle) {
        let k = choose|k: int| #[trigger] occurs_at(hay, needle, k);
        lemma_first_exists(hay, needle, k);
    }
}

/// Bytes appended behind a needle that was found do not move its first occurrence.
pub proof fn lemma_find_extend<A>(hay: Seq<A>, more: Seq<A>, needle: Seq<A>)
    requires
        find_spec(hay, needle) is Some,
    ensures
        find_spec(hay + more, needle) == find_spec(hay, needle),
{
    lemma_find_sound(hay, needle);
    let i = find_spec(hay, needle)->0;
    let n = needle.len() as int;
    assert((hay + more).subrange(i, i + n) =~= hay.subrange(i, i + n));
    assert forall|j: int| 0 <= j < i implies !#[trigger] occurs_at(hay + more, needle, j) by {
        assert((hay + more).subrange(j, j + n) =~= hay.subrange(j, j + n));
        assert(!occurs_at(hay, needle, j));
    }
    assert(first_at(hay + more, needle, i));
    lemma_find_is(hay + more, needle, i);
}

} // verus!
