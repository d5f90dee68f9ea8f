//! How the models of vectors and options move with what they hold.

use vstd::prelude::*;

verus! {

/// The model of a vector after a push.
pub proof fn lemma_view_push<T: DeepView>(before: Vec<T>, after: Vec<T>, x: T)
    requires
        after@ == before@.push(x),
    ensures
        after.deep_view() == before.deep_view().push(x.deep_view()),
{
    assert(after.deep_view() =~= before.deep_view().push(x.deep_view()));
}

/// A value that can be copied with its model kept.
pub trait Duplicate: DeepView + Sized {
    /// A copy.
    fn duplicate(&self) -> (res: Self)
        ensures
            res.deep_view() == self.deep_view(),
    ;
}

/// A copy of a list.
pub fn duplicate_all<T: Duplicate>(v: &Vec<T>) -> (res: Vec<T>)
    ensures
        res.deep_view() == v.deep_view(),
{
    let mut res: Vec<T> = Vec::new();
    let ghost all = v.deep_view();
    let mut i: usize = 0;
    assert(res.deep_view() =~= all.take(0));
    while i < v.len()
        invariant
            all == v.deep_view(),
            i <= v@.len(),
            res.deep_view() == all.take(i as int),
        decreases v@.len() - i,
    {
        let ghost before = res;
        let item = v[i].duplicate();
        res.push(item);
        proof {
            lemma_view_push(before, res, item);
            assert(all.take(i + 1) =~= all.take(i as int).push(item.deep_view()));
        }
        i = i + 1;
    }
    assert(all.take(i as int) =~= all);
    res
}

/// A copy of an optional value.
pub fn duplicate_opt<T: Duplicate>(v: &Option<T>) -> (res: Option<T>)
    ensures
        res.deep_view() == v.deep_view(),
{
    match v {
        Some(x) => Some(x.duplicate()),
        None => None,
    }
}

} // verus!
