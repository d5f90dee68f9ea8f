//! Lists in the order of their dates.

use vstd::prelude::*;
use vstd::seq_lib::to_multiset_insert;

verus! {

/// A value with a date.
pub trait Dated: DeepView {
    /// The date of a value with this model.
    spec fn date_of(v: Self::V) -> i64;

    /// The date.
    fn date(&self) -> (res: i64)
        ensures
            res == Self::date_of(self.deep_view()),
    ;
}

/// The dates never fall.
pub open spec fn in_order<T: Dated>(list: Seq<T::V>) -> bool {
    forall|i: int, j: int|
        0 <= i <= j < list.len() ==> T::date_of(#[trigger] list[i]) <= T::date_of(#[trigger] list[j])
}

/// Puts `item` behind everything that is not later.
pub fn insert_dated<T: Dated>(list: &mut Vec<T>, item: T)
    requires
        in_order::<T>(old(list).deep_view()),
    ensures
        in_order::<T>(final(list).deep_view()),
        final(list).deep_view().to_multiset() == old(list).deep_view().to_multiset().insert(
            item.deep_view(),
        ),
{
    let ghost before = list.deep_view();
    let ghost x = item.deep_view();
    let mut at: usize = list.len();
    while at > 0 && list[at - 1].date() > item.date()
        invariant
            at <= list@.len(),
            before == list.deep_view(),
            x == item.deep_view(),
            forall|i: int| at <= i < before.len() ==> T::date_of(#[trigger] before[i]) > T::date_of(x),
        decreases at,
    {
        assert(before[at - 1] == list@[at - 1].deep_view());
        at = at - 1;
    }
    assert(at > 0 ==> before[at - 1] == list@[at - 1].deep_view());
    list.insert(at, item);
    proof {
        let now = list.deep_view();
        assert(now =~= before.insert(at as int, x));
        to_multiset_insert(before, at as int, x);
        assert forall|i: int, j: int| 0 <= i <= j < now.len() implies T::date_of(#[trigger] now[i])
            <= T::date_of(#[trigger] now[j]) by {
            let p = if i < at { i } else { i - 1 };
            let q = if j < at { j } else { j - 1 };
            if i < at {
                assert(now[i] == before[i]);
                if at > 0 {
                    assert(T::date_of(before[i]) <= T::date_of(before[at - 1]));
                }
            }
            if j > at {
                assert(now[j] == before[j - 1]);
            }
            if i != at && j != at {
                assert(T::date_of(before[p]) <= T::date_of(before[q]));
            }
        }
    }
}

} // verus!
