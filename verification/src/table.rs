//! A table of values, each under its own name.

use crate::text::{is_before, lemma_before_or_after, lemma_before_passes_on, same_text, text_before};
use vstd::prelude::*;

verus! {

/// Whether `rows` holds a row named `key`.
pub open spec fn has_row<V>(rows: Seq<(Seq<char>, V)>, key: Seq<char>) -> bool {
    exists|i: int| 0 <= i < rows.len() && (#[trigger] rows[i]).0 == key
}

/// Where the row named `key` stands.
pub open spec fn row_of<V>(rows: Seq<(Seq<char>, V)>, key: Seq<char>) -> int {
    choose|i: int| 0 <= i < rows.len() && (#[trigger] rows[i]).0 == key
}

/// No two rows have the same name.
pub open spec fn distinct_rows<V>(rows: Seq<(Seq<char>, V)>) -> bool {
    forall|i: int, j: int|
        0 <= i < j < rows.len() ==> (#[trigger] rows[i]).0 != (#[trigger] rows[j]).0
}

/// Each row's name comes before the names of the rows behind it.
pub open spec fn ordered_rows<V>(rows: Seq<(Seq<char>, V)>) -> bool {
    forall|i: int, j: int|
        0 <= i < j < rows.len() ==> text_before((#[trigger] rows[i]).0, (#[trigger] rows[j]).0)
}

/// What `rows` maps each name to.
pub open spec fn rows_map<V>(rows: Seq<(Seq<char>, V)>) -> Map<Seq<char>, V> {
    Map::new(|k: Seq<char>| has_row(rows, k), |k: Seq<char>| rows[row_of(rows, k)].1)
}

/// The place behind the last row whose name comes before `key`.
pub open spec fn place_of<V>(rows: Seq<(Seq<char>, V)>, key: Seq<char>) -> int
    decreases rows.len(),
{
    if rows.len() == 0 || text_before(rows.last().0, key) {
        rows.len() as int
    } else {
        place_of(rows.drop_last(), key)
    }
}

/// `rows` with `v` in the row named `key`, or in a new row of that name at its
/// place.
pub open spec fn put_row<V>(rows: Seq<(Seq<char>, V)>, key: Seq<char>, v: V) -> Seq<
    (Seq<char>, V),
> {
    if has_row(rows, key) {
        rows.update(row_of(rows, key), (key, v))
    } else {
        rows.insert(place_of(rows, key), (key, v))
    }
}

/// `rows` without the row named `key`.
pub open spec fn drop_row<V>(rows: Seq<(Seq<char>, V)>, key: Seq<char>) -> Seq<(Seq<char>, V)> {
    if has_row(rows, key) {
        rows.remove(row_of(rows, key))
    } else {
        rows
    }
}

/// A row says what the map holds under its name.
pub proof fn lemma_row<V>(rows: Seq<(Seq<char>, V)>, i: int)
    requires
        ordered_rows(rows),
        0 <= i < rows.len(),
    ensures
        rows_map(rows).contains_key(rows[i].0),
        rows_map(rows)[rows[i].0] == rows[i].1,
{
    let k = rows[i].0;
    let j = row_of(rows, k);
    assert(has_row(rows, k));
    assert(0 <= j < rows.len() && rows[j].0 == k);
    if i < j {
        assert(rows[i].0 != rows[j].0);
    }
    if j < i {
        assert(rows[j].0 != rows[i].0);
    }
}

/// What is in the map stands in some row.
pub proof fn lemma_row_exists<V>(rows: Seq<(Seq<char>, V)>, k: Seq<char>) -> (i: int)
    requires
        ordered_rows(rows),
        rows_map(rows).contains_key(k),
    ensures
        0 <= i < rows.len(),
        rows[i].0 == k,
        rows[i].1 == rows_map(rows)[k],
{
    let i = row_of(rows, k);
    assert(has_row(rows, k));
    lemma_row(rows, i);
    i
}

/// The only row named `key` is the one at `i`.
pub proof fn lemma_row_of<V>(rows: Seq<(Seq<char>, V)>, i: int)
    requires
        ordered_rows(rows),
        0 <= i < rows.len(),
    ensures
        has_row(rows, rows[i].0),
        row_of(rows, rows[i].0) == i,
{
    let k = rows[i].0;
    let j = row_of(rows, k);
    assert(has_row(rows, k));
    if i < j {
        assert(rows[i].0 != rows[j].0);
    }
    if j < i {
        assert(rows[j].0 != rows[i].0);
    }
}

/// Writing a row writes the map and keeps the order.
pub proof fn lemma_put_row<V>(rows: Seq<(Seq<char>, V)>, key: Seq<char>, v: V)
    requires
        ordered_rows(rows),
    ensures
        ordered_rows(put_row(rows, key, v)),
        rows_map(put_row(rows, key, v)) == rows_map(rows).insert(key, v),
{
    let now = put_row(rows, key, v);
    let m = rows_map(rows).insert(key, v);
    let known = has_row(rows, key);
    let at = if known { row_of(rows, key) } else { place_of(rows, key) };
    if !known {
        lemma_place(rows, key);
    }
    assert(0 <= at < now.len() && now[at] == (key, v));
    // Where row `j` of `now` stood, and where row `i` of `rows` stands.
    let was = |j: int| if known || j < at { j } else { j - 1 };
    let is = |i: int| if known || i < at { i } else { i + 1 };
    assert forall|a: int, b: int| 0 <= a < b < now.len() implies text_before(
        (#[trigger] now[a]).0,
        (#[trigger] now[b]).0,
    ) by {
        if known {
            assert(text_before(rows[a].0, rows[b].0));
        } else if a == at {
            assert(text_before(key, rows[b - 1].0));
        } else if b == at {
            assert(text_before(rows[a].0, key));
        } else {
            assert(text_before(rows[was(a)].0, rows[was(b)].0));
        }
    }
    assert forall|k: Seq<char>| #[trigger] rows_map(now).contains_key(k) <==> m.contains_key(k) by {
        if rows_map(now).contains_key(k) {
            let j = lemma_row_exists(now, k);
            if j != at {
                assert(rows[was(j)].0 == k);
                lemma_row(rows, was(j));
            }
        }
        if rows_map(rows).contains_key(k) {
            let i = lemma_row_exists(rows, k);
            assert(now[is(i)].0 == k);
            lemma_row(now, is(i));
        }
        if k == key {
            lemma_row(now, at);
        }
    }
    assert forall|k: Seq<char>| #[trigger] rows_map(now).contains_key(k) implies rows_map(now)[k]
        == m[k] by {
        let j = lemma_row_exists(now, k);
        if j != at {
            assert(now[j] == rows[was(j)]);
            lemma_row(rows, was(j));
            if j < at {
                assert(text_before(now[j].0, now[at].0));
            } else {
                assert(text_before(now[at].0, now[j].0));
            }
        }
    }
    assert(rows_map(now) =~= m);
}

/// A new name's place is behind the names before it and in front of the others.
proof fn lemma_place<V>(rows: Seq<(Seq<char>, V)>, key: Seq<char>)
    requires
        ordered_rows(rows),
        !has_row(rows, key),
    ensures
        0 <= place_of(rows, key) <= rows.len(),
        forall|i: int|
            0 <= i < place_of(rows, key) ==> text_before((#[trigger] rows[i]).0, key),
        forall|i: int|
            place_of(rows, key) <= i < rows.len() ==> text_before(key, (#[trigger] rows[i]).0),
    decreases rows.len(),
{
    if rows.len() > 0 {
        let last = rows.last();
        assert(rows[rows.len() - 1].0 != key);
        if text_before(last.0, key) {
            assert forall|i: int| 0 <= i < rows.len() implies text_before(
                (#[trigger] rows[i]).0,
                key,
            ) by {
                if i < rows.len() - 1 {
                    assert(text_before(rows[i].0, rows[rows.len() - 1].0));
                    lemma_before_passes_on(rows[i].0, last.0, key);
                }
            }
        } else {
            let head = rows.drop_last();
            assert forall|i: int, j: int| 0 <= i < j < head.len() implies text_before(
                (#[trigger] head[i]).0,
                (#[trigger] head[j]).0,
            ) by {
                assert(text_before(rows[i].0, rows[j].0));
            }
            if has_row(head, key) {
                assert(rows[row_of(head, key)].0 == key);
            }
            lemma_place(head, key);
            lemma_before_or_after(last.0, key);
            assert forall|i: int| place_of(rows, key) <= i < rows.len() implies text_before(
                key,
                (#[trigger] rows[i]).0,
            ) by {
                if i < head.len() {
                    assert(head[i] == rows[i]);
                }
            }
            assert forall|i: int| 0 <= i < place_of(rows, key) implies text_before(
                (#[trigger] rows[i]).0,
                key,
            ) by {
                assert(head[i] == rows[i]);
            }
        }
    }
}

/// Dropping a row drops its name from the map and keeps the order.
pub proof fn lemma_drop_row<V>(rows: Seq<(Seq<char>, V)>, key: Seq<char>)
    requires
        ordered_rows(rows),
    ensures
        ordered_rows(drop_row(rows, key)),
        rows_map(drop_row(rows, key)) == rows_map(rows).remove(key),
{
    if !has_row(rows, key) {
        assert(rows_map(rows) =~= rows_map(rows).remove(key));
        return;
    }
    let now = drop_row(rows, key);
    let i = row_of(rows, key);
    assert(rows[i].0 == key);
    assert forall|a: int, b: int| 0 <= a < b < now.len() implies text_before(
        (#[trigger] now[a]).0,
        (#[trigger] now[b]).0,
    ) by {
        let x = if a < i { a } else { a + 1 };
        let y = if b < i { b } else { b + 1 };
        assert(text_before(rows[x].0, rows[y].0));
    }
    assert forall|k: Seq<char>| #[trigger]
        rows_map(now).contains_key(k) <==> (rows_map(rows).contains_key(k) && k != key) by {
        if rows_map(now).contains_key(k) {
            let a = lemma_row_exists(now, k);
            let x = if a < i { a } else { a + 1 };
            assert(rows[x].0 == k);
            lemma_row(rows, x);
            if x < i {
                assert(rows[x].0 != rows[i].0);
            } else {
                assert(rows[i].0 != rows[x].0);
            }
        }
        if rows_map(rows).contains_key(k) && k != key {
            let x = lemma_row_exists(rows, k);
            let a = if x < i { x } else { x - 1 };
            assert(now[a].0 == k);
        }
    }
    assert forall|k: Seq<char>| #[trigger] rows_map(now).contains_key(k) implies rows_map(now)[k]
        == rows_map(rows)[k] by {
        let a = lemma_row_exists(now, k);
        let x = if a < i { a } else { a + 1 };
        lemma_row(rows, x);
    }
    assert(rows_map(now) =~= rows_map(rows).remove(key));
}

/// The rows of `list`; of two with one name the later counts.
pub open spec fn collect_rows<V>(list: Seq<(Seq<char>, V)>) -> Seq<(Seq<char>, V)>
    decreases list.len(),
{
    if list.len() == 0 {
        seq![]
    } else {
        put_row(collect_rows(list.drop_last()), list.last().0, list.last().1)
    }
}

/// Rows in order are fixed by what they map each name to.
pub proof fn law_equal_maps_have_equal_rows<V>(a: Seq<(Seq<char>, V)>, b: Seq<(Seq<char>, V)>)
    requires
        ordered_rows(a),
        ordered_rows(b),
        rows_map(a) == rows_map(b),
    ensures
        a == b,
    decreases a.len(),
{
    if a.len() == 0 {
        if b.len() > 0 {
            lemma_row(b, 0);
            let i = lemma_row_exists(a, b[0].0);
        }
        assert(a =~= b);
    } else {
        let m = a.len() - 1;
        lemma_row(a, m);
        let j = lemma_row_exists(b, a[m].0);
        let n = b.len() - 1;
        lemma_row(b, n);
        let i = lemma_row_exists(a, b[n].0);
        if j < n && i < m {
            assert(text_before(b[j].0, b[n].0));
            assert(text_before(a[i].0, a[m].0));
            lemma_before_passes_on(a[m].0, b[n].0, a[m].0);
        }
        assert(i == m || j == n);
        assert(a[m] == b[n]);
        lemma_row_of(a, m);
        lemma_row_of(b, n);
        let key = a[m].0;
        lemma_drop_row(a, key);
        lemma_drop_row(b, key);
        law_equal_maps_have_equal_rows(drop_row(a, key), drop_row(b, key));
        assert(a =~= drop_row(a, key).push(a[m]));
        assert(b =~= drop_row(b, key).push(b[n]));
    }
}

/// No row behind row `i` has its name.
pub open spec fn is_last<V>(list: Seq<(Seq<char>, V)>, i: int) -> bool {
    forall|j: int| i < j < list.len() ==> (#[trigger] list[j]).0 != list[i].0
}

/// What is collected of a list is in order, and holds under each name the last
/// value that the list has for it.
pub proof fn law_the_last_value_is_collected<V>(list: Seq<(Seq<char>, V)>)
    ensures
        ordered_rows(collect_rows(list)),
        forall|k: Seq<char>| #[trigger]
            rows_map(collect_rows(list)).contains_key(k) <==> has_row(list, k),
        forall|i: int|
            0 <= i < list.len() && #[trigger] is_last(list, i) ==> rows_map(
                collect_rows(list),
            )[list[i].0] == list[i].1,
    decreases list.len(),
{
    let now = rows_map(collect_rows(list));
    if list.len() > 0 {
        let head = list.drop_last();
        let last = list.last();
        let was = rows_map(collect_rows(head));
        law_the_last_value_is_collected(head);
        lemma_put_row(collect_rows(head), last.0, last.1);
        assert(now == was.insert(last.0, last.1));
        assert forall|k: Seq<char>| #[trigger] now.contains_key(k) <==> has_row(list, k) by {
            assert(was.contains_key(k) <==> has_row(head, k));
            assert(list[list.len() - 1] == last);
            if has_row(head, k) {
                assert(list[row_of(head, k)].0 == k);
            }
            if has_row(list, k) && k != last.0 {
                assert(head[row_of(list, k)].0 == k);
            }
        }
        assert forall|i: int| 0 <= i < list.len() && #[trigger] is_last(list, i) implies now[list[i].0]
            == list[i].1 by {
            if i < head.len() {
                assert(list[list.len() - 1].0 != list[i].0);
                assert(is_last(head, i)) by {
                    assert forall|j: int| i < j < head.len() implies (#[trigger] head[j]).0
                        != head[i].0 by {
                        assert(list[j].0 != list[i].0);
                    }
                }
                assert(head[i] == list[i]);
            }
        }
    }
}

/// The order of a list whose names are distinct does not show in what is
/// collected of it.
pub proof fn law_lists_in_any_order_are_collected_alike<V>(
    a: Seq<(Seq<char>, V)>,
    b: Seq<(Seq<char>, V)>,
)
    requires
        distinct_rows(a),
        distinct_rows(b),
        forall|row: (Seq<char>, V)| #[trigger] a.contains(row) <==> b.contains(row),
    ensures
        collect_rows(a) == collect_rows(b),
{
    law_the_last_value_is_collected(a);
    law_the_last_value_is_collected(b);
    let x = rows_map(collect_rows(a));
    let y = rows_map(collect_rows(b));
    assert forall|k: Seq<char>| #[trigger] x.contains_key(k) <==> y.contains_key(k) by {
        if has_row(a, k) {
            assert(a.contains(a[row_of(a, k)]));
            assert(b[b.index_of(a[row_of(a, k)])].0 == k);
        }
        if has_row(b, k) {
            assert(b.contains(b[row_of(b, k)]));
            assert(a.contains(b[row_of(b, k)]));
            assert(a[a.index_of(b[row_of(b, k)])].0 == k);
        }
    }
    assert forall|k: Seq<char>| #[trigger] x.contains_key(k) implies x[k] == y[k] by {
        let i = row_of(a, k);
        assert(a[i].0 == k);
        assert(a.contains(a[i]));
        let j = b.index_of(a[i]);
        assert(b[j] == a[i]);
        assert(is_last(a, i));
        assert(is_last(b, j));
    }
    assert(x =~= y);
    law_equal_maps_have_equal_rows(collect_rows(a), collect_rows(b));
}

/// A table of `T`, each under a name that no other has. The rows stand in the
/// order of their names, so that tables that hold the same have equal rows.
#[derive(Debug, Clone, PartialEq)]
pub struct Table<T> {
    rows: Vec<(String, T)>,
}

impl<T: DeepView> Table<T> {
    /// The rows, in the order of their names.
    pub closed spec fn rows(&self) -> Seq<(Seq<char>, T::V)> {
        self.rows.deep_view()
    }

    /// The names rise, so that none stands twice.
    pub open spec fn wf(&self) -> bool {
        ordered_rows(self.rows())
    }

    /// What stands under each name.
    pub open spec fn map(&self) -> Map<Seq<char>, T::V> {
        rows_map(self.rows())
    }

    /// An empty table.
    pub fn new() -> (res: Self)
        ensures
            res.wf(),
            res.rows() == Seq::<(Seq<char>, T::V)>::empty(),
            res.map() == Map::<Seq<char>, T::V>::empty(),
    {
        let res = Table { rows: Vec::new() };
        assert(res.rows() =~= Seq::<(Seq<char>, T::V)>::empty());
        assert(res.map() =~= Map::<Seq<char>, T::V>::empty());
        res
    }

    /// How many rows there are.
    pub fn len(&self) -> (res: usize)
        ensures
            res == self.rows().len(),
    {
        self.rows.len()
    }

    /// The name in row `i`.
    pub fn name_at(&self, i: usize) -> (res: &String)
        requires
            i < self.rows().len(),
        ensures
            res@ == self.rows()[i as int].0,
    {
        &self.rows[i].0
    }

    /// The value in row `i`.
    pub fn value_at(&self, i: usize) -> (res: &T)
        requires
            i < self.rows().len(),
        ensures
            res.deep_view() == self.rows()[i as int].1,
    {
        &self.rows[i].1
    }

    /// The row named `key`.
    fn position(&self, key: &str) -> (res: Option<usize>)
        requires
            self.wf(),
        ensures
            match res {
                Some(i) => {
                    &&& i < self.rows@.len()
                    &&& has_row(self.rows(), key@)
                    &&& row_of(self.rows(), key@) == i
                    &&& self.map().contains_key(key@)
                    &&& self.map()[key@] == self.rows@[i as int].1.deep_view()
                },
                None => !has_row(self.rows(), key@) && !self.map().contains_key(key@),
            },
    {
        let mut i: usize = 0;
        while i < self.rows.len()
            invariant
                self.wf(),
                i <= self.rows@.len(),
                forall|j: int| 0 <= j < i ==> (#[trigger] self.rows@[j]).0@ != key@,
            decreases self.rows@.len() - i,
        {
            if same_text(self.rows[i].0.as_str(), key) {
                proof {
                    assert(self.rows()[i as int] == (key@, self.rows@[i as int].1.deep_view()));
                    lemma_row(self.rows(), i as int);
                    lemma_row_of(self.rows(), i as int);
                }
                return Some(i);
            }
            i = i + 1;
        }
        proof {
            if has_row(self.rows(), key@) {
                let j = row_of(self.rows(), key@);
                assert(self.rows()[j].0 == key@);
                assert(self.rows@[j].0@ == key@);
            }
        }
        None
    }

    /// The place of `key` among the names.
    fn place(&self, key: &str) -> (res: usize)
        ensures
            res == place_of(self.rows(), key@),
    {
        let ghost rows = self.rows();
        let mut at: usize = self.rows.len();
        assert(rows.take(at as int) =~= rows);
        while at > 0 && !is_before(self.rows[at - 1].0.as_str(), key)
            invariant
                rows == self.rows(),
                rows.len() == self.rows@.len(),
                at <= rows.len(),
                place_of(rows, key@) == place_of(rows.take(at as int), key@),
            decreases at,
        {
            proof {
                let now = rows.take(at as int);
                assert(now.last() == (self.rows@[at - 1].0@, self.rows@[at - 1].1.deep_view()));
                assert(now.drop_last() =~= rows.take(at - 1));
            }
            at = at - 1;
        }
        proof {
            let now = rows.take(at as int);
            if at > 0 {
                assert(now.last() == (self.rows@[at - 1].0@, self.rows@[at - 1].1.deep_view()));
            }
        }
        at
    }

    /// What stands under `key`.
    pub fn get(&self, key: &str) -> (res: Option<&T>)
        requires
            self.wf(),
        ensures
            match res {
                Some(v) => self.map().contains_key(key@) && v.deep_view() == self.map()[key@],
                None => !self.map().contains_key(key@),
            },
    {
        match self.position(key) {
            Some(i) => Some(&self.rows[i].1),
            None => None,
        }
    }

    /// Puts `value` under `key`, in place of what stood there.
    pub fn insert(&mut self, key: String, value: T)
        requires
            old(self).wf(),
        ensures
            final(self).wf(),
            final(self).rows() == put_row(old(self).rows(), key@, value.deep_view()),
            final(self).map() == old(self).map().insert(key@, value.deep_view()),
    {
        let ghost rows = self.rows();
        let ghost name = key@;
        let ghost v = value.deep_view();
        proof {
            lemma_put_row(rows, name, v);
        }
        match self.position(key.as_str()) {
            Some(i) => {
                self.rows.set(i, (key, value));
                assert(self.rows() =~= rows.update(i as int, (name, v)));
            },
            None => {
                let at = self.place(key.as_str());
                proof {
                    lemma_place(rows, name);
                }
                self.rows.insert(at, (key, value));
                assert(self.rows() =~= rows.insert(at as int, (name, v)));
            },
        }
    }

    /// Takes out what stands under `key`, if anything does.
    pub fn remove(&mut self, key: &str)
        requires
            old(self).wf(),
        ensures
            final(self).wf(),
            final(self).rows() == drop_row(old(self).rows(), key@),
            final(self).map() == old(self).map().remove(key@),
    {
        let ghost rows = self.rows();
        proof {
            lemma_drop_row(rows, key@);
        }
        if let Some(i) = self.position(key) {
            let _ = self.rows.remove(i);
            assert(self.rows() =~= rows.remove(i as int));
        }
    }
}

impl<T: DeepView + Copy> Table<T> {
    /// A copy.
    pub fn copied(&self) -> (res: Self)
        ensures
            res.rows() == self.rows(),
    {
        let mut rows: Vec<(String, T)> = Vec::new();
        let mut i: usize = 0;
        while i < self.rows.len()
            invariant
                i <= self.rows@.len(),
                rows@ == self.rows@.take(i as int),
            decreases self.rows@.len() - i,
        {
            rows.push((self.rows[i].0.clone(), self.rows[i].1));
            i = i + 1;
            assert(self.rows@.take(i as int) =~= self.rows@.take(i - 1).push(self.rows@[i - 1]));
        }
        assert(self.rows@.take(i as int) =~= self.rows@);
        let res = Table { rows };
        assert(res.rows() =~= self.rows());
        res
    }
}

} // verus!
