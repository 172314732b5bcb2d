use vstd::prelude::*;

verus! {

/// A row of a table: it has a mathematical value and can be copied out of the
/// table without changing that value.
pub trait Row: View + Sized {
    fn duplicate(&self) -> (copy: Self)
        ensures
            copy@ == self@,
    ;
}

/// A condition on the rows of a table, as a `WHERE` clause states one.
pub trait Condition<R: Row> {
    /// The rows the condition holds of.
    spec fn pred(&self) -> spec_fn(R::V) -> bool;

    fn test(&self, row: &R) -> (holds: bool)
        ensures
            holds == (self.pred())(row@),
    ;
}

/// The rows of a table as mathematical values, in storage order.
pub open spec fn views<R: Row>(rows: Seq<R>) -> Seq<R::V> {
    rows.map_values(|row: R| row@)
}

/// The condition that holds exactly where `p` does not.
pub open spec fn negate<V>(p: spec_fn(V) -> bool) -> spec_fn(V) -> bool {
    |v: V| !p(v)
}

/// What a query that asks for at most one row gets: the first row that meets
/// the condition.
pub open spec fn first_where<V>(rows: Seq<V>, p: spec_fn(V) -> bool) -> Option<V> {
    if rows.filter(p).len() > 0 {
        Some(rows.filter(p)[0])
    } else {
        None
    }
}

/// The value of an optional row.
pub open spec fn option_view<R: Row>(row: Option<R>) -> Option<R::V> {
    match row {
        Some(row) => Some(row@),
        None => None,
    }
}

/// What a filtered table holds: rows of the table that meet the condition, and
/// all of them.
pub proof fn lemma_filter_members<V>(rows: Seq<V>, p: spec_fn(V) -> bool)
    ensures
        forall|i: int|
            0 <= i < rows.filter(p).len() ==> p(#[trigger] rows.filter(p)[i]) && rows.contains(
                rows.filter(p)[i],
            ),
        forall|i: int| 0 <= i < rows.len() && p(rows[i]) ==> rows.filter(p).contains(#[trigger] rows[i]),
        rows.filter(p).len() <= rows.len(),
{
    broadcast use vstd::seq_lib::group_filter_ensures;

    assert forall|i: int| 0 <= i < rows.filter(p).len() implies p(#[trigger] rows.filter(p)[i])
        && rows.contains(rows.filter(p)[i]) by {
        assert(rows.filter(p).contains(rows.filter(p)[i]));
        rows.lemma_filter_contains_rev(p, rows.filter(p)[i]);
    }
}

/// A table in which no row meets the condition filters to nothing, and a table
/// that filters to nothing has no such row.
pub proof fn lemma_filter_empty<V>(rows: Seq<V>, p: spec_fn(V) -> bool)
    ensures
        rows.filter(p).len() == 0 <==> (forall|i: int| 0 <= i < rows.len() ==> !p(#[trigger] rows[i])),
{
    lemma_filter_members(rows, p);
    if forall|i: int| 0 <= i < rows.len() ==> !p(#[trigger] rows[i]) {
        if rows.filter(p).len() > 0 {
            let v = rows.filter(p)[0];
            assert(rows.contains(v));
            let k = choose|k: int| 0 <= k < rows.len() && rows[k] == v;
            assert(!p(rows[k]));
        }
    } else {
        let k = choose|k: int| 0 <= k < rows.len() && p(#[trigger] rows[k]);
        assert(rows.filter(p).contains(rows[k]));
    }
}

/// Filtering keeps keys distinct.
pub proof fn lemma_filter_distinct<R: Keyed>(rows: Seq<R::V>, p: spec_fn(R::V) -> bool)
    requires
        keys_distinct::<R>(rows),
    ensures
        keys_distinct::<R>(rows.filter(p)),
    decreases rows.len(),
{
    reveal(Seq::filter);
    if rows.len() > 0 {
        let rest = rows.drop_last();
        let last = rows.last();
        assert forall|i: int, j: int| 0 <= i < j < rest.len() implies R::key(#[trigger] rest[i])
            != R::key(#[trigger] rest[j]) by {
            assert(rest[i] == rows[i] && rest[j] == rows[j]);
        }
        lemma_filter_distinct::<R>(rest, p);
        lemma_filter_members(rest, p);
        if p(last) {
            let kept = rest.filter(p);
            assert forall|i: int, j: int| 0 <= i < j < kept.push(last).len() implies R::key(
                #[trigger] kept.push(last)[i],
            ) != R::key(#[trigger] kept.push(last)[j]) by {
                if j == kept.len() {
                    assert(rest.contains(kept[i]));
                    let k = choose|k: int| 0 <= k < rest.len() && rest[k] == kept[i];
                    assert(rows[k] == kept[i]);
                    assert(rows[rows.len() - 1] == last);
                } else {
                    assert(kept.push(last)[i] == kept[i] && kept.push(last)[j] == kept[j]);
                }
            }
        }
    }
}

/// A table whose rows all meet the condition filters to itself.
pub proof fn lemma_filter_unchanged<V>(rows: Seq<V>, p: spec_fn(V) -> bool)
    requires
        forall|i: int| 0 <= i < rows.len() ==> p(#[trigger] rows[i]),
    ensures
        rows.filter(p) == rows,
    decreases rows.len(),
{
    reveal(Seq::filter);
    if rows.len() > 0 {
        let rest = rows.drop_last();
        assert forall|i: int| 0 <= i < rest.len() implies p(#[trigger] rest[i]) by {
            assert(rest[i] == rows[i]);
        }
        lemma_filter_unchanged(rest, p);
        assert(rest.push(rows.last()) =~= rows);
    }
}

/// What a query for at most one row gets: a row of the table that meets the
/// condition, or nothing where no row does.
pub proof fn lemma_first_where<V>(rows: Seq<V>, p: spec_fn(V) -> bool)
    ensures
        match first_where(rows, p) {
            Some(row) => p(row) && rows.contains(row),
            None => forall|i: int| 0 <= i < rows.len() ==> !p(#[trigger] rows[i]),
        },
{
    lemma_filter_members(rows, p);
    lemma_filter_empty(rows, p);
}

/// Where keys are distinct, a query by key gets the one row with that key.
pub proof fn lemma_first_where_key<R: Keyed>(rows: Seq<R::V>, p: spec_fn(R::V) -> bool, i: int)
    requires
        keys_distinct::<R>(rows),
        0 <= i < rows.len(),
        p(rows[i]),
        forall|j: int|
            0 <= j < rows.len() && p(#[trigger] rows[j]) ==> R::key(rows[j]) == R::key(rows[i]),
    ensures
        first_where(rows, p) == Some(rows[i]),
{
    lemma_first_where(rows, p);
    let found = first_where(rows, p)->0;
    let k = choose|k: int| 0 <= k < rows.len() && rows[k] == found;
    assert(p(rows[k]));
    if k < i {
        assert(R::key(rows[k]) != R::key(rows[i]));
    } else if i < k {
        assert(R::key(rows[i]) != R::key(rows[k]));
    }
}

/// The values of a table that got one more row.
pub proof fn lemma_views_push<R: Row>(rows: Seq<R>, row: R)
    ensures
        views(rows.push(row)) == views(rows).push(row@),
{
    assert(views(rows.push(row)) =~= views(rows).push(row@));
}

/// The values of a table that lost its last row.
pub proof fn lemma_views_drop_last<R: Row>(rows: Seq<R>)
    requires
        rows.len() > 0,
    ensures
        views(rows.drop_last()) == views(rows).drop_last(),
{
    assert(views(rows.drop_last()) =~= views(rows).drop_last());
}

/// Copies of all rows, in storage order.
pub fn scan<R: Row>(rows: &Vec<R>) -> (found: Vec<R>)
    ensures
        views(found@) == views(rows@),
{
    let mut found: Vec<R> = Vec::new();
    let mut i: usize = 0;
    while i < rows.len()
        invariant
            i <= rows.len(),
            found@.len() == i,
            forall|k: int| 0 <= k < i ==> (#[trigger] found@[k])@ == rows@[k]@,
        decreases rows.len() - i,
    {
        let copy = rows[i].duplicate();
        found.push(copy);
        i += 1;
    }
    assert(views(found@) =~= views(rows@));
    found
}

proof fn lemma_views_take_next<R: Row>(rows: Seq<R>, i: int)
    requires
        0 <= i < rows.len(),
    ensures
        views(rows.take(i + 1)) == views(rows.take(i)).push(rows[i]@),
{
    assert(rows.take(i + 1) =~= rows.take(i).push(rows[i]));
    lemma_views_push(rows.take(i), rows[i]);
}

/// `SELECT ... WHERE c`: copies of the rows that meet `c`, in storage order.
pub fn select<R: Row, C: Condition<R>>(rows: &Vec<R>, c: &C) -> (found: Vec<R>)
    ensures
        views(found@) == views(rows@).filter(c.pred()),
{
    let mut found: Vec<R> = Vec::new();
    let mut i: usize = 0;
    proof {
        assert(rows@.take(0) =~= Seq::<R>::empty());
        assert(views(Seq::<R>::empty()) =~= Seq::<R::V>::empty());
        assert(views(found@) =~= Seq::<R::V>::empty());
        reveal(Seq::filter);
    }
    while i < rows.len()
        invariant
            i <= rows.len(),
            views(found@) == views(rows@.take(i as int)).filter(c.pred()),
        decreases rows.len() - i,
    {
        proof {
            lemma_views_take_next(rows@, i as int);
            views(rows@.take(i as int)).lemma_filter_push(rows@[i as int]@, c.pred());
        }
        if c.test(&rows[i]) {
            let copy = rows[i].duplicate();
            proof {
                lemma_views_push(found@, copy);
            }
            found.push(copy);
        }
        i += 1;
    }
    proof {
        assert(rows@.take(rows.len() as int) =~= rows@);
    }
    found
}

/// `SELECT ... WHERE c`, asked for at most one row: a copy of the first row
/// that meets `c`, if any does.
pub fn select_first<R: Row, C: Condition<R>>(rows: &Vec<R>, c: &C) -> (found: Option<R>)
    ensures
        option_view(found) == first_where(views(rows@), c.pred()),
{
    let mut i: usize = 0;
    proof {
        assert(rows@.take(0) =~= Seq::<R>::empty());
        assert(views(Seq::<R>::empty()) =~= Seq::<R::V>::empty());
        reveal(Seq::filter);
    }
    while i < rows.len()
        invariant
            i <= rows.len(),
            views(rows@.take(i as int)).filter(c.pred()).len() == 0,
        decreases rows.len() - i,
    {
        proof {
            lemma_views_take_next(rows@, i as int);
            views(rows@.take(i as int)).lemma_filter_push(rows@[i as int]@, c.pred());
        }
        if c.test(&rows[i]) {
            proof {
                let head = rows@.take(i + 1);
                let tail = rows@.skip(i + 1);
                assert(rows@ =~= head + tail);
                assert(views(head + tail) =~= views(head) + views(tail));
                Seq::filter_distributes_over_add(views(head), views(tail), c.pred());
            }
            return Some(rows[i].duplicate());
        }
        i += 1;
    }
    proof {
        assert(rows@.take(rows.len() as int) =~= rows@);
    }
    None
}

/// `DELETE ... WHERE c`: drops the rows that meet `c`, keeps the others in
/// their order, and reports how many rows it dropped.
pub fn delete<R: Row, C: Condition<R>>(rows: &mut Vec<R>, c: &C) -> (affected: usize)
    ensures
        views(final(rows)@) == views(old(rows)@).filter(negate(c.pred())),
        affected == views(old(rows)@).filter(c.pred()).len(),
        affected == old(rows)@.len() - final(rows)@.len(),
{
    let mut kept: Vec<R> = Vec::new();
    let mut affected: usize = 0;
    let mut i: usize = 0;
    proof {
        assert(rows@.take(0) =~= Seq::<R>::empty());
        assert(views(Seq::<R>::empty()) =~= Seq::<R::V>::empty());
        assert(views(kept@) =~= Seq::<R::V>::empty());
        reveal(Seq::filter);
    }
    while i < rows.len()
        invariant
            i <= rows.len(),
            *rows == *old(rows),
            views(kept@) == views(rows@.take(i as int)).filter(negate(c.pred())),
            affected == views(rows@.take(i as int)).filter(c.pred()).len(),
            affected + kept@.len() == i,
        decreases rows.len() - i,
    {
        proof {
            lemma_views_take_next(rows@, i as int);
            views(rows@.take(i as int)).lemma_filter_push(rows@[i as int]@, c.pred());
            views(rows@.take(i as int)).lemma_filter_push(rows@[i as int]@, negate(c.pred()));
        }
        if c.test(&rows[i]) {
            affected += 1;
        } else {
            let copy = rows[i].duplicate();
            proof {
                lemma_views_push(kept@, copy);
            }
            kept.push(copy);
        }
        i += 1;
    }
    proof {
        assert(rows@.take(rows.len() as int) =~= rows@);
    }
    *rows = kept;
    affected
}

/// A row with a key: the column, or columns, by which the rows of its table
/// are told apart.
pub trait Keyed: Row {
    type Key;

    spec fn key(v: Self::V) -> Self::Key;

    fn same_key(&self, other: &Self) -> (same: bool)
        ensures
            same == (Self::key(self@) == Self::key(other@)),
    ;
}

/// No two rows of `rows` have the same key.
pub open spec fn keys_distinct<R: Keyed>(rows: Seq<R::V>) -> bool {
    forall|i: int, j: int|
        0 <= i < j < rows.len() ==> R::key(#[trigger] rows[i]) != R::key(#[trigger] rows[j])
}

/// Whether a primary key holds of a table: no two rows have the same key.
pub fn primary_key_holds<R: Keyed>(rows: &Vec<R>) -> (holds: bool)
    ensures
        holds == keys_distinct::<R>(views(rows@)),
{
    let ghost all = views(rows@);
    let mut j: usize = 0;
    while j < rows.len()
        invariant
            j <= rows.len(),
            all == views(rows@),
            forall|a: int, b: int| 0 <= a < b < j ==> R::key(#[trigger] all[a]) != R::key(#[trigger] all[b]),
        decreases rows.len() - j,
    {
        let mut i: usize = 0;
        while i < j
            invariant
                i <= j < rows.len(),
                all == views(rows@),
                forall|a: int| 0 <= a < i ==> R::key(#[trigger] all[a]) != R::key(all[j as int]),
            decreases j - i,
        {
            if rows[i].same_key(&rows[j]) {
                assert(R::key(all[i as int]) == R::key(all[j as int]));
                return false;
            }
            i += 1;
        }
        j += 1;
    }
    true
}

/// A row that refers to a row of another table.
pub trait Reference<P: Row>: Row {
    /// The rows of the other table that `v` refers to.
    spec fn target(v: Self::V) -> spec_fn(P::V) -> bool;

    fn refers_to(&self, parent: &P) -> (refers: bool)
        ensures
            refers == (Self::target(self@))(parent@),
    ;
}

/// Some row of `parents` is one that `child` refers to.
pub open spec fn referred<C: Reference<P>, P: Row>(child: C::V, parents: Seq<P::V>) -> bool {
    exists|j: int| 0 <= j < parents.len() && (C::target(child))(#[trigger] parents[j])
}

/// Every row of `children` refers to a row of `parents`.
pub open spec fn all_referred<C: Reference<P>, P: Row>(
    children: Seq<C::V>,
    parents: Seq<P::V>,
) -> bool {
    forall|i: int| 0 <= i < children.len() ==> referred::<C, P>(#[trigger] children[i], parents)
}

/// Whether a foreign key holds between two tables: every row of `children`
/// refers to a row of `parents`.
pub fn foreign_key_holds<C: Reference<P>, P: Row>(children: &Vec<C>, parents: &Vec<P>) -> (holds:
    bool)
    ensures
        holds == all_referred::<C, P>(views(children@), views(parents@)),
{
    let ghost some = views(children@);
    let ghost all = views(parents@);
    let mut i: usize = 0;
    while i < children.len()
        invariant
            i <= children.len(),
            some == views(children@),
            all == views(parents@),
            forall|a: int| 0 <= a < i ==> referred::<C, P>(#[trigger] some[a], all),
        decreases children.len() - i,
    {
        let mut found = false;
        let mut j: usize = 0;
        while j < parents.len() && !found
            invariant
                j <= parents.len(),
                i < children.len(),
                some == views(children@),
                all == views(parents@),
                found ==> referred::<C, P>(some[i as int], all),
                !found ==> forall|b: int|
                    0 <= b < j ==> !(C::target(some[i as int]))(#[trigger] all[b]),
            decreases parents.len() - j, if found { 0int } else { 1int },
        {
            if children[i].refers_to(&parents[j]) {
                assert((C::target(some[i as int]))(all[j as int]));
                found = true;
            } else {
                j += 1;
            }
        }
        if !found {
            assert(!referred::<C, P>(some[i as int], all));
            return false;
        }
        i += 1;
    }
    true
}

} // verus!
