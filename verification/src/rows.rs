//! Helpers over table rows: every row carries a unique id, tables keep
//! their rows in ascending id order (which is insertion order), and
//! cascade deletion is expressed as keeping the rows that satisfy a
//! predicate.

use vstd::prelude::*;

verus! {

/// A row of one store table; every row carries its unique id.
pub trait Row: Sized {
    /// The row's id, for specifications.
    spec fn rid(&self) -> u64;

    /// The row's id.
    fn eid(&self) -> (r: u64)
        ensures
            r == self.rid(),
    ;

    /// An exact copy of the row.
    fn clone_row(&self) -> (r: Self)
        ensures
            r == *self,
    ;
}

/// A row that belongs to exactly one parent row and is cascade-deleted
/// with it.
pub trait ChildRow: Row {
    /// The owning row's id, for specifications.
    spec fn parent(&self) -> u64;

    /// The owning row's id.
    fn eparent(&self) -> (r: u64)
        ensures
            r == self.parent(),
    ;
}

/// Row ids strictly increase along the table, so they are unique and the
/// table order is insertion order.
pub open spec fn ids_ascending<T: Row>(s: Seq<T>) -> bool {
    forall|i: int, j: int|
        0 <= i < j < s.len() ==> #[trigger] s[i].rid() < #[trigger] s[j].rid()
}

/// Every row id lies below the bound.
pub open spec fn ids_below<T: Row>(s: Seq<T>, bound: u64) -> bool {
    forall|i: int| 0 <= i < s.len() ==> #[trigger] s[i].rid() < bound
}

/// Some row of the table has this id.
pub open spec fn has_id<T: Row>(s: Seq<T>, id: u64) -> bool {
    exists|i: int| 0 <= i < s.len() && #[trigger] s[i].rid() == id
}

/// The position of the row with this id (meaningful when `has_id` holds;
/// with ascending ids it is unique).
pub open spec fn idx_of<T: Row>(s: Seq<T>, id: u64) -> int {
    choose|i: int| 0 <= i < s.len() && #[trigger] s[i].rid() == id
}


/// Every child's parent id exists among the parents.
pub open spec fn fk_ok<T: ChildRow, P: Row>(children: Seq<T>, parents: Seq<P>) -> bool {
    forall|i: int|
        0 <= i < children.len() ==> has_id(parents, #[trigger] children[i].parent())
}

/// The rows that satisfy the predicate, in their original order.
pub open spec fn keep_rows<T>(s: Seq<T>, p: spec_fn(T) -> bool) -> Seq<T>
    decreases s.len(),
{
    if s.len() == 0 {
        Seq::empty()
    } else {
        let rest = keep_rows(s.drop_last(), p);
        if p(s.last()) {
            rest.push(s.last())
        } else {
            rest
        }
    }
}

/// The original position of the kept row at position `j` (meaningful when
/// `j` indexes `keep_rows(s, p)`).
pub open spec fn keep_src<T>(s: Seq<T>, p: spec_fn(T) -> bool, j: int) -> int
    decreases s.len(),
{
    if s.len() == 0 {
        0
    } else if p(s.last()) && j == keep_rows(s.drop_last(), p).len() {
        s.len() - 1
    } else {
        keep_src(s.drop_last(), p, j)
    }
}

/// The kept position of the original row at position `i` (meaningful when
/// `p(s[i])` holds).
pub open spec fn keep_dst<T>(s: Seq<T>, p: spec_fn(T) -> bool, i: int) -> int
    decreases s.len(),
{
    if s.len() == 0 {
        0
    } else if i == s.len() - 1 {
        keep_rows(s.drop_last(), p).len() as int
    } else {
        keep_dst(s.drop_last(), p, i)
    }
}

/// Keeping every row but the one with the given id.
pub open spec fn not_id_pred<T: Row>(id: u64) -> spec_fn(T) -> bool {
    |t: T| t.rid() != id
}

/// Keeping every row but the children of the given parent.
pub open spec fn not_child_pred<T: ChildRow>(parent: u64) -> spec_fn(T) -> bool {
    |t: T| t.parent() != parent
}

/// Keeping exactly the rows whose parent is among the given parents.
pub open spec fn parent_live_pred<T: ChildRow, P: Row>(parents: Seq<P>) -> spec_fn(T) -> bool {
    |t: T| has_id(parents, t.parent())
}

/// The table without the row of the given id.
pub open spec fn remove_by_id<T: Row>(s: Seq<T>, id: u64) -> Seq<T> {
    keep_rows(s, not_id_pred(id))
}

/// The table without the children of the given parent.
pub open spec fn remove_children<T: ChildRow>(s: Seq<T>, parent: u64) -> Seq<T> {
    keep_rows(s, not_child_pred(parent))
}

/// The children whose parent survives among the given parents.
pub open spec fn keep_with_parent_in<T: ChildRow, P: Row>(s: Seq<T>, parents: Seq<P>) -> Seq<T> {
    keep_rows(s, parent_live_pred(parents))
}

/// Unrolling lemma: filtering a sequence extended by one element keeps the
/// filtered prefix and appends the element exactly when it satisfies the
/// predicate.
pub broadcast proof fn lemma_keep_rows_push<T>(s: Seq<T>, p: spec_fn(T) -> bool, x: T)
    ensures
        #[trigger] keep_rows(s.push(x), p) == if p(x) {
            keep_rows(s, p).push(x)
        } else {
            keep_rows(s, p)
        },
{
    assert(s.push(x).drop_last() =~= s);
    assert(s.push(x).last() == x);
}

/// Pointwise: the kept row at position `j` comes from its original
/// position, which holds the same row and satisfies the predicate.
pub proof fn lemma_keep_src_at<T>(s: Seq<T>, p: spec_fn(T) -> bool, j: int)
    requires
        0 <= j < keep_rows(s, p).len(),
    ensures
        0 <= keep_src(s, p, j) < s.len(),
        s[keep_src(s, p, j)] == keep_rows(s, p)[j],
        p(s[keep_src(s, p, j)]),
    decreases s.len(),
{
    assert(s.len() > 0);
    let d = s.drop_last();
    if p(s.last()) && j == keep_rows(d, p).len() {
        assert(keep_src(s, p, j) == s.len() - 1);
        assert(keep_rows(s, p)[j] == s.last());
    } else {
        assert(j < keep_rows(d, p).len());
        lemma_keep_src_at(d, p, j);
        assert(keep_src(s, p, j) == keep_src(d, p, j));
        assert(s[keep_src(d, p, j)] == d[keep_src(d, p, j)]);
        assert(keep_rows(s, p)[j] == keep_rows(d, p)[j]);
    }
}

/// Pointwise: kept rows keep their original order.
pub proof fn lemma_keep_src_mono<T>(s: Seq<T>, p: spec_fn(T) -> bool, j1: int, j2: int)
    requires
        0 <= j1 < j2 < keep_rows(s, p).len(),
    ensures
        keep_src(s, p, j1) < keep_src(s, p, j2),
    decreases s.len(),
{
    assert(s.len() > 0);
    let d = s.drop_last();
    if p(s.last()) && j2 == keep_rows(d, p).len() {
        assert(keep_src(s, p, j2) == s.len() - 1);
        lemma_keep_src_at(d, p, j1);
        assert(keep_src(s, p, j1) == keep_src(d, p, j1));
        assert(0 <= keep_src(d, p, j1) < d.len());
    } else {
        assert(j2 < keep_rows(d, p).len());
        lemma_keep_src_mono(d, p, j1, j2);
        assert(keep_src(s, p, j1) == keep_src(d, p, j1));
        assert(keep_src(s, p, j2) == keep_src(d, p, j2));
    }
}

/// Pointwise: an original row that satisfies the predicate is kept, at
/// the position the witness function names.
pub proof fn lemma_keep_dst_at<T>(s: Seq<T>, p: spec_fn(T) -> bool, i: int)
    requires
        0 <= i < s.len(),
        p(s[i]),
    ensures
        0 <= keep_dst(s, p, i) < keep_rows(s, p).len(),
        keep_rows(s, p)[keep_dst(s, p, i)] == s[i],
    decreases s.len(),
{
    let d = s.drop_last();
    if i == s.len() - 1 {
        assert(s[i] == s.last());
        assert(keep_dst(s, p, i) == keep_rows(d, p).len());
        assert(keep_rows(s, p)[keep_rows(d, p).len() as int] == s.last());
    } else {
        assert(s[i] == d[i]);
        lemma_keep_dst_at(d, p, i);
        assert(keep_dst(s, p, i) == keep_dst(d, p, i));
        assert(keep_rows(s, p)[keep_dst(d, p, i)] == keep_rows(d, p)[keep_dst(d, p, i)]);
    }
}

/// The filtered table is never longer than the original.
pub proof fn lemma_keep_rows_len<T>(s: Seq<T>, p: spec_fn(T) -> bool)
    ensures
        keep_rows(s, p).len() <= s.len(),
    decreases s.len(),
{
    if s.len() > 0 {
        lemma_keep_rows_len(s.drop_last(), p);
    }
}

/// What deleting one row leaves: well-formedness and membership facts
/// about the table without the row of the given id.
pub proof fn lemma_remove_by_id_wf<T: Row>(s: Seq<T>, id: u64, bound: u64)
    requires
        ids_ascending(s),
        ids_below(s, bound),
    ensures
        ids_ascending(remove_by_id(s, id)),
        ids_below(remove_by_id(s, id), bound),
        !has_id(remove_by_id(s, id), id),
        forall|x: u64| has_id(s, x) && x != id ==> #[trigger] has_id(remove_by_id(s, id), x),
        forall|x: u64| #[trigger] has_id(remove_by_id(s, id), x) ==> has_id(s, x),
        forall|j: int|
            #![trigger remove_by_id(s, id)[j]]
            0 <= j < remove_by_id(s, id).len() ==> exists|i: int|
                0 <= i < s.len() && #[trigger] s[i] == remove_by_id(s, id)[j],
        remove_by_id(s, id).len() <= s.len(),
{
    let p = not_id_pred::<T>(id);
    let f = remove_by_id(s, id);
    lemma_keep_rows_len(s, p);
    assert forall|j: int| #![trigger f[j]] 0 <= j < f.len() implies exists|i: int|
        0 <= i < s.len() && #[trigger] s[i] == f[j] by {
        lemma_keep_src_at(s, p, j);
        assert(s[keep_src(s, p, j)] == f[j]);
    }
    assert forall|j1: int, j2: int|
        0 <= j1 < j2 < f.len() implies #[trigger] f[j1].rid() < #[trigger] f[j2].rid() by {
        lemma_keep_src_at(s, p, j1);
        lemma_keep_src_at(s, p, j2);
        lemma_keep_src_mono(s, p, j1, j2);
        assert(s[keep_src(s, p, j1)].rid() < s[keep_src(s, p, j2)].rid());
    }
    assert forall|j: int| 0 <= j < f.len() implies #[trigger] f[j].rid() < bound by {
        lemma_keep_src_at(s, p, j);
        assert(s[keep_src(s, p, j)].rid() < bound);
    }
    assert forall|j: int| 0 <= j < f.len() implies #[trigger] f[j].rid() != id by {
        lemma_keep_src_at(s, p, j);
        assert(p(s[keep_src(s, p, j)]));
    }
    assert forall|x: u64| has_id(s, x) && x != id implies #[trigger] has_id(f, x) by {
        let i = choose|i: int| 0 <= i < s.len() && #[trigger] s[i].rid() == x;
        assert(p(s[i]));
        lemma_keep_dst_at(s, p, i);
        assert(f[keep_dst(s, p, i)].rid() == x);
    }
    assert forall|x: u64| #[trigger] has_id(f, x) implies has_id(s, x) by {
        let j = choose|j: int| 0 <= j < f.len() && #[trigger] f[j].rid() == x;
        lemma_keep_src_at(s, p, j);
        assert(s[keep_src(s, p, j)].rid() == x);
    }
}

/// What cascade-deleting the children of one parent leaves:
/// well-formedness and membership facts about the table without them.
pub proof fn lemma_remove_children_wf<T: ChildRow>(s: Seq<T>, parent: u64, bound: u64)
    requires
        ids_ascending(s),
        ids_below(s, bound),
    ensures
        ids_ascending(remove_children(s, parent)),
        ids_below(remove_children(s, parent), bound),
        forall|j: int|
            #![trigger remove_children(s, parent)[j]]
            0 <= j < remove_children(s, parent).len() ==> exists|i: int|
                0 <= i < s.len() && #[trigger] s[i] == remove_children(s, parent)[j],
        forall|j: int|
            0 <= j < remove_children(s, parent).len() ==> #[trigger] remove_children(
                s,
                parent,
            )[j].parent() != parent,
        forall|i: int|
            #![trigger s[i].parent()]
            0 <= i < s.len() && s[i].parent() != parent ==> remove_children(s, parent).contains(
                s[i],
            ),
        remove_children(s, parent).len() <= s.len(),
{
    let p = not_child_pred::<T>(parent);
    let f = remove_children(s, parent);
    lemma_keep_rows_len(s, p);
    assert forall|j: int| #![trigger f[j]] 0 <= j < f.len() implies exists|i: int|
        0 <= i < s.len() && #[trigger] s[i] == f[j] by {
        lemma_keep_src_at(s, p, j);
        assert(s[keep_src(s, p, j)] == f[j]);
    }
    assert forall|j1: int, j2: int|
        0 <= j1 < j2 < f.len() implies #[trigger] f[j1].rid() < #[trigger] f[j2].rid() by {
        lemma_keep_src_at(s, p, j1);
        lemma_keep_src_at(s, p, j2);
        lemma_keep_src_mono(s, p, j1, j2);
        assert(s[keep_src(s, p, j1)].rid() < s[keep_src(s, p, j2)].rid());
    }
    assert forall|j: int| 0 <= j < f.len() implies #[trigger] f[j].rid() < bound by {
        lemma_keep_src_at(s, p, j);
        assert(s[keep_src(s, p, j)].rid() < bound);
    }
    assert forall|j: int| 0 <= j < f.len() implies #[trigger] f[j].parent() != parent by {
        lemma_keep_src_at(s, p, j);
        assert(p(s[keep_src(s, p, j)]));
    }
    assert forall|i: int| 0 <= i < s.len() && #[trigger] s[i].parent() != parent implies f.contains(
        s[i],
    ) by {
        assert(p(s[i]));
        lemma_keep_dst_at(s, p, i);
        assert(f[keep_dst(s, p, i)] == s[i]);
    }
}

/// What keeping the children of surviving parents leaves: every kept row
/// is an original row whose parent survives, in the original order, and
/// every original row with a surviving parent is kept.
pub proof fn lemma_keep_with_parent_wf<T: ChildRow, P: Row>(s: Seq<T>, parents: Seq<P>, bound: u64)
    requires
        ids_ascending(s),
        ids_below(s, bound),
    ensures
        ids_ascending(keep_with_parent_in(s, parents)),
        ids_below(keep_with_parent_in(s, parents), bound),
        forall|j: int|
            #![trigger keep_with_parent_in(s, parents)[j]]
            0 <= j < keep_with_parent_in(s, parents).len() ==> exists|i: int|
                0 <= i < s.len() && #[trigger] s[i] == keep_with_parent_in(s, parents)[j],
        fk_ok(keep_with_parent_in(s, parents), parents),
        forall|i: int|
            #![trigger s[i].parent()]
            0 <= i < s.len() && has_id(parents, s[i].parent()) ==> keep_with_parent_in(
                s,
                parents,
            ).contains(s[i]),
        keep_with_parent_in(s, parents).len() <= s.len(),
{
    let p = parent_live_pred::<T, P>(parents);
    let f = keep_with_parent_in(s, parents);
    lemma_keep_rows_len(s, p);
    assert forall|j: int| #![trigger f[j]] 0 <= j < f.len() implies exists|i: int|
        0 <= i < s.len() && #[trigger] s[i] == f[j] by {
        lemma_keep_src_at(s, p, j);
        assert(s[keep_src(s, p, j)] == f[j]);
    }
    assert forall|j1: int, j2: int|
        0 <= j1 < j2 < f.len() implies #[trigger] f[j1].rid() < #[trigger] f[j2].rid() by {
        lemma_keep_src_at(s, p, j1);
        lemma_keep_src_at(s, p, j2);
        lemma_keep_src_mono(s, p, j1, j2);
        assert(s[keep_src(s, p, j1)].rid() < s[keep_src(s, p, j2)].rid());
    }
    assert forall|j: int| 0 <= j < f.len() implies #[trigger] f[j].rid() < bound by {
        lemma_keep_src_at(s, p, j);
        assert(s[keep_src(s, p, j)].rid() < bound);
    }
    assert forall|j: int| 0 <= j < f.len() implies has_id(parents, #[trigger] f[j].parent()) by {
        lemma_keep_src_at(s, p, j);
        assert(p(s[keep_src(s, p, j)]));
    }
    assert forall|i: int|
        0 <= i < s.len() && has_id(parents, #[trigger] s[i].parent()) implies f.contains(s[i]) by {
        assert(p(s[i]));
        lemma_keep_dst_at(s, p, i);
        assert(f[keep_dst(s, p, i)] == s[i]);
    }
}


/// A row other than the removed one is kept.
pub proof fn lemma_remove_by_id_keeps<T: Row>(s: Seq<T>, id: u64, i: int)
    requires
        0 <= i < s.len(),
        s[i].rid() != id,
    ensures
        remove_by_id(s, id).contains(s[i]),
{
    lemma_keep_dst_at(s, not_id_pred(id), i);
    assert(remove_by_id(s, id)[keep_dst(s, not_id_pred(id), i)] == s[i]);
}

/// Pointwise facts about the table without the children of one parent.
pub proof fn lemma_remove_children_at<T: ChildRow>(s: Seq<T>, parent: u64, j: int)
    requires
        0 <= j < remove_children(s, parent).len(),
    ensures
        0 <= keep_src(s, not_child_pred(parent), j) < s.len(),
        s[keep_src(s, not_child_pred(parent), j)] == remove_children(s, parent)[j],
        remove_children(s, parent)[j].parent() != parent,
{
    lemma_keep_src_at(s, not_child_pred(parent), j);
}

/// Kept children keep their original order.
pub proof fn lemma_remove_children_mono<T: ChildRow>(s: Seq<T>, parent: u64, j1: int, j2: int)
    requires
        0 <= j1 < j2 < remove_children(s, parent).len(),
    ensures
        keep_src(s, not_child_pred(parent), j1) < keep_src(s, not_child_pred(parent), j2),
{
    lemma_keep_src_mono(s, not_child_pred(parent), j1, j2);
}

/// A row of another parent is kept.
pub proof fn lemma_remove_children_keeps<T: ChildRow>(s: Seq<T>, parent: u64, i: int)
    requires
        0 <= i < s.len(),
        s[i].parent() != parent,
    ensures
        remove_children(s, parent).contains(s[i]),
{
    lemma_keep_dst_at(s, not_child_pred(parent), i);
    assert(remove_children(s, parent)[keep_dst(s, not_child_pred(parent), i)] == s[i]);
}

/// Pointwise facts about keeping the children of surviving parents.
pub proof fn lemma_keep_with_parent_at<T: ChildRow, P: Row>(
    s: Seq<T>,
    parents: Seq<P>,
    j: int,
)
    requires
        0 <= j < keep_with_parent_in(s, parents).len(),
    ensures
        0 <= keep_src(s, parent_live_pred(parents), j) < s.len(),
        s[keep_src(s, parent_live_pred(parents), j)] == keep_with_parent_in(s, parents)[j],
        has_id(parents, keep_with_parent_in(s, parents)[j].parent()),
{
    lemma_keep_src_at(s, parent_live_pred(parents), j);
}

/// Kept children keep their original order.
pub proof fn lemma_keep_with_parent_mono<T: ChildRow, P: Row>(
    s: Seq<T>,
    parents: Seq<P>,
    j1: int,
    j2: int,
)
    requires
        0 <= j1 < j2 < keep_with_parent_in(s, parents).len(),
    ensures
        keep_src(s, parent_live_pred(parents), j1) < keep_src(s, parent_live_pred(parents), j2),
{
    lemma_keep_src_mono(s, parent_live_pred(parents), j1, j2);
}


/// Finds the position of the row with the given id.
pub fn find_row<T: Row>(v: &Vec<T>, id: u64) -> (r: Option<usize>)
    ensures
        match r {
            Some(i) => i < v.len() && v@[i as int].rid() == id,
            None => !has_id(v@, id),
        },
{
    let mut i: usize = 0;
    while i < v.len()
        invariant
            i <= v.len(),
            forall|k: int| 0 <= k < i ==> #[trigger] v@[k].rid() != id,
        decreases v.len() - i,
    {
        if v[i].eid() == id {
            return Some(i);
        }
        i = i + 1;
    }
    None
}

/// Drops the row with the given id, keeping everything else in order.
pub fn retain_except_id<T: Row>(v: &Vec<T>, id: u64) -> (r: Vec<T>)
    ensures
        r@ == remove_by_id(v@, id),
{
    let mut r: Vec<T> = Vec::new();
    let mut i: usize = 0;
    while i < v.len()
        invariant
            i <= v.len(),
            r@ == remove_by_id(v@.take(i as int), id),
        decreases v.len() - i,
    {
        proof {
            assert(v@.take(i as int + 1) =~= v@.take(i as int).push(v@[i as int]));
            lemma_keep_rows_push(v@.take(i as int), not_id_pred::<T>(id), v@[i as int]);
        }
        if v[i].eid() != id {
            r.push(v[i].clone_row());
        }
        i = i + 1;
    }
    proof {
        assert(v@.take(v@.len() as int) =~= v@);
    }
    r
}

/// Drops every child of the given parent, keeping everything else in
/// order.
pub fn retain_not_children_of<T: ChildRow>(v: &Vec<T>, parent: u64) -> (r: Vec<T>)
    ensures
        r@ == remove_children(v@, parent),
{
    let mut r: Vec<T> = Vec::new();
    let mut i: usize = 0;
    while i < v.len()
        invariant
            i <= v.len(),
            r@ == remove_children(v@.take(i as int), parent),
        decreases v.len() - i,
    {
        proof {
            assert(v@.take(i as int + 1) =~= v@.take(i as int).push(v@[i as int]));
            lemma_keep_rows_push(v@.take(i as int), not_child_pred::<T>(parent), v@[i as int]);
        }
        if v[i].eparent() != parent {
            r.push(v[i].clone_row());
        }
        i = i + 1;
    }
    proof {
        assert(v@.take(v@.len() as int) =~= v@);
    }
    r
}

/// Keeps exactly the children whose parent is among the given parents.
pub fn retain_with_live_parent<T: ChildRow, P: Row>(v: &Vec<T>, parents: &Vec<P>) -> (r: Vec<T>)
    ensures
        r@ == keep_with_parent_in(v@, parents@),
{
    let mut r: Vec<T> = Vec::new();
    let mut i: usize = 0;
    while i < v.len()
        invariant
            i <= v.len(),
            r@ == keep_with_parent_in(v@.take(i as int), parents@),
        decreases v.len() - i,
    {
        proof {
            assert(v@.take(i as int + 1) =~= v@.take(i as int).push(v@[i as int]));
            lemma_keep_rows_push(
                v@.take(i as int),
                parent_live_pred::<T, P>(parents@),
                v@[i as int],
            );
        }
        if find_row(parents, v[i].eparent()).is_some() {
            r.push(v[i].clone_row());
        }
        i = i + 1;
    }
    proof {
        assert(v@.take(v@.len() as int) =~= v@);
    }
    r
}

/// Keeping exactly the children of the given parent.
pub open spec fn child_pred<T: ChildRow>(parent: u64) -> spec_fn(T) -> bool {
    |t: T| t.parent() == parent
}

/// The children of the given parent, in insertion order.
pub open spec fn rows_of_parent<T: ChildRow>(s: Seq<T>, parent: u64) -> Seq<T> {
    keep_rows(s, child_pred(parent))
}

/// Appending a freshly minted row keeps the table well formed: ids stay
/// ascending below the raised bound, and membership changes by exactly
/// the new id.
pub proof fn lemma_push_table_wf<T: Row>(s: Seq<T>, x: T, bound: u64)
    requires
        ids_ascending(s),
        ids_below(s, bound),
        x.rid() == bound,
        bound < u64::MAX,
    ensures
        ids_ascending(s.push(x)),
        ids_below(s.push(x), (bound + 1) as u64),
        forall|id: u64| #[trigger] has_id(s, id) ==> has_id(s.push(x), id),
        has_id(s.push(x), bound),
        forall|id: u64| #[trigger] has_id(s.push(x), id) ==> has_id(s, id) || id == bound,
{
    assert forall|i: int, j: int|
        0 <= i < j < s.push(x).len() implies #[trigger] s.push(x)[i].rid()
        < #[trigger] s.push(x)[j].rid() by {
        if j == s.len() {
            assert(s.push(x)[i] == s[i]);
            assert(s[i].rid() < bound);
        } else {
            assert(s.push(x)[i] == s[i] && s.push(x)[j] == s[j]);
        }
    }
    assert forall|i: int| 0 <= i < s.push(x).len() implies #[trigger] s.push(x)[i].rid() < (bound
        + 1) as u64 by {
        if i < s.len() {
            assert(s.push(x)[i] == s[i]);
        }
    }
    assert forall|id: u64| #[trigger] has_id(s, id) implies has_id(s.push(x), id) by {
        let i = choose|i: int| 0 <= i < s.len() && #[trigger] s[i].rid() == id;
        assert(s.push(x)[i].rid() == id);
    }
    assert(s.push(x)[s.len() as int].rid() == bound);
    assert forall|id: u64| #[trigger] has_id(s.push(x), id) implies has_id(s, id) || id
        == bound by {
        let i = choose|i: int| 0 <= i < s.push(x).len() && #[trigger] s.push(x)[i].rid() == id;
        if i < s.len() {
            assert(s[i].rid() == id);
        }
    }
}

/// With ascending ids, the position of an id is the one position that
/// holds it.
pub proof fn lemma_idx_of_unique<T: Row>(s: Seq<T>, i: int, id: u64)
    requires
        ids_ascending(s),
        0 <= i < s.len(),
        s[i].rid() == id,
    ensures
        has_id(s, id),
        idx_of(s, id) == i,
{
    assert(has_id(s, id));
    let j = idx_of(s, id);
    assert(0 <= j < s.len() && s[j].rid() == id);
    if j < i {
        assert(s[j].rid() < s[i].rid());
    }
    if i < j {
        assert(s[i].rid() < s[j].rid());
    }
}

/// An exact copy of a table.
pub fn clone_table<T: Row>(v: &Vec<T>) -> (r: Vec<T>)
    ensures
        r@ == v@,
{
    let mut r: Vec<T> = Vec::new();
    let mut i: usize = 0;
    while i < v.len()
        invariant
            i <= v.len(),
            r@ == v@.take(i as int),
        decreases v.len() - i,
    {
        proof {
            assert(v@.take(i as int + 1) =~= v@.take(i as int).push(v@[i as int]));
        }
        r.push(v[i].clone_row());
        i = i + 1;
    }
    proof {
        assert(v@.take(v@.len() as int) =~= v@);
    }
    r
}

/// The children of one parent, as copies, in insertion order.
pub fn collect_children<T: ChildRow>(v: &Vec<T>, parent: u64) -> (r: Vec<T>)
    ensures
        r@ == rows_of_parent(v@, parent),
{
    let mut r: Vec<T> = Vec::new();
    let mut i: usize = 0;
    while i < v.len()
        invariant
            i <= v.len(),
            r@ == rows_of_parent(v@.take(i as int), parent),
        decreases v.len() - i,
    {
        proof {
            assert(v@.take(i as int + 1) =~= v@.take(i as int).push(v@[i as int]));
            lemma_keep_rows_push(v@.take(i as int), child_pred::<T>(parent), v@[i as int]);
        }
        if v[i].eparent() == parent {
            r.push(v[i].clone_row());
        }
        i = i + 1;
    }
    proof {
        assert(v@.take(v@.len() as int) =~= v@);
    }
    r
}



/// Replacing a row by one with the same id keeps the table well formed
/// and leaves membership unchanged.
pub proof fn lemma_update_same_id<T: Row>(s: Seq<T>, i: int, x: T)
    requires
        0 <= i < s.len(),
        x.rid() == s[i].rid(),
        ids_ascending(s),
    ensures
        ids_ascending(s.update(i, x)),
        forall|id: u64| #[trigger] has_id(s.update(i, x), id) <==> has_id(s, id),
        forall|b: u64| ids_below(s, b) ==> #[trigger] ids_below(s.update(i, x), b),
{
    let t = s.update(i, x);
    assert forall|a: int, b: int|
        0 <= a < b < t.len() implies #[trigger] t[a].rid() < #[trigger] t[b].rid() by {
        assert(t[a].rid() == s[a].rid());
        assert(t[b].rid() == s[b].rid());
    }
    assert forall|id: u64| #[trigger] has_id(t, id) <==> has_id(s, id) by {
        if has_id(t, id) {
            let k = choose|k: int| 0 <= k < t.len() && #[trigger] t[k].rid() == id;
            assert(s[k].rid() == id);
        }
        if has_id(s, id) {
            let k = choose|k: int| 0 <= k < s.len() && #[trigger] s[k].rid() == id;
            assert(t[k].rid() == id);
        }
    }
    assert forall|b: u64| ids_below(s, b) implies #[trigger] ids_below(t, b) by {
        assert forall|k: int| 0 <= k < t.len() implies #[trigger] t[k].rid() < b by {
            assert(t[k].rid() == s[k].rid());
            assert(s[k].rid() < b);
        }
    }
}

/// The children of one parent keep their ascending ids.
pub proof fn lemma_rows_of_parent_ascending<T: ChildRow>(s: Seq<T>, parent: u64)
    requires
        ids_ascending(s),
    ensures
        ids_ascending(rows_of_parent(s, parent)),
{
    let p = child_pred::<T>(parent);
    let f = rows_of_parent(s, parent);
    assert forall|j1: int, j2: int|
        0 <= j1 < j2 < f.len() implies #[trigger] f[j1].rid() < #[trigger] f[j2].rid() by {
        lemma_keep_src_at(s, p, j1);
        lemma_keep_src_at(s, p, j2);
        lemma_keep_src_mono(s, p, j1, j2);
        assert(s[keep_src(s, p, j1)].rid() < s[keep_src(s, p, j2)].rid());
    }
}

/// A child row with a caller-assigned position among its siblings.
pub trait RankedRow: ChildRow {
    /// The position key, for specifications.
    spec fn rank(&self) -> u64;

    /// The position key.
    fn erank(&self) -> (r: u64)
        ensures
            r == self.rank(),
    ;
}

/// The display order: by position key, with insertion order (the id)
/// deciding between equal keys.
pub open spec fn ranked_before<T: RankedRow>(a: T, b: T) -> bool {
    a.rank() < b.rank() || (a.rank() == b.rank() && a.rid() < b.rid())
}

/// The rows stand in display order.
pub open spec fn ranked<T: RankedRow>(s: Seq<T>) -> bool {
    forall|i: int, j: int| 0 <= i < j < s.len() ==> ranked_before(#[trigger] s[i], #[trigger] s[j])
}

/// No two rows share an id.
pub open spec fn distinct_ids<T: Row>(s: Seq<T>) -> bool {
    forall|i: int, j: int|
        0 <= i < j < s.len() ==> #[trigger] s[i].rid() != #[trigger] s[j].rid()
}

/// Whether one row stands before another in display order.
fn row_before<T: RankedRow>(a: &T, b: &T) -> (r: bool)
    ensures
        r == ranked_before(*a, *b),
{
    let ar = a.erank();
    let br = b.erank();
    ar < br || (ar == br && a.eid() < b.eid())
}

/// Inserts a row at its display position.
fn sorted_insert<T: RankedRow>(v: &mut Vec<T>, x: T)
    requires
        ranked(old(v)@),
        forall|k: int| 0 <= k < old(v)@.len() ==> #[trigger] old(v)@[k].rid() != x.rid(),
    ensures
        final(v)@.len() == old(v)@.len() + 1,
        ranked(final(v)@),
        forall|y: T| #[trigger] final(v)@.contains(y) <==> old(v)@.contains(y) || y == x,
{
    let mut pos: usize = 0;
    while pos < v.len() && row_before(&v[pos], &x)
        invariant
            pos <= v.len(),
            *v == *old(v),
            forall|k: int| 0 <= k < pos ==> ranked_before(#[trigger] v@[k], x),
        decreases v.len() - pos,
    {
        pos = pos + 1;
    }
    proof {
        if pos < v@.len() {
            assert(!ranked_before(v@[pos as int], x));
            assert(v@[pos as int].rid() != x.rid());
            assert(ranked_before(x, v@[pos as int]));
        }
    }
    v.insert(pos, x);
    proof {
        let s = old(v)@;
        let t = v@;
        assert(t == s.insert(pos as int, x));
        assert forall|i: int, j: int|
            0 <= i < j < t.len() implies ranked_before(#[trigger] t[i], #[trigger] t[j]) by {
            if i < pos && j < pos {
                assert(t[i] == s[i] && t[j] == s[j]);
            } else if i < pos && j == pos {
                assert(t[i] == s[i] && t[j] == x);
            } else if i < pos && j > pos {
                assert(t[i] == s[i] && t[j] == s[j - 1]);
            } else if i == pos && j > pos {
                assert(t[i] == x && t[j] == s[j - 1]);
                assert(ranked_before(x, s[pos as int]));
                if j - 1 > pos {
                    assert(ranked_before(s[pos as int], s[j - 1]));
                }
            } else {
                assert(t[i] == s[i - 1] && t[j] == s[j - 1]);
            }
        }
        assert forall|y: T| #[trigger] t.contains(y) <==> s.contains(y) || y == x by {
            if t.contains(y) {
                let k = choose|k: int| 0 <= k < t.len() && t[k] == y;
                if k < pos {
                    assert(s[k] == y);
                } else if k > pos {
                    assert(s[k - 1] == y);
                }
            }
            if s.contains(y) {
                let k = choose|k: int| 0 <= k < s.len() && s[k] == y;
                if k < pos {
                    assert(t[k] == y);
                } else {
                    assert(t[k + 1] == y);
                }
            }
            assert(t[pos as int] == x);
        }
    }
}

/// The rows of one table, rearranged into display order: by position
/// key, insertion order between equal keys.
pub fn sort_ranked<T: RankedRow>(v: &Vec<T>) -> (r: Vec<T>)
    requires
        ids_ascending(v@),
    ensures
        r@.len() == v@.len(),
        ranked(r@),
        forall|y: T| #[trigger] r@.contains(y) <==> v@.contains(y),
{
    let mut r: Vec<T> = Vec::new();
    let mut i: usize = 0;
    while i < v.len()
        invariant
            i <= v.len(),
            ids_ascending(v@),
            r@.len() == i,
            ranked(r@),
            forall|y: T| #[trigger] r@.contains(y) <==> v@.take(i as int).contains(y),
        decreases v.len() - i,
    {
        proof {
            assert forall|k: int| 0 <= k < r@.len() implies #[trigger] r@[k].rid() != v@[
                i as int].rid() by {
                assert(r@.contains(r@[k]));
                let m = choose|m: int|
                    0 <= m < v@.take(i as int).len() && #[trigger] v@.take(i as int)[m] == r@[k];
                assert(v@[m] == r@[k]);
                assert(v@[m].rid() < v@[i as int].rid());
            }
        }
        let x = v[i].clone_row();
        sorted_insert(&mut r, x);
        proof {
            assert forall|y: T| #[trigger] r@.contains(y) implies v@.take(i as int + 1).contains(
                y,
            ) by {
                if y == v@[i as int] {
                    assert(v@.take(i as int + 1)[i as int] == y);
                } else {
                    let m = choose|m: int|
                        0 <= m < v@.take(i as int).len() && #[trigger] v@.take(i as int)[m] == y;
                    assert(v@.take(i as int + 1)[m] == y);
                }
            }
            assert forall|y: T| v@.take(i as int + 1).contains(y) implies #[trigger] r@.contains(
                y,
            ) by {
                let m = choose|m: int|
                    0 <= m < v@.take(i as int + 1).len() && #[trigger] v@.take(i as int + 1)[m]
                        == y;
                if m < i {
                    assert(v@.take(i as int)[m] == y);
                } else {
                    assert(y == v@[i as int]);
                }
            }
        }
        i = i + 1;
    }
    proof {
        assert(v@.take(v@.len() as int) =~= v@);
    }
    r
}

} // verus!
