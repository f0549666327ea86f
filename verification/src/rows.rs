//! What the tables share: rows with identifiers, looked up and removed by
//! them.

use vstd::prelude::*;
use crate::seq_facts::lemma_filter_members;

verus! {

/// What a stored row says, as far as the tables care: it has an identifier.
pub trait Row {
    /// The identifier of the row.
    spec fn row_id(&self) -> i32;
}

/// What a list of stored rows says, row by row.
pub open spec fn views<M: View>(rows: Seq<M>) -> Seq<M::V> {
    rows.map_values(|m: M| m@)
}

/// What an optional stored row says.
pub open spec fn view_of<M: View>(row: Option<M>) -> Option<M::V> {
    match row {
        Some(m) => Some(m@),
        None => None,
    }
}

/// The first row with the given identifier, if there is one.
pub open spec fn by_id<V: Row>(rows: Seq<V>, id: i32) -> Option<V>
    decreases rows.len(),
{
    if rows.len() == 0 {
        None
    } else if rows.first().row_id() == id {
        Some(rows.first())
    } else {
        by_id(rows.drop_first(), id)
    }
}

/// The test that a row passes when it has the identifier.
pub open spec fn has_id<V: Row>(id: i32) -> spec_fn(V) -> bool {
    |r: V| r.row_id() == id
}

/// The test that a row passes when it does not have the identifier.
pub open spec fn other_than<V: Row>(id: i32) -> spec_fn(V) -> bool {
    |r: V| r.row_id() != id
}

/// The rows without the row `id`.
pub open spec fn without<V: Row>(rows: Seq<V>, id: i32) -> Seq<V> {
    rows.filter(other_than(id))
}

/// Identifiers are positive, none exceeds `last_id`, and each row's is
/// greater than that of the row before it, so that no two rows share one.
pub open spec fn ids_in_order<V: Row>(rows: Seq<V>, last_id: int) -> bool {
    &&& forall|i: int| 0 <= i < rows.len() ==> 0 < (#[trigger] rows[i]).row_id() <= last_id
    &&& forall|i: int, j: int|
        0 <= i < j < rows.len() ==> (#[trigger] rows[i]).row_id() < (#[trigger] rows[j]).row_id()
}

/// `by_id` finds a row exactly when some row has the identifier, and the row
/// it finds has it and is one of the rows.
pub proof fn lemma_by_id<V: Row>(rows: Seq<V>, id: i32)
    ensures
        by_id(rows, id) is Some <==> exists|i: int|
            0 <= i < rows.len() && (#[trigger] rows[i]).row_id() == id,
        by_id(rows, id) matches Some(r) ==> r.row_id() == id && rows.contains(r),
    decreases rows.len(),
{
    if rows.len() > 0 {
        let rest = rows.drop_first();
        lemma_by_id(rest, id);
        if rows.first().row_id() == id {
            assert(rows[0].row_id() == id);
        } else {
            if by_id(rest, id) is Some {
                let i = choose|i: int| 0 <= i < rest.len() && (#[trigger] rest[i]).row_id() == id;
                assert(rows[i + 1].row_id() == id);
                let r = by_id(rest, id)->0;
                let k = choose|k: int| 0 <= k < rest.len() && rest[k] == r;
                assert(rows[k + 1] == r);
            }
            if exists|i: int| 0 <= i < rows.len() && (#[trigger] rows[i]).row_id() == id {
                let i = choose|i: int| 0 <= i < rows.len() && (#[trigger] rows[i]).row_id() == id;
                assert(rest[i - 1].row_id() == id);
            }
        }
    }
}

/// With identifiers in order, a row of the table is the one that `by_id`
/// finds under its identifier.
pub proof fn lemma_member_by_id<V: Row>(rows: Seq<V>, last_id: int, r: V)
    requires
        ids_in_order(rows, last_id),
        rows.contains(r),
    ensures
        by_id(rows, r.row_id()) == Some(r),
{
    lemma_by_id(rows, r.row_id());
    let i = choose|i: int| 0 <= i < rows.len() && rows[i] == r;
    assert(rows[i].row_id() == r.row_id());
    let x = by_id(rows, r.row_id())->0;
    let j = choose|j: int| 0 <= j < rows.len() && rows[j] == x;
    if i < j {
        assert(rows[i].row_id() < rows[j].row_id());
    } else if j < i {
        assert(rows[j].row_id() < rows[i].row_id());
    }
}

/// Looking an identifier up after a row was added finds what was found
/// before, or else the new row if it has the identifier.
pub proof fn lemma_by_id_push<V: Row>(rows: Seq<V>, made: V, id: i32)
    ensures
        by_id(rows.push(made), id) == if by_id(rows, id) is Some {
            by_id(rows, id)
        } else if made.row_id() == id {
            Some(made)
        } else {
            None
        },
    decreases rows.len(),
{
    let after = rows.push(made);
    if rows.len() == 0 {
        assert(after.first() == made);
        assert(after.drop_first() =~= Seq::<V>::empty());
        assert(by_id(after.drop_first(), id) is None);
    } else {
        assert(after.first() == rows.first());
        assert(after.drop_first() =~= rows.drop_first().push(made));
        lemma_by_id_push(rows.drop_first(), made, id);
    }
}

/// Rows that pass a filter keep their identifiers in order.
pub proof fn lemma_filter_keeps_order<V: Row>(rows: Seq<V>, last_id: int, keep: spec_fn(V) -> bool)
    requires
        ids_in_order(rows, last_id),
    ensures
        ids_in_order(rows.filter(keep), last_id),
    decreases rows.len(),
{
    reveal(Seq::filter);
    if rows.len() > 0 {
        let front = rows.drop_last();
        assert(ids_in_order(front, last_id)) by {
            assert forall|i: int| 0 <= i < front.len() implies 0 < (#[trigger] front[i]).row_id()
                <= last_id by {
                assert(front[i] == rows[i]);
            }
            assert forall|i: int, j: int| 0 <= i < j < front.len() implies (
            #[trigger] front[i]).row_id() < (#[trigger] front[j]).row_id() by {
                assert(front[i] == rows[i] && front[j] == rows[j]);
            }
        }
        lemma_filter_keeps_order(front, last_id, keep);
        if keep(rows.last()) {
            let kept = front.filter(keep);
            lemma_filter_members(front, keep);
            assert forall|i: int| 0 <= i < kept.len() implies (#[trigger] kept[i]).row_id()
                < rows.last().row_id() by {
                assert(kept.contains(kept[i]));
                assert(front.contains(kept[i]));
                let k = choose|k: int| 0 <= k < front.len() && front[k] == kept[i];
                assert(rows[k].row_id() < rows[rows.len() - 1].row_id());
            }
            assert(rows.last() == rows[rows.len() - 1]);
        }
    }
}

/// With identifiers in order, a row other than the removed one is found
/// afterwards as it was before, and the removed one is not found.
pub proof fn lemma_by_id_without<V: Row>(rows: Seq<V>, last_id: int, gone: i32, wanted: i32)
    requires
        ids_in_order(rows, last_id),
    ensures
        by_id(without(rows, gone), wanted) == if wanted == gone {
            None
        } else {
            by_id(rows, wanted)
        },
{
    let keep = other_than::<V>(gone);
    let after = without(rows, gone);
    lemma_filter_members(rows, keep);
    lemma_filter_keeps_order(rows, last_id, keep);
    lemma_by_id(rows, wanted);
    lemma_by_id(after, wanted);
    if by_id(after, wanted) is Some {
        let r = by_id(after, wanted)->0;
        assert(after.contains(r));
        assert(rows.contains(r));
        lemma_member_by_id(rows, last_id, r);
    }
    if wanted != gone && by_id(rows, wanted) is Some {
        let r = by_id(rows, wanted)->0;
        assert(after.contains(r));
        lemma_member_by_id(after, last_id, r);
    }
}

/// With identifiers in order, exactly one row has an identifier that `by_id`
/// finds, and none has one that it does not find.
pub proof fn lemma_one_row_has_id<V: Row>(rows: Seq<V>, last_id: int, id: i32)
    requires
        ids_in_order(rows, last_id),
    ensures
        rows.filter(has_id(id)).len() == if by_id(rows, id) is Some {
            1int
        } else {
            0int
        },
    decreases rows.len(),
{
    reveal(Seq::filter);
    if rows.len() > 0 {
        let front = rows.drop_last();
        assert(ids_in_order(front, last_id)) by {
            assert forall|i: int| 0 <= i < front.len() implies 0 < (#[trigger] front[i]).row_id()
                <= last_id by {
                assert(front[i] == rows[i]);
            }
            assert forall|i: int, j: int| 0 <= i < j < front.len() implies (
            #[trigger] front[i]).row_id() < (#[trigger] front[j]).row_id() by {
                assert(front[i] == rows[i] && front[j] == rows[j]);
            }
        }
        lemma_one_row_has_id(front, last_id, id);
        lemma_by_id(front, id);
        lemma_by_id(rows, id);
        if rows.last().row_id() == id {
            assert(rows[rows.len() - 1].row_id() == id);
            if by_id(front, id) is Some {
                let i = choose|i: int| 0 <= i < front.len() && (#[trigger] front[i]).row_id() == id;
                assert(rows[i].row_id() < rows[rows.len() - 1].row_id());
            }
        } else {
            if by_id(rows, id) is Some {
                let i = choose|i: int| 0 <= i < rows.len() && (#[trigger] rows[i]).row_id() == id;
                assert(front[i].row_id() == id);
            }
            if by_id(front, id) is Some {
                let i = choose|i: int| 0 <= i < front.len() && (#[trigger] front[i]).row_id() == id;
                assert(rows[i].row_id() == id);
            }
        }
    }
}

} // verus!
