//! Concept nodes.

use vstd::prelude::*;
use crate::rows::{by_id, Row};

verus! {

/// A concept node as it is stored.
#[derive(Debug, PartialEq, Eq)]
pub struct Model {
    pub id: i32,
    pub name: String,
}

/// What a stored node says: its identifier and its name.
pub struct OntoView {
    pub id: i32,
    pub name: Seq<char>,
}

impl View for Model {
    type V = OntoView;

    open spec fn view(&self) -> OntoView {
        OntoView { id: self.id, name: self.name@ }
    }
}

impl Row for OntoView {
    open spec fn row_id(&self) -> i32 {
        self.id
    }
}

impl Clone for Model {
    fn clone(&self) -> (copy: Model)
        ensures
            copy@ == self@,
    {
        Model { id: self.id, name: self.name.clone() }
    }
}

/// The first row with the given name, if there is one.
pub open spec fn by_name(rows: Seq<OntoView>, name: Seq<char>) -> Option<OntoView>
    decreases rows.len(),
{
    if rows.len() == 0 {
        None
    } else if rows.first().name == name {
        Some(rows.first())
    } else {
        by_name(rows.drop_first(), name)
    }
}

/// The rows with the name of the row `id` replaced.
pub open spec fn renamed(rows: Seq<OntoView>, id: i32, name: Seq<char>) -> Seq<OntoView> {
    rows.map_values(
        |r: OntoView|
            if r.id == id {
                OntoView { id: r.id, name }
            } else {
                r
            },
    )
}

/// `by_name` finds a row exactly when some row has the name, and the row it
/// finds has it and is one of the rows.
pub proof fn lemma_by_name(rows: Seq<OntoView>, name: Seq<char>)
    ensures
        by_name(rows, name) is Some <==> exists|i: int|
            0 <= i < rows.len() && (#[trigger] rows[i]).name == name,
        by_name(rows, name) matches Some(r) ==> r.name == name && rows.contains(r),
    decreases rows.len(),
{
    if rows.len() > 0 {
        let rest = rows.drop_first();
        lemma_by_name(rest, name);
        if rows.first().name == name {
            assert(rows[0].name == name);
        } else {
            if by_name(rest, name) is Some {
                let i = choose|i: int| 0 <= i < rest.len() && (#[trigger] rest[i]).name == name;
                assert(rows[i + 1].name == name);
                let r = by_name(rest, name)->0;
                let k = choose|k: int| 0 <= k < rest.len() && rest[k] == r;
                assert(rows[k + 1] == r);
            }
            if exists|i: int| 0 <= i < rows.len() && (#[trigger] rows[i]).name == name {
                let i = choose|i: int| 0 <= i < rows.len() && (#[trigger] rows[i]).name == name;
                assert(rest[i - 1].name == name);
            }
        }
    }
}

/// Looking an identifier up among the renamed rows finds the row that was
/// found before, under its new name if it is the renamed one.
pub proof fn lemma_by_id_renamed(rows: Seq<OntoView>, id: i32, name: Seq<char>, wanted: i32)
    ensures
        by_id(renamed(rows, id, name), wanted) == match by_id(rows, wanted) {
            Some(r) => Some(
                if r.id == id {
                    OntoView { id: r.id, name }
                } else {
                    r
                },
            ),
            None => None,
        },
    decreases rows.len(),
{
    let after = renamed(rows, id, name);
    if rows.len() > 0 {
        assert(after.first().id == rows.first().id);
        assert(after.drop_first() =~= renamed(rows.drop_first(), id, name));
        lemma_by_id_renamed(rows.drop_first(), id, name, wanted);
    }
}

/// Looking a name up after a row was added finds what was found before, or
/// else the new row if it has the name.
pub proof fn lemma_by_name_push(rows: Seq<OntoView>, made: OntoView, name: Seq<char>)
    ensures
        by_name(rows.push(made), name) == if by_name(rows, name) is Some {
            by_name(rows, name)
        } else if made.name == name {
            Some(made)
        } else {
            None
        },
    decreases rows.len(),
{
    let after = rows.push(made);
    if rows.len() == 0 {
        assert(after.first() == made);
        assert(after.drop_first() =~= Seq::<OntoView>::empty());
        assert(by_name(after.drop_first(), name) is None);
    } else {
        assert(after.first() == rows.first());
        assert(after.drop_first() =~= rows.drop_first().push(made));
        lemma_by_name_push(rows.drop_first(), made, name);
    }
}

} // verus!
