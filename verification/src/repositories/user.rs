//! The table of user accounts.

use vstd::prelude::*;
use crate::entity::user::{by_name, Model, UserView};
use crate::rows::{by_id, ids_in_order, other_than, view_of, views, without};
use crate::error::StoreError;
use crate::repositories::DeleteResult;
use crate::seq_facts::lemma_filter_step;

verus! {

/// The table of user accounts.
pub struct UserRepository {
    rows: Vec<Model>,
    last_id: i32,
}

impl View for UserRepository {
    type V = Seq<UserView>;

    closed spec fn view(&self) -> Seq<UserView> {
        views(self.rows@)
    }
}

impl UserRepository {
    /// The identifier given to the row inserted last, or zero before the
    /// first insertion.
    pub closed spec fn last_id(&self) -> int {
        self.last_id as int
    }

    /// The table is well formed: identifiers were handed out in rising order
    /// and none beyond the last.
    pub open spec fn wf(&self) -> bool {
        &&& 0 <= self.last_id() <= i32::MAX
        &&& ids_in_order(self@, self.last_id())
    }

    /// An empty table.
    pub fn new() -> (table: UserRepository)
        ensures
            table@ == Seq::<UserView>::empty(),
            table.last_id() == 0,
            table.wf(),
    {
        let table = UserRepository { rows: Vec::new(), last_id: 0 };
        assert(table@ =~= Seq::<UserView>::empty());
        table
    }

    /// An empty table that has already handed out the identifiers up to
    /// `last_id`, so that the next row gets the one after it. There is none
    /// for a negative `last_id`.
    pub fn starting_after(last_id: i32) -> (table: Option<UserRepository>)
        ensures
            table is Some <==> last_id >= 0,
            table matches Some(t) ==> t@ == Seq::<UserView>::empty() && t.last_id() == last_id
                && t.wf(),
    {
        if last_id < 0 {
            return None;
        }
        let table = UserRepository { rows: Vec::new(), last_id };
        assert(table@ =~= Seq::<UserView>::empty());
        Some(table)
    }

    /// Every row, in insertion order.
    pub fn find_all(&self) -> (found: Vec<Model>)
        ensures
            views(found@) == self@,
    {
        let mut found: Vec<Model> = Vec::new();
        let mut i: usize = 0;
        while i < self.rows.len()
            invariant
                i <= self.rows.len(),
                found@.len() == i,
                forall|j: int| 0 <= j < i ==> (#[trigger] found@[j])@ == self@[j],
            decreases self.rows.len() - i,
        {
            found.push(self.rows[i].clone());
            i = i + 1;
        }
        assert(views(found@) =~= self@);
        found
    }

    /// The row with the given identifier, if there is one.
    pub fn find_by_id(&self, id: i32) -> (found: Option<Model>)
        ensures
            view_of(found) == by_id(self@, id),
    {
        let mut i: usize = 0;
        assert(self@.skip(0) =~= self@);
        while i < self.rows.len()
            invariant
                i <= self.rows.len(),
                by_id(self@, id) == by_id(self@.skip(i as int), id),
            decreases self.rows.len() - i,
        {
            assert(self@.skip(i as int).first() == self.rows[i as int]@);
            assert(self@.skip(i as int).drop_first() =~= self@.skip(i as int + 1));
            if self.rows[i].id == id {
                return Some(self.rows[i].clone());
            }
            i = i + 1;
        }
        None
    }

    /// The first row with exactly the given name, if there is one.
    pub fn find_by_name(&self, name: &str) -> (found: Option<Model>)
        ensures
            view_of(found) == by_name(self@, name@),
    {
        let wanted: String = name.to_owned();
        let mut i: usize = 0;
        assert(self@.skip(0) =~= self@);
        while i < self.rows.len()
            invariant
                i <= self.rows.len(),
                wanted@ == name@,
                by_name(self@, name@) == by_name(self@.skip(i as int), name@),
            decreases self.rows.len() - i,
        {
            assert(self@.skip(i as int).first() == self.rows[i as int]@);
            assert(self@.skip(i as int).drop_first() =~= self@.skip(i as int + 1));
            if self.rows[i].name == wanted {
                return Some(self.rows[i].clone());
            }
            i = i + 1;
        }
        None
    }

    /// Inserts a row with the given name under the next identifier and
    /// returns it. The table refuses only when it has no identifier left.
    pub fn create(&mut self, name: String) -> (made: Result<Model, StoreError>)
        requires
            old(self).wf(),
        ensures
            final(self).wf(),
            match made {
                Ok(m) => {
                    &&& old(self).last_id() < i32::MAX
                    &&& m@.id == old(self).last_id() + 1
                    &&& m@.name == name@
                    &&& final(self)@ == old(self)@.push(m@)
                    &&& final(self).last_id() == old(self).last_id() + 1
                },
                Err(e) => {
                    &&& old(self).last_id() == i32::MAX
                    &&& e == StoreError::OutOfIds
                    &&& final(self)@ == old(self)@
                    &&& final(self).last_id() == old(self).last_id()
                },
            },
    {
        if self.last_id == i32::MAX {
            return Err(StoreError::OutOfIds);
        }
        let id: i32 = self.last_id + 1;
        let row = Model { id, name };
        let made = row.clone();
        self.rows.push(row);
        self.last_id = id;
        assert(self@ =~= old(self)@.push(made@));
        Ok(made)
    }

    /// Removes the row `id`, if there is one, and says how many rows left.
    pub fn delete(&mut self, id: i32) -> (done: DeleteResult)
        requires
            old(self).wf(),
        ensures
            final(self).wf(),
            final(self).last_id() == old(self).last_id(),
            final(self)@ == without(old(self)@, id),
            done.rows_affected == old(self)@.len() - final(self)@.len(),
            done.rows_affected == if by_id(old(self)@, id) is Some {
                1int
            } else {
                0int
            },
    {
        let ghost before = self@;
        let ghost keep = other_than::<UserView>(id);
        let mut i: usize = 0;
        let mut removed: u64 = 0;
        assert(before.take(0).filter(keep) =~= Seq::<UserView>::empty()) by {
            reveal(Seq::filter);
        }
        assert(before.skip(0) =~= before);
        while i < self.rows.len()
            invariant
                self.last_id == old(self).last_id,
                before == old(self)@,
                old(self).wf(),
                keep == other_than::<UserView>(id),
                i + removed <= before.len(),
                removed <= 1,
                removed == 1 ==> forall|j: int|
                    i + removed <= j < before.len() ==> (#[trigger] before[j]).id != id,
                removed == 0 ==> by_id(before, id) == by_id(before.skip(i as int), id),
                removed == 1 ==> by_id(before, id) is Some,
                self@ =~= before.take(i + removed).filter(keep) + before.skip(i + removed),
                i == before.take(i + removed).filter(keep).len(),
                ids_in_order(self@, self.last_id()),
            decreases self.rows.len() - i,
        {
            let ghost k = i + removed;
            proof {
                lemma_filter_step(before, keep, k as int);
                assert(self@[i as int] == before.skip(k as int)[0]);
                assert(before.skip(k as int).first() == before[k as int]);
                assert(before.skip(k as int).drop_first() =~= before.skip(k as int + 1));
            }
            let ghost rows_then = self@;
            if self.rows[i].id == id {
                self.rows.remove(i);
                removed = removed + 1;
                assert(self@ =~= rows_then.remove(i as int));
                assert(self@ =~= before.take(k + 1).filter(keep) + before.skip(k + 1));
                assert forall|j: int| k + 1 <= j < before.len() implies (#[trigger] before[j]).id
                    != id by {
                    assert(before[k as int].id < before[j].id);
                }
            } else {
                i = i + 1;
                assert(self@ =~= before.take(k + 1).filter(keep) + before.skip(k + 1));
            }
        }
        proof {
            let k = i + removed;
            assert(before.skip(k as int) =~= Seq::<UserView>::empty());
            assert(before.take(k as int) =~= before);
            assert(self@ =~= before.filter(keep));
        }
        DeleteResult { rows_affected: removed }
    }

    /// How many rows the table holds.
    pub fn count(&self) -> (rows: u64)
        ensures
            rows == self@.len(),
    {
        self.rows.len() as u64
    }

    /// Whether a row has the identifier.
    pub fn id_exists(&self, id: i32) -> (found: bool)
        ensures
            found == (by_id(self@, id) is Some),
    {
        self.find_by_id(id).is_some()
    }
}

} // verus!
