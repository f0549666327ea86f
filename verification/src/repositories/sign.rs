//! The table of relations.

use vstd::prelude::*;
use crate::clock::Timestamp;
use crate::entity::signifier_signified::{at, away_from, clear_of, joined, touching, Model, Relation, SignView};
use crate::rows::{by_id, ids_in_order, other_than, view_of, views, without};
use crate::error::StoreError;
use crate::repositories::DeleteResult;
use crate::seq_facts::lemma_filter_step;
use crate::text::optional_text;
use crate::weight::Weight;

verus! {

/// The table of relations. It checks neither that the two ends exist nor that
/// the pair is new: that is the service's work.
pub struct SignRepository {
    rows: Vec<Model>,
    last_id: i32,
}

impl View for SignRepository {
    type V = Seq<SignView>;

    closed spec fn view(&self) -> Seq<SignView> {
        views(self.rows@)
    }
}

impl SignRepository {
    /// The identifier given to the row inserted last, or zero before the
    /// first insertion.
    pub closed spec fn last_id(&self) -> int {
        self.last_id as int
    }

    /// The table is well formed: identifiers were handed out in rising order
    /// and none beyond the last.
    pub open spec fn wf(&self) -> bool {
        &&& 0 <= self.last_id() <= i32::MAX
        &&& ids_in_order(self@, self.last_id())
    }

    /// An empty table.
    pub fn new() -> (table: SignRepository)
        ensures
            table@ == Seq::<SignView>::empty(),
            table.last_id() == 0,
            table.wf(),
    {
        let table = SignRepository { rows: Vec::new(), last_id: 0 };
        assert(table@ =~= Seq::<SignView>::empty());
        table
    }

    /// An empty table that has already handed out the identifiers up to
    /// `last_id`, so that the next row gets the one after it. There is none
    /// for a negative `last_id`.
    pub fn starting_after(last_id: i32) -> (table: Option<SignRepository>)
        ensures
            table is Some <==> last_id >= 0,
            table matches Some(t) ==> t@ == Seq::<SignView>::empty() && t.last_id() == last_id
                && t.wf(),
    {
        if last_id < 0 {
            return None;
        }
        let table = SignRepository { rows: Vec::new(), last_id };
        assert(table@ =~= Seq::<SignView>::empty());
        Some(table)
    }

    /// Every row, in insertion order.
    pub fn find_all(&self) -> (found: Vec<Model>)
        ensures
            views(found@) == self@,
    {
        let mut found: Vec<Model> = Vec::new();
        let mut i: usize = 0;
        while i < self.rows.len()
            invariant
                i <= self.rows.len(),
                found@.len() == i,
                forall|j: int| 0 <= j < i ==> (#[trigger] found@[j])@ == self@[j],
            decreases self.rows.len() - i,
        {
            found.push(self.rows[i].clone());
            i = i + 1;
        }
        assert(views(found@) =~= self@);
        found
    }

    /// The row with the given identifier, if there is one.
    pub fn find_by_id(&self, id: i32) -> (found: Option<Model>)
        ensures
            view_of(found) == by_id(self@, id),
    {
        let mut i: usize = 0;
        assert(self@.skip(0) =~= self@);
        while i < self.rows.len()
            invariant
                i <= self.rows.len(),
                by_id(self@, id) == by_id(self@.skip(i as int), id),
            decreases self.rows.len() - i,
        {
            assert(self@.skip(i as int).first() == self.rows[i as int]@);
            assert(self@.skip(i as int).drop_first() =~= self@.skip(i as int + 1));
            if self.rows[i].id == id {
                return Some(self.rows[i].clone());
            }
            i = i + 1;
        }
        None
    }

    /// Inserts a relation under the next identifier, stamped with the given
    /// moment, and returns it. The table refuses only when it has no
    /// identifier left.
    pub fn create_at(
        &mut self,
        signifier_id: i32,
        signified_id: i32,
        weight: Option<Weight>,
        relation_type: Option<String>,
        created_at: Timestamp,
    ) -> (made: Result<Model, StoreError>)
        requires
            old(self).wf(),
        ensures
            final(self).wf(),
            match made {
                Ok(m) => {
                    &&& old(self).last_id() < i32::MAX
                    &&& m@.id == old(self).last_id() + 1
                    &&& m@ == (SignView {
                        id: m@.id,
                        signifier_id,
                        signified_id,
                        weight,
                        relation_type: optional_text(relation_type),
                        created_at,
                    })
                    &&& final(self)@ == old(self)@.push(m@)
                    &&& final(self).last_id() == old(self).last_id() + 1
                },
                Err(e) => {
                    &&& old(self).last_id() == i32::MAX
                    &&& e == StoreError::OutOfIds
                    &&& final(self)@ == old(self)@
                    &&& final(self).last_id() == old(self).last_id()
                },
            },
    {
        if self.last_id == i32::MAX {
            return Err(StoreError::OutOfIds);
        }
        let id: i32 = self.last_id + 1;
        let row = Model { id, signifier_id, signified_id, weight, relation_type, created_at };
        let made = row.clone();
        self.rows.push(row);
        self.last_id = id;
        assert(self@ =~= old(self)@.push(made@));
        Ok(made)
    }

    /// Inserts a relation under the next identifier, stamped with the present
    /// moment, and returns it. The table refuses only when it has no
    /// identifier left.
    pub fn create(
        &mut self,
        signifier_id: i32,
        signified_id: i32,
        weight: Option<Weight>,
        relation_type: Option<String>,
    ) -> (made: Result<Model, StoreError>)
        requires
            old(self).wf(),
        ensures
            final(self).wf(),
            match made {
                Ok(m) => {
                    &&& old(self).last_id() < i32::MAX
                    &&& m@.id == old(self).last_id() + 1
                    &&& m@ == (SignView {
                        id: m@.id,
                        signifier_id,
                        signified_id,
                        weight,
                        relation_type: optional_text(relation_type),
                        created_at: m@.created_at,
                    })
                    &&& final(self)@ == old(self)@.push(m@)
                    &&& final(self).last_id() == old(self).last_id() + 1
                },
                Err(e) => {
                    &&& old(self).last_id() == i32::MAX
                    &&& e == StoreError::OutOfIds
                    &&& final(self)@ == old(self)@
                    &&& final(self).last_id() == old(self).last_id()
                },
            },
    {
        let now = Timestamp::now();
        self.create_at(signifier_id, signified_id, weight, relation_type, now)
    }

    /// Removes the row `id`, if there is one, and says how many rows left.
    pub fn delete(&mut self, id: i32) -> (done: DeleteResult)
        requires
            old(self).wf(),
        ensures
            final(self).wf(),
            final(self).last_id() == old(self).last_id(),
            final(self)@ == without(old(self)@, id),
            done.rows_affected == old(self)@.len() - final(self)@.len(),
            done.rows_affected == if by_id(old(self)@, id) is Some {
                1int
            } else {
                0int
            },
    {
        let ghost before = self@;
        let ghost keep = other_than::<SignView>(id);
        let mut i: usize = 0;
        let mut removed: u64 = 0;
        assert(before.take(0).filter(keep) =~= Seq::<SignView>::empty()) by {
            reveal(Seq::filter);
        }
        assert(before.skip(0) =~= before);
        while i < self.rows.len()
            invariant
                self.last_id == old(self).last_id,
                before == old(self)@,
                old(self).wf(),
                keep == other_than::<SignView>(id),
                i + removed <= before.len(),
                removed <= 1,
                removed == 1 ==> forall|j: int|
                    i + removed <= j < before.len() ==> (#[trigger] before[j]).id != id,
                removed == 0 ==> by_id(before, id) == by_id(before.skip(i as int), id),
                removed == 1 ==> by_id(before, id) is Some,
                self@ =~= before.take(i + removed).filter(keep) + before.skip(i + removed),
                i == before.take(i + removed).filter(keep).len(),
                ids_in_order(self@, self.last_id()),
            decreases self.rows.len() - i,
        {
            let ghost k = i + removed;
            proof {
                lemma_filter_step(before, keep, k as int);
                assert(self@[i as int] == before.skip(k as int)[0]);
                assert(before.skip(k as int).first() == before[k as int]);
                assert(before.skip(k as int).drop_first() =~= before.skip(k as int + 1));
            }
            let ghost rows_then = self@;
            if self.rows[i].id == id {
                self.rows.remove(i);
                removed = removed + 1;
                assert(self@ =~= rows_then.remove(i as int));
                assert(self@ =~= before.take(k + 1).filter(keep) + before.skip(k + 1));
                assert forall|j: int| k + 1 <= j < before.len() implies (#[trigger] before[j]).id
                    != id by {
                    assert(before[k as int].id < before[j].id);
                }
            } else {
                i = i + 1;
                assert(self@ =~= before.take(k + 1).filter(keep) + before.skip(k + 1));
            }
        }
        proof {
            let k = i + removed;
            assert(before.skip(k as int) =~= Seq::<SignView>::empty());
            assert(before.take(k as int) =~= before);
            assert(self@ =~= before.filter(keep));
        }
        DeleteResult { rows_affected: removed }
    }

    /// The rows that have the node at the given end, in insertion order.
    pub fn find_by(&self, end: Relation, node: i32) -> (found: Vec<Model>)
        ensures
            views(found@) == touching(self@, end, node),
    {
        let ghost pick = at(end, node);
        let mut found: Vec<Model> = Vec::new();
        let mut i: usize = 0;
        assert(self@.take(0).filter(pick) =~= Seq::<SignView>::empty()) by {
            reveal(Seq::filter);
        }
        while i < self.rows.len()
            invariant
                i <= self.rows.len(),
                pick == at(end, node),
                views(found@) =~= self@.take(i as int).filter(pick),
            decreases self.rows.len() - i,
        {
            proof {
                lemma_filter_step(self@, pick, i as int);
            }
            let ghost found_then = views(found@);
            if end.end_of(&self.rows[i]) == node {
                found.push(self.rows[i].clone());
                assert(views(found@) =~= found_then.push(self@[i as int]));
            }
            i = i + 1;
        }
        assert(self@.take(i as int) =~= self@);
        found
    }

    /// The relations that start from the node, in insertion order.
    pub fn find_by_signifier_id(&self, signifier_id: i32) -> (found: Vec<Model>)
        ensures
            views(found@) == touching(self@, Relation::Signifier, signifier_id),
    {
        self.find_by(Relation::Signifier, signifier_id)
    }

    /// The relations that point to the node, in insertion order.
    pub fn find_by_signified_id(&self, signified_id: i32) -> (found: Vec<Model>)
        ensures
            views(found@) == touching(self@, Relation::Signified, signified_id),
    {
        self.find_by(Relation::Signified, signified_id)
    }

    /// Whether a relation joins the ordered pair.
    pub fn pair_exists(&self, signifier_id: i32, signified_id: i32) -> (found: bool)
        ensures
            found == joined(self@, signifier_id, signified_id),
    {
        let mut i: usize = 0;
        while i < self.rows.len()
            invariant
                i <= self.rows.len(),
                forall|j: int|
                    0 <= j < i ==> !((#[trigger] self@[j]).signifier_id == signifier_id
                        && self@[j].signified_id == signified_id),
            decreases self.rows.len() - i,
        {
            if self.rows[i].signifier_id == signifier_id && self.rows[i].signified_id
                == signified_id {
                assert(self@[i as int].signifier_id == signifier_id);
                return true;
            }
            i = i + 1;
        }
        false
    }

    /// How many rows the table holds.
    pub fn count(&self) -> (rows: u64)
        ensures
            rows == self@.len(),
    {
        self.rows.len() as u64
    }

    /// Removes every row that has the node at the given end, and says how
    /// many rows left.
    pub fn delete_by(&mut self, end: Relation, node: i32) -> (done: DeleteResult)
        requires
            old(self).wf(),
        ensures
            final(self).wf(),
            final(self).last_id() == old(self).last_id(),
            final(self)@ == clear_of(old(self)@, end, node),
            done.rows_affected == touching(old(self)@, end, node).len(),
            done.rows_affected == old(self)@.len() - final(self)@.len(),
    {
        let ghost before = self@;
        let ghost keep = away_from(end, node);
        let ghost drop = at(end, node);
        assert(before.len() == self.rows.len());
        let mut i: usize = 0;
        let mut removed: u64 = 0;
        proof {
            reveal(Seq::filter);
            assert(before.take(0).filter(keep) =~= Seq::<SignView>::empty());
            assert(before.take(0).filter(drop) =~= Seq::<SignView>::empty());
            assert(before.skip(0) =~= before);
        }
        while i < self.rows.len()
            invariant
                self.last_id == old(self).last_id,
                before == old(self)@,
                keep == away_from(end, node),
                drop == at(end, node),
                i + removed <= before.len() <= usize::MAX,
                self@ =~= before.take(i + removed).filter(keep) + before.skip(i + removed),
                i == before.take(i + removed).filter(keep).len(),
                removed == before.take(i + removed).filter(drop).len(),
                ids_in_order(self@, self.last_id()),
            decreases self.rows.len() - i,
        {
            let ghost k = i + removed;
            proof {
                lemma_filter_step(before, keep, k as int);
                lemma_filter_step(before, drop, k as int);
                assert(self@[i as int] == before.skip(k as int)[0]);
            }
            let ghost rows_then = self@;
            if end.end_of(&self.rows[i]) == node {
                self.rows.remove(i);
                removed = removed + 1;
                assert(self@ =~= rows_then.remove(i as int));
                assert(self@ =~= before.take(k + 1).filter(keep) + before.skip(k + 1));
            } else {
                i = i + 1;
                assert(self@ =~= before.take(k + 1).filter(keep) + before.skip(k + 1));
            }
        }
        proof {
            let k = i + removed;
            assert(before.skip(k as int) =~= Seq::<SignView>::empty());
            assert(before.take(k as int) =~= before);
            assert(self@ =~= before.filter(keep));
        }
        DeleteResult { rows_affected: removed }
    }

    /// Removes every relation that starts from the node.
    pub fn delete_by_signifier(&mut self, node: i32) -> (done: DeleteResult)
        requires
            old(self).wf(),
        ensures
            final(self).wf(),
            final(self).last_id() == old(self).last_id(),
            final(self)@ == clear_of(old(self)@, Relation::Signifier, node),
            done.rows_affected == touching(old(self)@, Relation::Signifier, node).len(),
    {
        self.delete_by(Relation::Signifier, node)
    }

    /// Removes every relation that points to the node.
    pub fn delete_by_signified(&mut self, node: i32) -> (done: DeleteResult)
        requires
            old(self).wf(),
        ensures
            final(self).wf(),
            final(self).last_id() == old(self).last_id(),
            final(self)@ == clear_of(old(self)@, Relation::Signified, node),
            done.rows_affected == touching(old(self)@, Relation::Signified, node).len(),
    {
        self.delete_by(Relation::Signified, node)
    }
}

} // verus!
