//! The table of note cards.

use vstd::prelude::*;
use crate::clock::Timestamp;
use crate::entity::card::{revised, revision, CardView, Model};
use crate::rows::{by_id, ids_in_order, other_than, view_of, views, without};
use crate::error::StoreError;
use crate::repositories::DeleteResult;
use crate::seq_facts::lemma_filter_step;
use crate::text::optional_text;

verus! {

/// The table of note cards. It checks nothing about titles and contents:
/// that is the service's work.
pub struct CardRepository {
    rows: Vec<Model>,
    last_id: i32,
}

impl View for CardRepository {
    type V = Seq<CardView>;

    closed spec fn view(&self) -> Seq<CardView> {
        views(self.rows@)
    }
}

impl CardRepository {
    /// The identifier given to the row inserted last, or zero before the
    /// first insertion.
    pub closed spec fn last_id(&self) -> int {
        self.last_id as int
    }

    /// The table is well formed: identifiers were handed out in rising order
    /// and none beyond the last.
    pub open spec fn wf(&self) -> bool {
        &&& 0 <= self.last_id() <= i32::MAX
        &&& ids_in_order(self@, self.last_id())
    }

    /// An empty table.
    pub fn new() -> (table: CardRepository)
        ensures
            table@ == Seq::<CardView>::empty(),
            table.last_id() == 0,
            table.wf(),
    {
        let table = CardRepository { rows: Vec::new(), last_id: 0 };
        assert(table@ =~= Seq::<CardView>::empty());
        table
    }

    /// An empty table that has already handed out the identifiers up to
    /// `last_id`, so that the next row gets the one after it. There is none
    /// for a negative `last_id`.
    pub fn starting_after(last_id: i32) -> (table: Option<CardRepository>)
        ensures
            table is Some <==> last_id >= 0,
            table matches Some(t) ==> t@ == Seq::<CardView>::empty() && t.last_id() == last_id
                && t.wf(),
    {
        if last_id < 0 {
            return None;
        }
        let table = CardRepository { rows: Vec::new(), last_id };
        assert(table@ =~= Seq::<CardView>::empty());
        Some(table)
    }

    /// Every row, in insertion order.
    pub fn find_all(&self) -> (found: Vec<Model>)
        ensures
            views(found@) == self@,
    {
        let mut found: Vec<Model> = Vec::new();
        let mut i: usize = 0;
        while i < self.rows.len()
            invariant
                i <= self.rows.len(),
                found@.len() == i,
                forall|j: int| 0 <= j < i ==> (#[trigger] found@[j])@ == self@[j],
            decreases self.rows.len() - i,
        {
            found.push(self.rows[i].clone());
            i = i + 1;
        }
        assert(views(found@) =~= self@);
        found
    }

    /// The row with the given identifier, if there is one.
    pub fn find_by_id(&self, id: i32) -> (found: Option<Model>)
        ensures
            view_of(found) == by_id(self@, id),
    {
        let mut i: usize = 0;
        assert(self@.skip(0) =~= self@);
        while i < self.rows.len()
            invariant
                i <= self.rows.len(),
                by_id(self@, id) == by_id(self@.skip(i as int), id),
            decreases self.rows.len() - i,
        {
            assert(self@.skip(i as int).first() == self.rows[i as int]@);
            assert(self@.skip(i as int).drop_first() =~= self@.skip(i as int + 1));
            if self.rows[i].id == id {
                return Some(self.rows[i].clone());
            }
            i = i + 1;
        }
        None
    }

    /// Inserts a card under the next identifier, created and last written at
    /// the given moment, and returns it. The table refuses only when it has
    /// no identifier left.
    pub fn create_at(&mut self, title: String, content: String, at: Timestamp) -> (made: Result<
        Model,
        StoreError,
    >)
        requires
            old(self).wf(),
        ensures
            final(self).wf(),
            match made {
                Ok(m) => {
                    &&& old(self).last_id() < i32::MAX
                    &&& m@.id == old(self).last_id() + 1
                    &&& m@ == (CardView {
                        id: m@.id,
                        title: title@,
                        content: content@,
                        created_at: at,
                        updated_at: at,
                    })
                    &&& final(self)@ == old(self)@.push(m@)
                    &&& final(self).last_id() == old(self).last_id() + 1
                },
                Err(e) => {
                    &&& old(self).last_id() == i32::MAX
                    &&& e == StoreError::OutOfIds
                    &&& final(self)@ == old(self)@
                    &&& final(self).last_id() == old(self).last_id()
                },
            },
    {
        if self.last_id == i32::MAX {
            return Err(StoreError::OutOfIds);
        }
        let id: i32 = self.last_id + 1;
        let row = Model { id, title, content, created_at: at, updated_at: at };
        let made = row.clone();
        self.rows.push(row);
        self.last_id = id;
        assert(self@ =~= old(self)@.push(made@));
        Ok(made)
    }

    /// Inserts a card under the next identifier, created and last written at
    /// the present moment, and returns it. The table refuses only when it
    /// has no identifier left.
    pub fn create(&mut self, title: String, content: String) -> (made: Result<Model, StoreError>)
        requires
            old(self).wf(),
        ensures
            final(self).wf(),
            match made {
                Ok(m) => {
                    &&& old(self).last_id() < i32::MAX
                    &&& m@.id == old(self).last_id() + 1
                    &&& m@ == (CardView {
                        id: m@.id,
                        title: title@,
                        content: content@,
                        created_at: m@.created_at,
                        updated_at: m@.created_at,
                    })
                    &&& final(self)@ == old(self)@.push(m@)
                    &&& final(self).last_id() == old(self).last_id() + 1
                },
                Err(e) => {
                    &&& old(self).last_id() == i32::MAX
                    &&& e == StoreError::OutOfIds
                    &&& final(self)@ == old(self)@
                    &&& final(self).last_id() == old(self).last_id()
                },
            },
    {
        let now = Timestamp::now();
        self.create_at(title, content, now)
    }

    /// Gives the card `id` the new title and the new content, where they are
    /// given, and returns the card as it then stands. Without such a card
    /// nothing changes and the table says that the record was not found.
    pub fn update(&mut self, id: i32, title: Option<String>, content: Option<String>) -> (updated:
        Result<Model, StoreError>)
        requires
            old(self).wf(),
        ensures
            final(self).wf(),
            final(self).last_id() == old(self).last_id(),
            match by_id(old(self)@, id) {
                Some(row) => {
                    &&& updated matches Ok(m)
                    &&& m@ == revision(row, optional_text(title), optional_text(content))
                    &&& final(self)@ == revised(
                        old(self)@,
                        id,
                        optional_text(title),
                        optional_text(content),
                    )
                },
                None => {
                    &&& updated == Err::<Model, StoreError>(StoreError::RecordNotFound { id })
                    &&& final(self)@ == old(self)@
                },
            },
    {
        let mut i: usize = 0;
        assert(self@.skip(0) =~= self@);
        while i < self.rows.len()
            invariant
                i <= self.rows.len(),
                *self == *old(self),
                self.wf(),
                by_id(self@, id) == by_id(self@.skip(i as int), id),
                forall|j: int| 0 <= j < i ==> (#[trigger] self@[j]).id != id,
            decreases self.rows.len() - i,
        {
            assert(self@.skip(i as int).first() == self.rows[i as int]@);
            assert(self@.skip(i as int).drop_first() =~= self@.skip(i as int + 1));
            if self.rows[i].id == id {
                let ghost new_title = optional_text(title);
                let ghost new_content = optional_text(content);
                let title_now: String = match title {
                    Some(t) => t,
                    None => self.rows[i].title.clone(),
                };
                let content_now: String = match content {
                    Some(c) => c,
                    None => self.rows[i].content.clone(),
                };
                let row_now = Model {
                    id,
                    title: title_now,
                    content: content_now,
                    created_at: self.rows[i].created_at,
                    updated_at: self.rows[i].updated_at,
                };
                let updated = row_now.clone();
                self.rows.set(i, row_now);
                assert(self@ =~= revised(old(self)@, id, new_title, new_content)) by {
                    assert forall|j: int| 0 <= j < old(self)@.len() implies (#[trigger] self@[j])
                        == revised(old(self)@, id, new_title, new_content)[j] by {
                        if j > i {
                            assert(old(self)@[i as int].id < old(self)@[j].id);
                        }
                    }
                }
                return Ok(updated);
            }
            i = i + 1;
        }
        Err(StoreError::RecordNotFound { id })
    }

    /// Removes the row `id`, if there is one, and says how many rows left.
    pub fn delete(&mut self, id: i32) -> (done: DeleteResult)
        requires
            old(self).wf(),
        ensures
            final(self).wf(),
            final(self).last_id() == old(self).last_id(),
            final(self)@ == without(old(self)@, id),
            done.rows_affected == old(self)@.len() - final(self)@.len(),
            done.rows_affected == if by_id(old(self)@, id) is Some {
                1int
            } else {
                0int
            },
    {
        let ghost before = self@;
        let ghost keep = other_than::<CardView>(id);
        let mut i: usize = 0;
        let mut removed: u64 = 0;
        assert(before.take(0).filter(keep) =~= Seq::<CardView>::empty()) by {
            reveal(Seq::filter);
        }
        assert(before.skip(0) =~= before);
        while i < self.rows.len()
            invariant
                self.last_id == old(self).last_id,
                before == old(self)@,
                old(self).wf(),
                keep == other_than::<CardView>(id),
                i + removed <= before.len(),
                removed <= 1,
                removed == 1 ==> forall|j: int|
                    i + removed <= j < before.len() ==> (#[trigger] before[j]).id != id,
                removed == 0 ==> by_id(before, id) == by_id(before.skip(i as int), id),
                removed == 1 ==> by_id(before, id) is Some,
                self@ =~= before.take(i + removed).filter(keep) + before.skip(i + removed),
                i == before.take(i + removed).filter(keep).len(),
                ids_in_order(self@, self.last_id()),
            decreases self.rows.len() - i,
        {
            let ghost k = i + removed;
            proof {
                lemma_filter_step(before, keep, k as int);
                assert(self@[i as int] == before.skip(k as int)[0]);
                assert(before.skip(k as int).first() == before[k as int]);
                assert(before.skip(k as int).drop_first() =~= before.skip(k as int + 1));
            }
            let ghost rows_then = self@;
            if self.rows[i].id == id {
                self.rows.remove(i);
                removed = removed + 1;
                assert(self@ =~= rows_then.remove(i as int));
                assert(self@ =~= before.take(k + 1).filter(keep) + before.skip(k + 1));
                assert forall|j: int| k + 1 <= j < before.len() implies (#[trigger] before[j]).id
                    != id by {
                    assert(before[k as int].id < before[j].id);
                }
            } else {
                i = i + 1;
                assert(self@ =~= before.take(k + 1).filter(keep) + before.skip(k + 1));
            }
        }
        proof {
            let k = i + removed;
            assert(before.skip(k as int) =~= Seq::<CardView>::empty());
            assert(before.take(k as int) =~= before);
            assert(self@ =~= before.filter(keep));
        }
        DeleteResult { rows_affected: removed }
    }
}

} // verus!
