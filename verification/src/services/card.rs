//! Creating, revising and deleting note cards.

use vstd::prelude::*;
use crate::clock::Timestamp;
use crate::database::Database;
use crate::entity::card::{revised, revision, CardView, Model};
use crate::rows::{by_id, view_of, views, without};
use crate::error::ServiceError;
use crate::graph::room_verdict;
use crate::text::{is_blank, is_blank_text, optional_text};

verus! {

/// What is decided of the texts of a card: a title that is given must not be
/// blank, and neither must a content that is given; the title is judged
/// first.
pub open spec fn card_verdict(title: Option<Seq<char>>, content: Option<Seq<char>>) -> Option<
    ServiceError,
> {
    if title is Some && is_blank(title->0) {
        Some(ServiceError::EmptyTitle)
    } else if content is Some && is_blank(content->0) {
        Some(ServiceError::EmptyContent)
    } else {
        None
    }
}

/// Decides whether the texts of a card are acceptable.
pub fn check_card(title: &Option<String>, content: &Option<String>) -> (allowed: Result<
    (),
    ServiceError,
>)
    ensures
        match allowed {
            Ok(_) => card_verdict(optional_text(*title), optional_text(*content)) is None,
            Err(e) => card_verdict(optional_text(*title), optional_text(*content)) == Some(e),
        },
{
    match title {
        Some(t) => {
            if is_blank_text(t.as_str()) {
                return Err(ServiceError::EmptyTitle);
            }
        },
        None => {},
    }
    match content {
        Some(c) => {
            if is_blank_text(c.as_str()) {
                return Err(ServiceError::EmptyContent);
            }
        },
        None => {},
    }
    Ok(())
}

/// Decides whether a card with these texts may be created.
pub fn check_new_card(title: &str, content: &str) -> (allowed: Result<(), ServiceError>)
    ensures
        match allowed {
            Ok(_) => card_verdict(Some(title@), Some(content@)) is None,
            Err(e) => card_verdict(Some(title@), Some(content@)) == Some(e),
        },
{
    if is_blank_text(title) {
        return Err(ServiceError::EmptyTitle);
    }
    if is_blank_text(content) {
        return Err(ServiceError::EmptyContent);
    }
    Ok(())
}

/// Why a card with these texts cannot be created, if it cannot.
pub open spec fn create_card_verdict(last_id: int, title: Seq<char>, content: Seq<char>) -> Option<
    ServiceError,
> {
    match card_verdict(Some(title), Some(content)) {
        Some(e) => Some(e),
        None => room_verdict(last_id),
    }
}

/// The service for note cards. It holds nothing: the store is handed to each
/// call.
pub struct CardService {}

impl CardService {
    /// A service.
    pub fn new() -> CardService {
        CardService {  }
    }

    /// Every card, in the order of creation.
    pub fn get_all_cards(&self, db: &Database) -> (found: Vec<Model>)
        ensures
            views(found@) == db.cards@,
    {
        db.cards.find_all()
    }

    /// The card with the identifier, if there is one.
    pub fn get_card_by_id(&self, db: &Database, id: i32) -> (found: Option<Model>)
        ensures
            view_of(found) == by_id(db.cards@, id),
    {
        db.cards.find_by_id(id)
    }

    /// Creates a card with the title and the content as they are given,
    /// created and last written at the given moment. Neither text may be
    /// blank.
    pub fn create_card_at(
        &self,
        db: &mut Database,
        title: String,
        content: String,
        at: Timestamp,
    ) -> (made: Result<Model, ServiceError>)
        requires
            old(db).wf(),
        ensures
            final(db).wf(),
            final(db).graph() == old(db).graph(),
            final(db).users == old(db).users,
            match made {
                Ok(m) => {
                    &&& create_card_verdict(old(db).cards.last_id(), title@, content@) is None
                    &&& m@ == (CardView {
                        id: (old(db).cards.last_id() + 1) as i32,
                        title: title@,
                        content: content@,
                        created_at: at,
                        updated_at: at,
                    })
                    &&& final(db).cards@ == old(db).cards@.push(m@)
                    &&& final(db).cards.last_id() == old(db).cards.last_id() + 1
                },
                Err(e) => {
                    &&& create_card_verdict(old(db).cards.last_id(), title@, content@) == Some(e)
                    &&& final(db).cards@ == old(db).cards@
                    &&& final(db).cards.last_id() == old(db).cards.last_id()
                },
            },
    {
        match check_new_card(title.as_str(), content.as_str()) {
            Ok(_) => {},
            Err(e) => {
                return Err(e);
            },
        }
        match db.cards.create_at(title, content, at) {
            Ok(m) => Ok(m),
            Err(e) => Err(ServiceError::Storage(e)),
        }
    }

    /// Creates a card with the title and the content as they are given,
    /// created and last written at the present moment. Neither text may be
    /// blank.
    pub fn create_card(&self, db: &mut Database, title: String, content: String) -> (made: Result<
        Model,
        ServiceError,
    >)
        requires
            old(db).wf(),
        ensures
            final(db).wf(),
            final(db).graph() == old(db).graph(),
            final(db).users == old(db).users,
            match made {
                Ok(m) => {
                    &&& create_card_verdict(old(db).cards.last_id(), title@, content@) is None
                    &&& m@ == (CardView {
                        id: (old(db).cards.last_id() + 1) as i32,
                        title: title@,
                        content: content@,
                        created_at: m@.created_at,
                        updated_at: m@.created_at,
                    })
                    &&& final(db).cards@ == old(db).cards@.push(m@)
                    &&& final(db).cards.last_id() == old(db).cards.last_id() + 1
                },
                Err(e) => {
                    &&& create_card_verdict(old(db).cards.last_id(), title@, content@) == Some(e)
                    &&& final(db).cards@ == old(db).cards@
                    &&& final(db).cards.last_id() == old(db).cards.last_id()
                },
            },
    {
        let now = Timestamp::now();
        self.create_card_at(db, title, content, now)
    }

    /// Gives the card the new title and the new content, where they are
    /// given, and returns the card as it then stands, or nothing where there
    /// is no such card. A text that is given must not be blank.
    pub fn update_card(
        &self,
        db: &mut Database,
        id: i32,
        title: Option<String>,
        content: Option<String>,
    ) -> (updated: Result<Option<Model>, ServiceError>)
        requires
            old(db).wf(),
        ensures
            final(db).wf(),
            final(db).graph() == old(db).graph(),
            final(db).users == old(db).users,
            final(db).cards.last_id() == old(db).cards.last_id(),
            match updated {
                Ok(Some(m)) => {
                    &&& card_verdict(optional_text(title), optional_text(content)) is None
                    &&& by_id(old(db).cards@, id) is Some
                    &&& m@ == revision(
                        by_id(old(db).cards@, id)->0,
                        optional_text(title),
                        optional_text(content),
                    )
                    &&& final(db).cards@ == revised(
                        old(db).cards@,
                        id,
                        optional_text(title),
                        optional_text(content),
                    )
                },
                Ok(None) => {
                    &&& card_verdict(optional_text(title), optional_text(content)) is None
                    &&& by_id(old(db).cards@, id) is None
                    &&& final(db).cards@ == old(db).cards@
                },
                Err(e) => {
                    &&& card_verdict(optional_text(title), optional_text(content)) == Some(e)
                    &&& final(db).cards@ == old(db).cards@
                },
            },
    {
        match check_card(&title, &content) {
            Ok(_) => {},
            Err(e) => {
                return Err(e);
            },
        }
        match db.cards.update(id, title, content) {
            Ok(m) => Ok(Some(m)),
            Err(_) => Ok(None),
        }
    }

    /// Deletes the card and says whether there was one.
    pub fn delete_card(&self, db: &mut Database, id: i32) -> (deleted: bool)
        requires
            old(db).wf(),
        ensures
            final(db).wf(),
            final(db).graph() == old(db).graph(),
            final(db).users == old(db).users,
            final(db).cards.last_id() == old(db).cards.last_id(),
            deleted == (by_id(old(db).cards@, id) is Some),
            final(db).cards@ == without(old(db).cards@, id),
    {
        let done = db.cards.delete(id);
        done.rows_affected == 1
    }
}

} // verus!
