//! What the pages show: reads that gather rows from several tables.

use vstd::prelude::*;
use crate::database::Database;
use crate::entity::onto;
use crate::entity::signifier_signified as sign;
use crate::entity::signifier_signified::Relation;
use crate::entity::user;
use crate::error::ServiceError;
use crate::rows::{by_id, views};

verus! {

/// The service behind the pages. It holds nothing: the store is handed to
/// each call.
pub struct HtmlService {}

impl HtmlService {
    /// A service.
    pub fn new() -> HtmlService {
        HtmlService {  }
    }

    /// Every user, in the order of creation.
    pub fn get_users_for_html(&self, db: &Database) -> (found: Vec<user::Model>)
        ensures
            views(found@) == db.users@,
    {
        db.users.find_all()
    }

    /// Every node, in the order of creation.
    pub fn get_ontos_for_html(&self, db: &Database) -> (found: Vec<onto::Model>)
        ensures
            views(found@) == db.ontos@,
    {
        db.ontos.find_all()
    }

    /// A node with the relations that start from it and those that point to
    /// it. The node must exist.
    pub fn get_onto_detail_for_html(&self, db: &Database, id: i32) -> (found: Result<
        (onto::Model, Vec<sign::Model>, Vec<sign::Model>),
        ServiceError,
    >)
        ensures
            match found {
                Ok((node, signifiers, signifieds)) => {
                    &&& by_id(db.ontos@, id) == Some(node@)
                    &&& views(signifiers@) == sign::touching(
                        db.signs@,
                        Relation::Signifier,
                        id,
                    )
                    &&& views(signifieds@) == sign::touching(
                        db.signs@,
                        Relation::Signified,
                        id,
                    )
                },
                Err(e) => by_id(db.ontos@, id) is None && e == (ServiceError::OntoNotFound {
                    id,
                }),
            },
    {
        let node = match db.ontos.find_by_id(id) {
            Some(node) => node,
            None => {
                return Err(ServiceError::OntoNotFound { id });
            },
        };
        let signifiers = db.signs.find_by_signifier_id(id);
        let signifieds = db.signs.find_by_signified_id(id);
        Ok((node, signifiers, signifieds))
    }

    /// Every relation, in the order of creation.
    pub fn get_signs_for_html(&self, db: &Database) -> (found: Vec<sign::Model>)
        ensures
            views(found@) == db.signs@,
    {
        db.signs.find_all()
    }

    /// The relation with the identifier. It must exist.
    pub fn get_sign_detail_for_html(&self, db: &Database, id: i32) -> (found: Result<
        sign::Model,
        ServiceError,
    >)
        ensures
            match found {
                Ok(row) => by_id(db.signs@, id) == Some(row@),
                Err(e) => by_id(db.signs@, id) is None && e == (ServiceError::SignNotFound {
                    id,
                }),
            },
    {
        match db.signs.find_by_id(id) {
            Some(row) => Ok(row),
            None => Err(ServiceError::SignNotFound { id }),
        }
    }

    /// A node with the relations that have it at the given end. The node
    /// must exist.
    pub fn get_signs_for_end(&self, db: &Database, end: Relation, node_id: i32) -> (found: Result<
        (onto::Model, Vec<sign::Model>),
        ServiceError,
    >)
        ensures
            match found {
                Ok((node, signs)) => {
                    &&& by_id(db.ontos@, node_id) == Some(node@)
                    &&& views(signs@) == sign::touching(db.signs@, end, node_id)
                },
                Err(e) => {
                    &&& by_id(db.ontos@, node_id) is None
                    &&& db.graph().query_verdict(end, node_id) == Some(e)
                },
            },
    {
        let node = match db.ontos.find_by_id(node_id) {
            Some(node) => node,
            None => {
                return Err(
                    match end {
                        Relation::Signifier => ServiceError::SignifierNotFound { id: node_id },
                        Relation::Signified => ServiceError::SignifiedNotFound { id: node_id },
                    },
                );
            },
        };
        let signs = db.signs.find_by(end, node_id);
        Ok((node, signs))
    }

    /// A node with the relations that start from it. The node must exist.
    pub fn get_signs_by_signifier_for_html(&self, db: &Database, signifier_id: i32) -> (found:
        Result<(onto::Model, Vec<sign::Model>), ServiceError>)
        ensures
            match found {
                Ok((node, signs)) => {
                    &&& by_id(db.ontos@, signifier_id) == Some(node@)
                    &&& views(signs@) == sign::touching(
                        db.signs@,
                        Relation::Signifier,
                        signifier_id,
                    )
                },
                Err(e) => {
                    &&& by_id(db.ontos@, signifier_id) is None
                    &&& e == (ServiceError::SignifierNotFound { id: signifier_id })
                },
            },
    {
        self.get_signs_for_end(db, Relation::Signifier, signifier_id)
    }

    /// A node with the relations that point to it. The node must exist.
    pub fn get_signs_by_signified_for_html(&self, db: &Database, signified_id: i32) -> (found:
        Result<(onto::Model, Vec<sign::Model>), ServiceError>)
        ensures
            match found {
                Ok((node, signs)) => {
                    &&& by_id(db.ontos@, signified_id) == Some(node@)
                    &&& views(signs@) == sign::touching(
                        db.signs@,
                        Relation::Signified,
                        signified_id,
                    )
                },
                Err(e) => {
                    &&& by_id(db.ontos@, signified_id) is None
                    &&& e == (ServiceError::SignifiedNotFound { id: signified_id })
                },
            },
    {
        self.get_signs_for_end(db, Relation::Signified, signified_id)
    }

    /// The user with the identifier. It must exist.
    pub fn get_user_detail_for_html(&self, db: &Database, id: i32) -> (found: Result<
        user::Model,
        ServiceError,
    >)
        ensures
            match found {
                Ok(row) => by_id(db.users@, id) == Some(row@),
                Err(e) => by_id(db.users@, id) is None && e == (ServiceError::UserNotFound {
                    id,
                }),
            },
    {
        match db.users.find_by_id(id) {
            Some(row) => Ok(row),
            None => Err(ServiceError::UserNotFound { id }),
        }
    }

    /// How many users there are.
    pub fn get_user_stats(&self, db: &Database) -> (count: u64)
        ensures
            count == db.users@.len(),
    {
        db.users.count()
    }

    /// How many nodes there are.
    pub fn get_onto_stats(&self, db: &Database) -> (count: u64)
        ensures
            count == db.ontos@.len(),
    {
        let nodes = db.ontos.find_all();
        assert(views(nodes@).len() == nodes@.len());
        nodes.len() as u64
    }

    /// How many relations there are.
    pub fn get_sign_stats(&self, db: &Database) -> (count: u64)
        ensures
            count == db.signs@.len(),
    {
        db.signs.count()
    }

    /// Whether a node has the identifier.
    pub fn validate_onto_id(&self, db: &Database, id: i32) -> (found: bool)
        ensures
            found == db.graph().has_onto(id),
    {
        db.ontos.find_by_id(id).is_some()
    }

    /// Whether a relation has the identifier.
    pub fn validate_sign_id(&self, db: &Database, id: i32) -> (found: bool)
        ensures
            found == db.graph().has_sign(id),
    {
        db.signs.find_by_id(id).is_some()
    }
}

} // verus!
