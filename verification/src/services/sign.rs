//! Creating, deleting and listing relations.

use vstd::prelude::*;
use crate::clock::Timestamp;
use crate::database::Database;
use crate::entity::signifier_signified::{touching, Model, Relation};
use crate::rows::{by_id, view_of, views};
use crate::error::ServiceError;
use crate::graph::new_sign_verdict;
use crate::text::optional_text;
use crate::weight::Weight;

verus! {

/// Decides whether a relation may be created, given whether each end exists
/// and whether the ordered pair is already joined. The ends must differ and
/// exist, the pair must be new, and a weight must lie in the unit interval;
/// the first of these that fails is the one reported.
pub fn check_new_sign(
    signifier_id: i32,
    signified_id: i32,
    signifier_found: bool,
    signified_found: bool,
    joined: bool,
    weight: &Option<Weight>,
) -> (allowed: Result<(), ServiceError>)
    ensures
        match allowed {
            Ok(_) => new_sign_verdict(
                signifier_id,
                signified_id,
                signifier_found,
                signified_found,
                joined,
                *weight,
            ) is None,
            Err(e) => new_sign_verdict(
                signifier_id,
                signified_id,
                signifier_found,
                signified_found,
                joined,
                *weight,
            ) == Some(e),
        },
{
    if signifier_id == signified_id {
        return Err(ServiceError::SelfRelation { id: signifier_id });
    }
    if !signifier_found {
        return Err(ServiceError::SignifierNotFound { id: signifier_id });
    }
    if !signified_found {
        return Err(ServiceError::SignifiedNotFound { id: signified_id });
    }
    if joined {
        return Err(ServiceError::SignExists { signifier_id, signified_id });
    }
    match weight {
        Some(w) => {
            if !w.is_in_unit_interval() {
                return Err(ServiceError::WeightOutOfRange);
            }
        },
        None => {},
    }
    Ok(())
}

/// Decides whether an operation on the relation may go on: it may where the
/// relation was found.
pub fn check_sign_exists(id: i32, found: bool) -> (allowed: Result<(), ServiceError>)
    ensures
        match allowed {
            Ok(_) => found,
            Err(e) => !found && e == (ServiceError::SignNotFound { id }),
        },
{
    if found {
        Ok(())
    } else {
        Err(ServiceError::SignNotFound { id })
    }
}

/// Decides whether the relations at one end of a node may be listed: they
/// may where the node was found, and the failure names the end.
pub fn check_end_exists(end: Relation, node: i32, found: bool) -> (allowed: Result<
    (),
    ServiceError,
>)
    ensures
        match allowed {
            Ok(_) => found,
            Err(e) => !found && e == match end {
                Relation::Signifier => ServiceError::SignifierNotFound { id: node },
                Relation::Signified => ServiceError::SignifiedNotFound { id: node },
            },
        },
{
    if found {
        Ok(())
    } else {
        Err(
            match end {
                Relation::Signifier => ServiceError::SignifierNotFound { id: node },
                Relation::Signified => ServiceError::SignifiedNotFound { id: node },
            },
        )
    }
}

/// The service for relations. It holds nothing: the store is handed to each
/// call.
pub struct SignService {}

impl SignService {
    /// A service.
    pub fn new() -> SignService {
        SignService {  }
    }

    /// Every relation, in the order of creation.
    pub fn get_all_signs(&self, db: &Database) -> (found: Vec<Model>)
        ensures
            views(found@) == db.graph().signs,
    {
        db.signs.find_all()
    }

    /// The relation with the identifier, if there is one.
    pub fn get_sign_by_id(&self, db: &Database, id: i32) -> (found: Option<Model>)
        ensures
            view_of(found) == by_id(db.graph().signs, id),
    {
        db.signs.find_by_id(id)
    }

    /// Creates a relation from the signifier to the signified, stamped with
    /// the given moment.
    pub fn create_sign_at(
        &self,
        db: &mut Database,
        signifier_id: i32,
        signified_id: i32,
        weight: Option<Weight>,
        relation_type: Option<String>,
        created_at: Timestamp,
    ) -> (made: Result<Model, ServiceError>)
        requires
            old(db).wf(),
        ensures
            final(db).wf(),
            final(db).same_side_tables(old(db)),
            match made {
                Ok(m) => {
                    &&& old(db).graph().create_sign_verdict(signifier_id, signified_id, weight)
                        is None
                    &&& m@ == old(db).graph().next_sign(
                        signifier_id,
                        signified_id,
                        weight,
                        optional_text(relation_type),
                        created_at,
                    )
                    &&& final(db).graph() == old(db).graph().with_sign(m@)
                },
                Err(e) => {
                    &&& old(db).graph().create_sign_verdict(signifier_id, signified_id, weight)
                        == Some(e)
                    &&& final(db).graph() == old(db).graph()
                },
            },
    {
        let signifier_found = db.ontos.find_by_id(signifier_id).is_some();
        let signified_found = db.ontos.find_by_id(signified_id).is_some();
        let joined = db.signs.pair_exists(signifier_id, signified_id);
        match check_new_sign(
            signifier_id,
            signified_id,
            signifier_found,
            signified_found,
            joined,
            &weight,
        ) {
            Ok(_) => {},
            Err(e) => {
                return Err(e);
            },
        }
        let ghost label = optional_text(relation_type);
        match db.signs.create_at(signifier_id, signified_id, weight, relation_type, created_at) {
            Ok(m) => {
                proof {
                    old(db).graph().with_sign_is_wf(
                        signifier_id,
                        signified_id,
                        weight,
                        label,
                        created_at,
                    );
                }
                Ok(m)
            },
            Err(e) => Err(ServiceError::Storage(e)),
        }
    }

    /// Creates a relation from the signifier to the signified, stamped with
    /// the present moment.
    pub fn create_sign(
        &self,
        db: &mut Database,
        signifier_id: i32,
        signified_id: i32,
        weight: Option<Weight>,
        relation_type: Option<String>,
    ) -> (made: Result<Model, ServiceError>)
        requires
            old(db).wf(),
        ensures
            final(db).wf(),
            final(db).same_side_tables(old(db)),
            match made {
                Ok(m) => {
                    &&& old(db).graph().create_sign_verdict(signifier_id, signified_id, weight)
                        is None
                    &&& m@ == old(db).graph().next_sign(
                        signifier_id,
                        signified_id,
                        weight,
                        optional_text(relation_type),
                        m@.created_at,
                    )
                    &&& final(db).graph() == old(db).graph().with_sign(m@)
                },
                Err(e) => {
                    &&& old(db).graph().create_sign_verdict(signifier_id, signified_id, weight)
                        == Some(e)
                    &&& final(db).graph() == old(db).graph()
                },
            },
    {
        let now = Timestamp::now();
        self.create_sign_at(db, signifier_id, signified_id, weight, relation_type, now)
    }

    /// Deletes the relation.
    pub fn delete_sign(&self, db: &mut Database, id: i32) -> (done: Result<(), ServiceError>)
        requires
            old(db).wf(),
        ensures
            final(db).wf(),
            final(db).same_side_tables(old(db)),
            match done {
                Ok(_) => {
                    &&& old(db).graph().delete_sign_verdict(id) is None
                    &&& final(db).graph() == old(db).graph().without_sign(id)
                },
                Err(e) => {
                    &&& old(db).graph().delete_sign_verdict(id) == Some(e)
                    &&& final(db).graph() == old(db).graph()
                },
            },
    {
        match check_sign_exists(id, db.signs.find_by_id(id).is_some()) {
            Ok(_) => {},
            Err(e) => {
                return Err(e);
            },
        }
        db.signs.delete(id);
        proof {
            old(db).graph().without_sign_is_wf(id);
        }
        Ok(())
    }

    /// The relations that have the node at the given end, in the order of
    /// creation. The node must exist.
    pub fn get_signs_by(&self, db: &Database, end: Relation, node: i32) -> (found: Result<
        Vec<Model>,
        ServiceError,
    >)
        ensures
            match found {
                Ok(signs) => {
                    &&& db.graph().query_verdict(end, node) is None
                    &&& views(signs@) == touching(db.graph().signs, end, node)
                },
                Err(e) => db.graph().query_verdict(end, node) == Some(e),
            },
    {
        match check_end_exists(end, node, db.ontos.find_by_id(node).is_some()) {
            Ok(_) => {},
            Err(e) => {
                return Err(e);
            },
        }
        Ok(db.signs.find_by(end, node))
    }

    /// The relations that start from the node. The node must exist.
    pub fn get_signs_by_signifier(&self, db: &Database, signifier_id: i32) -> (found: Result<
        Vec<Model>,
        ServiceError,
    >)
        ensures
            match found {
                Ok(signs) => {
                    &&& db.graph().query_verdict(Relation::Signifier, signifier_id) is None
                    &&& views(signs@) == touching(
                        db.graph().signs,
                        Relation::Signifier,
                        signifier_id,
                    )
                },
                Err(e) => db.graph().query_verdict(Relation::Signifier, signifier_id) == Some(e),
            },
    {
        self.get_signs_by(db, Relation::Signifier, signifier_id)
    }

    /// The relations that point to the node. The node must exist.
    pub fn get_signs_by_signified(&self, db: &Database, signified_id: i32) -> (found: Result<
        Vec<Model>,
        ServiceError,
    >)
        ensures
            match found {
                Ok(signs) => {
                    &&& db.graph().query_verdict(Relation::Signified, signified_id) is None
                    &&& views(signs@) == touching(
                        db.graph().signs,
                        Relation::Signified,
                        signified_id,
                    )
                },
                Err(e) => db.graph().query_verdict(Relation::Signified, signified_id) == Some(e),
            },
    {
        self.get_signs_by(db, Relation::Signified, signified_id)
    }

    /// How many relations there are.
    pub fn count_signs(&self, db: &Database) -> (count: u64)
        ensures
            count == db.graph().signs.len(),
    {
        db.signs.count()
    }

    /// How many relations start from the node. The node must exist.
    pub fn count_signs_by_signifier(&self, db: &Database, signifier_id: i32) -> (count: Result<
        u64,
        ServiceError,
    >)
        ensures
            match count {
                Ok(n) => {
                    &&& db.graph().query_verdict(Relation::Signifier, signifier_id) is None
                    &&& n == touching(db.graph().signs, Relation::Signifier, signifier_id).len()
                },
                Err(e) => db.graph().query_verdict(Relation::Signifier, signifier_id) == Some(e),
            },
    {
        match self.get_signs_by(db, Relation::Signifier, signifier_id) {
            Ok(signs) => Ok(signs.len() as u64),
            Err(e) => Err(e),
        }
    }

    /// How many relations point to the node. The node must exist.
    pub fn count_signs_by_signified(&self, db: &Database, signified_id: i32) -> (count: Result<
        u64,
        ServiceError,
    >)
        ensures
            match count {
                Ok(n) => {
                    &&& db.graph().query_verdict(Relation::Signified, signified_id) is None
                    &&& n == touching(db.graph().signs, Relation::Signified, signified_id).len()
                },
                Err(e) => db.graph().query_verdict(Relation::Signified, signified_id) == Some(e),
            },
    {
        match self.get_signs_by(db, Relation::Signified, signified_id) {
            Ok(signs) => Ok(signs.len() as u64),
            Err(e) => Err(e),
        }
    }

    /// Whether a relation has the identifier.
    pub fn validate_sign_id(&self, db: &Database, id: i32) -> (found: bool)
        ensures
            found == db.graph().has_sign(id),
    {
        db.signs.find_by_id(id).is_some()
    }
}

} // verus!
