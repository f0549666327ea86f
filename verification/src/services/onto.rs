//! Creating, renaming and deleting concept nodes.

use vstd::prelude::*;
use crate::database::Database;
use crate::entity::onto::{Model, OntoView};
use crate::entity::signifier_signified::{away_from, Relation};
use crate::graph::apart_from;
use crate::rows::{by_id, view_of, views};
use crate::error::ServiceError;
use crate::seq_facts::lemma_filter_twice;
use crate::text::{is_blank, optional_text, trim, trimmed};

verus! {

/// Trims a name and refuses it where nothing is left.
pub fn clean_name(name: &str) -> (clean: Result<String, ServiceError>)
    ensures
        match clean {
            Ok(t) => !is_blank(name@) && t@ == trimmed(name@),
            Err(e) => is_blank(name@) && e == ServiceError::EmptyName,
        },
{
    let t = trim(name);
    if t.as_str().unicode_len() == 0 {
        Err(ServiceError::EmptyName)
    } else {
        Ok(t)
    }
}

/// Decides whether a name that is not blank may be given to a node: it may,
/// unless a node other than `own` holds it already.
pub fn check_name_free(holder: Option<i32>, own: Option<i32>) -> (free: Result<(), ServiceError>)
    ensures
        match free {
            Ok(_) => holder is None || holder == own,
            Err(e) => holder is Some && holder != own && e == (ServiceError::NameTaken {
                holder: holder->0,
            }),
        },
{
    match holder {
        Some(h) => {
            let same = match own {
                Some(o) => o == h,
                None => false,
            };
            if same {
                Ok(())
            } else {
                Err(ServiceError::NameTaken { holder: h })
            }
        },
        None => Ok(()),
    }
}

/// Decides whether an operation on the node may go on: it may where the
/// node was found.
pub fn check_onto_exists(id: i32, found: bool) -> (allowed: Result<(), ServiceError>)
    ensures
        match allowed {
            Ok(_) => found,
            Err(e) => !found && e == (ServiceError::OntoNotFound { id }),
        },
{
    if found {
        Ok(())
    } else {
        Err(ServiceError::OntoNotFound { id })
    }
}

/// The identifier of an optional node.
fn holder_id(holder: &Option<Model>) -> (id: Option<i32>)
    ensures
        id == crate::graph::id_of(view_of(*holder)),
{
    match holder {
        Some(h) => Some(h.id),
        None => None,
    }
}

/// The service for concept nodes. It holds nothing: the store is handed to
/// each call.
pub struct OntoService {}

impl OntoService {
    /// A service.
    pub fn new() -> OntoService {
        OntoService {  }
    }

    /// Every node, in the order of creation.
    pub fn get_all_ontos(&self, db: &Database) -> (found: Vec<Model>)
        ensures
            views(found@) == db.graph().nodes,
    {
        db.ontos.find_all()
    }

    /// The node with the identifier, if there is one.
    pub fn get_onto_by_id(&self, db: &Database, id: i32) -> (found: Option<Model>)
        ensures
            view_of(found) == by_id(db.graph().nodes, id),
    {
        db.ontos.find_by_id(id)
    }

    /// Creates a node under the trimmed name. The name must not be blank and
    /// no node may hold it already.
    pub fn create_onto(&self, db: &mut Database, name: String) -> (made: Result<
        Model,
        ServiceError,
    >)
        requires
            old(db).wf(),
        ensures
            final(db).wf(),
            final(db).same_side_tables(old(db)),
            match made {
                Ok(m) => {
                    &&& old(db).graph().create_onto_verdict(name@) is None
                    &&& m@ == old(db).graph().next_onto(name@)
                    &&& final(db).graph() == old(db).graph().with_onto(name@)
                },
                Err(e) => {
                    &&& old(db).graph().create_onto_verdict(name@) == Some(e)
                    &&& final(db).graph() == old(db).graph()
                },
            },
    {
        let clean = match clean_name(name.as_str()) {
            Ok(t) => t,
            Err(e) => {
                return Err(e);
            },
        };
        let holder = db.ontos.find_by_name(clean.as_str());
        match check_name_free(holder_id(&holder), None) {
            Ok(_) => {},
            Err(e) => {
                return Err(e);
            },
        }
        match db.ontos.create(clean) {
            Ok(m) => {
                proof {
                    old(db).graph().with_onto_is_wf(name@);
                }
                Ok(m)
            },
            Err(e) => Err(ServiceError::Storage(e)),
        }
    }

    /// Gives the node the trimmed new name, where one is given, and returns
    /// the node as it then stands. A new name must not be blank, and no other
    /// node may hold it.
    pub fn update_onto(&self, db: &mut Database, id: i32, name: Option<String>) -> (updated: Result<
        Model,
        ServiceError,
    >)
        requires
            old(db).wf(),
        ensures
            final(db).wf(),
            final(db).same_side_tables(old(db)),
            match updated {
                Ok(m) => {
                    &&& old(db).graph().update_onto_verdict(id, optional_text(name)) is None
                    &&& m@ == (OntoView {
                        id,
                        name: old(db).graph().updated_name(id, optional_text(name)),
                    })
                    &&& final(db).graph() == old(db).graph().with_updated_onto(
                        id,
                        optional_text(name),
                    )
                },
                Err(e) => {
                    &&& old(db).graph().update_onto_verdict(id, optional_text(name)) == Some(e)
                    &&& final(db).graph() == old(db).graph()
                },
            },
    {
        let clean: Option<String> = match &name {
            Some(n) => {
                let t = match clean_name(n.as_str()) {
                    Ok(t) => t,
                    Err(e) => {
                        return Err(e);
                    },
                };
                let holder = db.ontos.find_by_name(t.as_str());
                match check_name_free(holder_id(&holder), Some(id)) {
                    Ok(_) => {},
                    Err(e) => {
                        return Err(e);
                    },
                }
                Some(t)
            },
            None => None,
        };
        match db.ontos.update(id, clean) {
            Ok(m) => {
                proof {
                    old(db).graph().with_updated_onto_is_wf(id, optional_text(name));
                }
                Ok(m)
            },
            Err(_) => Err(ServiceError::OntoNotFound { id }),
        }
    }

    /// Deletes the node and, with it, every relation that has it at either
    /// end.
    pub fn delete_onto(&self, db: &mut Database, id: i32) -> (done: Result<(), ServiceError>)
        requires
            old(db).wf(),
        ensures
            final(db).wf(),
            final(db).same_side_tables(old(db)),
            match done {
                Ok(_) => {
                    &&& old(db).graph().delete_onto_verdict(id) is None
                    &&& final(db).graph() == old(db).graph().without_onto(id)
                },
                Err(e) => {
                    &&& old(db).graph().delete_onto_verdict(id) == Some(e)
                    &&& final(db).graph() == old(db).graph()
                },
            },
    {
        match check_onto_exists(id, db.ontos.find_by_id(id).is_some()) {
            Ok(_) => {},
            Err(e) => {
                return Err(e);
            },
        }
        db.signs.delete_by_signifier(id);
        db.signs.delete_by_signified(id);
        db.ontos.delete(id);
        proof {
            lemma_filter_twice(
                old(db).signs@,
                away_from(Relation::Signifier, id),
                away_from(Relation::Signified, id),
                apart_from(id),
            );
            old(db).graph().without_onto_is_wf(id);
        }
        Ok(())
    }
}

} // verus!
