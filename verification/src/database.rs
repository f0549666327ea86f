//! The tables together.

use vstd::prelude::*;
use crate::graph::Graph;
use crate::repositories::card::CardRepository;
use crate::repositories::onto::OntoRepository;
use crate::repositories::sign::SignRepository;
use crate::repositories::user::UserRepository;

verus! {

/// The tables of one store. The services take it as an argument and hold
/// nothing themselves.
pub struct Database {
    pub ontos: OntoRepository,
    pub signs: SignRepository,
    pub cards: CardRepository,
    pub users: UserRepository,
}

impl Database {
    /// The graph that the node and relation tables hold.
    pub open spec fn graph(&self) -> Graph {
        Graph {
            nodes: self.ontos@,
            last_onto_id: self.ontos.last_id(),
            signs: self.signs@,
            last_sign_id: self.signs.last_id(),
        }
    }

    /// The tables are well formed, and so is the graph they hold.
    pub open spec fn wf(&self) -> bool {
        &&& self.graph().wf()
        &&& self.cards.wf()
        &&& self.users.wf()
    }

    /// Whether the tables beside the graph are those of `other`.
    pub open spec fn same_side_tables(&self, other: &Database) -> bool {
        &&& self.cards == other.cards
        &&& self.users == other.users
    }

    /// A store with empty tables.
    pub fn new() -> (db: Database)
        ensures
            db.graph() == Graph::empty(),
            db.cards@.len() == 0,
            db.cards.last_id() == 0,
            db.users@.len() == 0,
            db.users.last_id() == 0,
            db.wf(),
    {
        Database {
            ontos: OntoRepository::new(),
            signs: SignRepository::new(),
            cards: CardRepository::new(),
            users: UserRepository::new(),
        }
    }
}

} // verus!
