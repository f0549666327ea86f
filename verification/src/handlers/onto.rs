//! Requests and responses about concept nodes.

use vstd::prelude::*;
use crate::entity::onto::Model;

verus! {

/// A request to create a node.
#[derive(Debug, PartialEq, Eq)]
pub struct CreateOntoRequest {
    pub name: String,
}

/// A request to change a node; a field that is absent stays as it is.
#[derive(Debug, PartialEq, Eq)]
pub struct UpdateOntoRequest {
    pub name: Option<String>,
}

/// A node, as it is shown to a caller.
#[derive(Debug, PartialEq, Eq)]
pub struct OntoResponse {
    pub id: i32,
    pub name: String,
}

/// A list of nodes, as it is shown to a caller.
#[derive(Debug, PartialEq, Eq)]
pub struct OntosResponse {
    pub ontos: Vec<OntoResponse>,
}

impl OntoResponse {
    /// Whether this response shows the row.
    pub open spec fn shows(&self, row: Model) -> bool {
        self.id == row.id && self.name@ == row.name@
    }

    /// The response that shows the row.
    pub fn from_model(row: &Model) -> (response: OntoResponse)
        ensures
            response.shows(*row),
    {
        OntoResponse { id: row.id, name: row.name.clone() }
    }
}

impl OntosResponse {
    /// Whether this response shows the rows, one by one and in their order.
    pub open spec fn shows(&self, rows: Seq<Model>) -> bool {
        &&& self.ontos@.len() == rows.len()
        &&& forall|i: int| 0 <= i < rows.len() ==> (#[trigger] self.ontos@[i]).shows(rows[i])
    }

    /// The response that shows the rows.
    pub fn from_models(rows: &Vec<Model>) -> (response: OntosResponse)
        ensures
            response.shows(rows@),
    {
        let mut ontos: Vec<OntoResponse> = Vec::new();
        let mut i: usize = 0;
        while i < rows.len()
            invariant
                i <= rows.len(),
                ontos@.len() == i,
                forall|j: int| 0 <= j < i ==> (#[trigger] ontos@[j]).shows(rows@[j]),
            decreases rows.len() - i,
        {
            ontos.push(OntoResponse::from_model(&rows[i]));
            i = i + 1;
        }
        OntosResponse { ontos }
    }
}

} // verus!
