//! Requests and responses about relations.

use vstd::prelude::*;
use crate::clock::naive_text;
use crate::entity::signifier_signified::Model;
use crate::text::optional_text;
use crate::weight::Weight;

verus! {

/// A request to create a relation.
#[derive(Debug, PartialEq, Eq)]
pub struct CreateSignRequest {
    pub signifier_id: i32,
    pub signified_id: i32,
    pub weight: Option<Weight>,
    pub relation_type: Option<String>,
}

/// A relation, as it is shown to a caller. The moment of creation is shown
/// as text.
#[derive(Debug, PartialEq, Eq)]
pub struct SignResponse {
    pub id: i32,
    pub signifier_id: i32,
    pub signified_id: i32,
    pub weight: Option<Weight>,
    pub relation_type: Option<String>,
    pub created_at: String,
}

/// A list of relations, as it is shown to a caller.
#[derive(Debug, PartialEq, Eq)]
pub struct SignsResponse {
    pub signs: Vec<SignResponse>,
}

impl SignResponse {
    /// Whether this response shows the row.
    pub open spec fn shows(&self, row: Model) -> bool {
        &&& self.id == row.id
        &&& self.signifier_id == row.signifier_id
        &&& self.signified_id == row.signified_id
        &&& self.weight == row.weight
        &&& optional_text(self.relation_type) == optional_text(row.relation_type)
        &&& Some(self.created_at@) == naive_text(
            row.created_at.spec_seconds(),
            row.created_at.spec_subsec_nanos(),
        )
    }

    /// The response that shows the row.
    pub fn from_model(row: &Model) -> (response: SignResponse)
        ensures
            response.shows(*row),
    {
        let relation_type = match &row.relation_type {
            Some(s) => Some(s.clone()),
            None => None,
        };
        SignResponse {
            id: row.id,
            signifier_id: row.signifier_id,
            signified_id: row.signified_id,
            weight: row.weight,
            relation_type,
            created_at: row.created_at.to_text(),
        }
    }
}

impl SignsResponse {
    /// Whether this response shows the rows, one by one and in their order.
    pub open spec fn shows(&self, rows: Seq<Model>) -> bool {
        &&& self.signs@.len() == rows.len()
        &&& forall|i: int| 0 <= i < rows.len() ==> (#[trigger] self.signs@[i]).shows(rows[i])
    }

    /// The response that shows the rows.
    pub fn from_models(rows: &Vec<Model>) -> (response: SignsResponse)
        ensures
            response.shows(rows@),
    {
        let mut signs: Vec<SignResponse> = Vec::new();
        let mut i: usize = 0;
        while i < rows.len()
            invariant
                i <= rows.len(),
                signs@.len() == i,
                forall|j: int| 0 <= j < i ==> (#[trigger] signs@[j]).shows(rows@[j]),
            decreases rows.len() - i,
        {
            signs.push(SignResponse::from_model(&rows[i]));
            i = i + 1;
        }
        SignsResponse { signs }
    }
}

} // verus!
