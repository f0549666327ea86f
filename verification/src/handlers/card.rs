//! Requests and responses about note cards.

use vstd::prelude::*;
use crate::clock::utc_text;
use crate::entity::card::Model;

verus! {

/// A request to create a card.
#[derive(Debug, PartialEq, Eq)]
pub struct CreateCardRequest {
    pub title: String,
    pub content: String,
}

/// A request to change a card; a field that is absent stays as it is.
#[derive(Debug, PartialEq, Eq)]
pub struct UpdateCardRequest {
    pub title: Option<String>,
    pub content: Option<String>,
}

/// A card, as it is shown to a caller. The two moments are shown as text.
#[derive(Debug, PartialEq, Eq)]
pub struct CardResponse {
    pub id: i32,
    pub title: String,
    pub content: String,
    pub created_at: String,
    pub updated_at: String,
}

impl CardResponse {
    /// Whether this response shows the row.
    pub open spec fn shows(&self, row: Model) -> bool {
        &&& self.id == row.id
        &&& self.title@ == row.title@
        &&& self.content@ == row.content@
        &&& Some(self.created_at@) == utc_text(
            row.created_at.spec_seconds(),
            row.created_at.spec_subsec_nanos(),
        )
        &&& Some(self.updated_at@) == utc_text(
            row.updated_at.spec_seconds(),
            row.updated_at.spec_subsec_nanos(),
        )
    }

    /// The response that shows the row.
    pub fn from_model(row: &Model) -> (response: CardResponse)
        ensures
            response.shows(*row),
    {
        CardResponse {
            id: row.id,
            title: row.title.clone(),
            content: row.content.clone(),
            created_at: row.created_at.to_utc_text(),
            updated_at: row.updated_at.to_utc_text(),
        }
    }

    /// The responses that show the rows, one by one and in their order.
    pub fn from_models(rows: &Vec<Model>) -> (responses: Vec<CardResponse>)
        ensures
            responses@.len() == rows@.len(),
            forall|i: int| 0 <= i < rows@.len() ==> (#[trigger] responses@[i]).shows(rows@[i]),
    {
        let mut responses: Vec<CardResponse> = Vec::new();
        let mut i: usize = 0;
        while i < rows.len()
            invariant
                i <= rows.len(),
                responses@.len() == i,
                forall|j: int| 0 <= j < i ==> (#[trigger] responses@[j]).shows(rows@[j]),
            decreases rows.len() - i,
        {
            responses.push(CardResponse::from_model(&rows[i]));
            i = i + 1;
        }
        responses
    }
}

} // verus!
