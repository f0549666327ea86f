//! Note cards.

use vstd::prelude::*;
use crate::clock::Timestamp;
use crate::rows::Row;

verus! {

/// A card as it is stored.
#[derive(Debug, PartialEq, Eq)]
pub struct Model {
    pub id: i32,
    pub title: String,
    pub content: String,
    /// When the card was stored.
    pub created_at: Timestamp,
    /// When the card was last written.
    pub updated_at: Timestamp,
}

/// What a stored card says.
pub struct CardView {
    pub id: i32,
    pub title: Seq<char>,
    pub content: Seq<char>,
    pub created_at: Timestamp,
    pub updated_at: Timestamp,
}

impl View for Model {
    type V = CardView;

    open spec fn view(&self) -> CardView {
        CardView {
            id: self.id,
            title: self.title@,
            content: self.content@,
            created_at: self.created_at,
            updated_at: self.updated_at,
        }
    }
}

impl Row for CardView {
    open spec fn row_id(&self) -> i32 {
        self.id
    }
}

impl Clone for Model {
    fn clone(&self) -> (copy: Model)
        ensures
            copy@ == self@,
    {
        Model {
            id: self.id,
            title: self.title.clone(),
            content: self.content.clone(),
            created_at: self.created_at,
            updated_at: self.updated_at,
        }
    }
}

/// The card with the title and the content replaced where new ones are
/// given.
pub open spec fn revision(
    card: CardView,
    title: Option<Seq<char>>,
    content: Option<Seq<char>>,
) -> CardView {
    CardView {
        title: match title {
            Some(t) => t,
            None => card.title,
        },
        content: match content {
            Some(c) => c,
            None => card.content,
        },
        ..card
    }
}

/// The rows with the card `id` revised.
pub open spec fn revised(
    rows: Seq<CardView>,
    id: i32,
    title: Option<Seq<char>>,
    content: Option<Seq<char>>,
) -> Seq<CardView> {
    rows.map_values(
        |r: CardView|
            if r.id == id {
                revision(r, title, content)
            } else {
                r
            },
    )
}

} // verus!
