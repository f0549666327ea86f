//! Directed relations from a signifier node to a signified node.

use vstd::prelude::*;
use crate::clock::Timestamp;
use crate::rows::Row;
use crate::text::optional_text;
use crate::weight::Weight;

verus! {

/// A relation as it is stored.
#[derive(Debug, PartialEq, Eq)]
pub struct Model {
    pub id: i32,
    /// The node the relation starts from.
    pub signifier_id: i32,
    /// The node the relation points to.
    pub signified_id: i32,
    /// How strong the relation is, where that was said.
    pub weight: Option<Weight>,
    /// What kind of relation it is, where that was said.
    pub relation_type: Option<String>,
    /// When the relation was stored.
    pub created_at: Timestamp,
}

/// What a stored relation says.
pub struct SignView {
    pub id: i32,
    pub signifier_id: i32,
    pub signified_id: i32,
    pub weight: Option<Weight>,
    pub relation_type: Option<Seq<char>>,
    pub created_at: Timestamp,
}

impl View for Model {
    type V = SignView;

    open spec fn view(&self) -> SignView {
        SignView {
            id: self.id,
            signifier_id: self.signifier_id,
            signified_id: self.signified_id,
            weight: self.weight,
            relation_type: optional_text(self.relation_type),
            created_at: self.created_at,
        }
    }
}

impl Row for SignView {
    open spec fn row_id(&self) -> i32 {
        self.id
    }
}

impl Clone for Model {
    fn clone(&self) -> (copy: Model)
        ensures
            copy@ == self@,
    {
        let relation_type = match &self.relation_type {
            Some(s) => Some(s.clone()),
            None => None,
        };
        Model {
            id: self.id,
            signifier_id: self.signifier_id,
            signified_id: self.signified_id,
            weight: self.weight,
            relation_type,
            created_at: self.created_at,
        }
    }
}

/// The two ends of a relation, each a reference to a node.
#[derive(Clone, Copy, Debug, PartialEq, Eq, Structural)]
pub enum Relation {
    /// The end the relation starts from.
    Signifier,
    /// The end the relation points to.
    Signified,
}

impl Relation {
    /// The node at this end of the relation.
    pub open spec fn spec_end_of(&self, sign: SignView) -> i32 {
        match *self {
            Relation::Signifier => sign.signifier_id,
            Relation::Signified => sign.signified_id,
        }
    }

    /// The node at this end of the relation.
    pub fn end_of(&self, sign: &Model) -> (node: i32)
        ensures
            node == self.spec_end_of(sign@),
    {
        match self {
            Relation::Signifier => sign.signifier_id,
            Relation::Signified => sign.signified_id,
        }
    }
}

/// The test that a relation passes when it has the node at the given end.
pub open spec fn at(end: Relation, node: i32) -> spec_fn(SignView) -> bool {
    |s: SignView| end.spec_end_of(s) == node
}

/// The test that a relation passes when it does not have the node at the
/// given end.
pub open spec fn away_from(end: Relation, node: i32) -> spec_fn(SignView) -> bool {
    |s: SignView| end.spec_end_of(s) != node
}

/// The rows that have the node at the given end, in their order.
pub open spec fn touching(rows: Seq<SignView>, end: Relation, node: i32) -> Seq<SignView> {
    rows.filter(at(end, node))
}

/// The rows that do not have the node at the given end, in their order.
pub open spec fn clear_of(rows: Seq<SignView>, end: Relation, node: i32) -> Seq<SignView> {
    rows.filter(away_from(end, node))
}

/// Whether some row joins the ordered pair.
pub open spec fn joined(rows: Seq<SignView>, signifier_id: i32, signified_id: i32) -> bool {
    exists|i: int|
        0 <= i < rows.len() && (#[trigger] rows[i]).signifier_id == signifier_id
            && rows[i].signified_id == signified_id
}

/// A pair is joined exactly when some row of the table joins it.
pub proof fn lemma_joined(rows: Seq<SignView>, signifier_id: i32, signified_id: i32)
    ensures
        joined(rows, signifier_id, signified_id) <==> exists|s: SignView|
            #[trigger] rows.contains(s) && s.signifier_id == signifier_id && s.signified_id
                == signified_id,
{
    if joined(rows, signifier_id, signified_id) {
        let i = choose|i: int|
            0 <= i < rows.len() && (#[trigger] rows[i]).signifier_id == signifier_id
                && rows[i].signified_id == signified_id;
        assert(rows.contains(rows[i]));
    }
    if exists|s: SignView|
        #[trigger] rows.contains(s) && s.signifier_id == signifier_id && s.signified_id
            == signified_id {
        let s = choose|s: SignView|
            #[trigger] rows.contains(s) && s.signifier_id == signifier_id && s.signified_id
                == signified_id;
        let i = choose|i: int| 0 <= i < rows.len() && rows[i] == s;
        assert(rows[i].signifier_id == signifier_id);
    }
}

} // verus!
