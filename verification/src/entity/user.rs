//! User accounts.

use vstd::prelude::*;
use crate::rows::Row;

verus! {

/// A user account as it is stored.
#[derive(Debug, PartialEq, Eq)]
pub struct Model {
    pub id: i32,
    pub name: String,
}

/// What a stored account says: its identifier and its name.
pub struct UserView {
    pub id: i32,
    pub name: Seq<char>,
}

impl View for Model {
    type V = UserView;

    open spec fn view(&self) -> UserView {
        UserView { id: self.id, name: self.name@ }
    }
}

impl Row for UserView {
    open spec fn row_id(&self) -> i32 {
        self.id
    }
}

impl Clone for Model {
    fn clone(&self) -> (copy: Model)
        ensures
            copy@ == self@,
    {
        Model { id: self.id, name: self.name.clone() }
    }
}

/// The first row with the given name, if there is one.
pub open spec fn by_name(rows: Seq<UserView>, name: Seq<char>) -> Option<UserView>
    decreases rows.len(),
{
    if rows.len() == 0 {
        None
    } else if rows.first().name == name {
        Some(rows.first())
    } else {
        by_name(rows.drop_first(), name)
    }
}

} // verus!
