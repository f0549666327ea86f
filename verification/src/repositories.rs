//! The tables: rows kept in the order in which they were inserted.

use vstd::prelude::*;

pub mod card;
pub mod onto;
pub mod sign;
pub mod user;

verus! {

/// What a removal did to a table.
#[derive(Clone, Copy, Debug, PartialEq, Eq, Structural)]
pub struct DeleteResult {
    /// How many rows left the table.
    pub rows_affected: u64,
}

} // verus!
