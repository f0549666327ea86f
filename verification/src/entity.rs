//! The rows of the tables.

pub mod card;
pub mod onto;
pub mod signifier_signified;
pub mod user;
