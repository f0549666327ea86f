//! What goes over the wire: the shapes of requests and responses, and how
//! rows become responses.

pub mod card;
pub mod onto;
pub mod sign;
pub mod user;
