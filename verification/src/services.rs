//! The services: the only way in which the graph is meant to change.

pub mod card;
pub mod html;
pub mod onto;
pub mod sign;
