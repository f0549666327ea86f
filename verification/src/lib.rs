//! A small directed knowledge graph: concept nodes ("ontos") joined by
//! weighted, labelled relations from a signifier to a signified ("signs").
//!
//! The tables live in memory. Every operation states in its contract what it
//! returns and how it changes the tables, and the services keep the graph
//! invariant: relations join two distinct existing nodes, no ordered pair is
//! joined twice, weights lie in the unit interval and names are unique.

pub mod clock;
pub mod database;
pub mod entity;
pub mod error;
pub mod graph;
pub mod handlers;
pub mod laws;
pub mod repositories;
pub mod rows;
pub mod seq_facts;
pub mod services;
pub mod text;
pub mod weight;
