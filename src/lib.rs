//! Bookmark and group management for a command launcher: a small entity store
//! with identifier allocation and referential integrity, a query router, and
//! the builder that turns a query into the list of results shown to the user.

pub mod commands;
pub mod laws;
pub mod matcher;
pub mod order;
pub mod paths;
pub mod query;
pub mod results;
pub mod settings;
pub mod store;
