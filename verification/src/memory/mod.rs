//! URI-graph memory system: persistent, structured memory stored in SQLite
//! with URI-based routing (`domain://path`), versioned content and
//! full-text search.
pub mod alias;
pub mod boot;
pub mod chat_store;
pub mod db;
pub mod format;
pub mod glossary;
pub mod graph;
pub mod models;
pub mod read;
pub mod search;
pub mod tools;
pub mod uri;
pub mod write;
