//! Core logic of the qtools desktop assistant: URI-routed memory graph,
//! conversation storage, Canvas LMS helpers and settings, verified with Verus.
pub mod agent;
pub mod commands;
pub mod data_dir;
pub mod error;
pub mod memory;
pub mod text;
