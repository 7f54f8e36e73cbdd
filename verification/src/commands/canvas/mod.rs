//! Canvas LMS integration: courses, assignments and completion tracking.
pub mod client;
pub mod commands;
pub mod types;
