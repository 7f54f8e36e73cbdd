//! Operations behind the application's commands.
pub mod agent;
pub mod canvas;
pub mod data_dir;
pub mod greeter;
