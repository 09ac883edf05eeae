//! Front end of the pixie coding agent.

pub mod app;
pub mod cli;
pub mod compat;
pub mod ids;
pub mod json;
pub mod money;
pub mod modes;
pub mod render;
pub mod text;
pub mod tools;
pub mod types;
