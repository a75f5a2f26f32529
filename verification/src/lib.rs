pub mod error;
pub mod herdr;
pub mod hints;
pub mod model;
pub mod patterns;
pub mod picker;
pub mod renderer;
pub mod text;
pub mod viewport;
pub mod cli;
pub mod open_command;
