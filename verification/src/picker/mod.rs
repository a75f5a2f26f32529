pub mod input;
pub mod render;
pub mod session;
