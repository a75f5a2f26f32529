pub mod inline;
pub mod terminal;
