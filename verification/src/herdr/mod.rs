pub mod client;
pub mod executor;
pub mod launch;
pub mod layout;
