pub mod config;
pub mod error;
pub mod laws;
pub mod links;
pub mod paths;
pub mod state;
