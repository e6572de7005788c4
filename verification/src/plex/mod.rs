pub mod client;
pub mod library;
pub mod models;
pub mod server;
pub mod sessions;
