//! What the server's clients send and get.
pub mod handlers;
pub mod models;
