//! The pure parts of the API server's handlers.

pub mod metrics;
pub mod handlers;
pub mod requests;
