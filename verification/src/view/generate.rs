//! Turning a view into the code that renders it.

pub mod client;
pub mod server;
