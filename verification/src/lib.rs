//! A simple service manager: the state machines of its server and its client.

pub mod client;
pub mod client_effects;
pub mod common;
pub mod copies;
pub mod feed;
pub mod ids;
pub mod laws;
pub mod list;
pub mod model;
pub mod paths;
pub mod server;
pub mod server_effects;
pub mod service;
