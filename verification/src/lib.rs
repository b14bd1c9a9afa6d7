//! A connector to Cloud Spanner over its REST interface, without the network: every request is
//! built here, every reply is read here, and what is to be done next is decided here. The caller
//! sends the requests, reads the files and the clock, and hands in what came of it.

pub mod config;
pub mod connect;
pub mod connections;
pub mod connector;
pub mod credentials;
pub mod encoding;
pub mod http;
pub mod json;
pub mod jwt;
pub mod laws;
pub mod metadata;
pub mod redaction;
pub mod reply;
pub mod session;
pub mod text;
pub mod world;
