//! What holds of the library as a whole, beyond the contract of any one function.

pub mod config;
pub mod connect;
pub mod connector;
pub mod credentials;
pub mod encoding;
pub mod http;
pub mod jwt;
pub mod metadata;
pub mod redaction;
pub mod session;
pub mod text;
