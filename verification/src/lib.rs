//! TLS ClientHello fingerprints and the decisions of a TLS context.

pub mod alpn;
pub mod bindings;
pub mod chain;
pub mod connection;
pub mod context;
pub mod decompress;
pub mod error;
pub mod fingerprint;
pub mod laws;
pub mod lists;
pub mod plan;
pub mod registry;
pub mod sni;
pub mod store;
pub mod text;
pub mod wrap;
