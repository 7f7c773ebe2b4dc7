//! What the library's calls do, stated of whatever they return: each law takes
//! the arguments and the result of a call and says how they relate.

pub mod apply;
pub mod bindings;
pub mod capture;
pub mod chain;
pub mod connection;
pub mod context;
pub mod decompress;
pub mod fingerprint;
pub mod plan;
pub mod registry;
pub mod sni;
pub mod store;
pub mod wrap;
