//! ClientHello fingerprints: what they hold, how they are read from a captured
//! ClientHello, and how they configure a TLS handle.

pub mod apply;
pub mod capture;
pub mod spec;
pub mod wire;
