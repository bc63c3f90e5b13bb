//! Handlers exported to a generated client: what a caller supplies and
//! what comes back, read off the handler's signature.

pub mod signature;
