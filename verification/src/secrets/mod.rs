//! The secret-store contract: the token form, the store's URLs, how each
//! answer is judged, and what a kv document yields.

pub mod client;
pub mod error;
