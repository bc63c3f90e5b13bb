//! The shared crates behind the Les stand, as one verified library:
//! configuration loading, logging vocabulary, identity and authorization
//! rules, name-rename planning and the secret-store URL contract.

pub mod config;
pub mod logging;
pub mod names;
pub mod oidc;
pub mod routing;
pub mod secrets;
pub mod text;
