//! The config load pipeline: schema → args → merge → typed parse. Sources are
//! defaults < file < env < args, later wins per field, every value stamped
//! with its origin.

pub mod args;
pub mod path;
pub mod refusal;
pub mod schema;
pub mod table;
pub mod values;
pub mod file;
pub mod layers;
pub mod deployment;
pub mod common;
pub mod load;
pub mod class;
pub mod help;
pub mod derive;
