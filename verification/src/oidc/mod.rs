//! Identity and authorization: the caller, the access-control algebra, the
//! server-side stores, the page block, and the decisions the web layer makes.

pub mod error;
pub mod principal;
pub mod predicate;
pub mod url;
pub mod config;
pub mod web;
pub mod store;
pub mod page_config;
pub mod source_state;
pub mod auth;
pub mod section;
pub mod resolve;
pub mod bearer;
