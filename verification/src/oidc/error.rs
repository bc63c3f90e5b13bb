//! The crate's error types and their renderings.

use vstd::prelude::*;

use crate::text::{append, owned};

verus! {

/// What the identity provider did with a call.
#[derive(Debug, Clone, PartialEq, Eq)]
pub enum Upstream {
    Rejected(String),
    Unreachable(String),
}

impl Upstream {
    /// The rendering `Display` gives.
    pub fn to_string(&self) -> (r: String)
        ensures
            r@ == match self {
                Upstream::Rejected(why) => "rejected by the IdP: "@ + why@,
                Upstream::Unreachable(why) => "no answer from the IdP: "@ + why@,
            },
    {
        match self {
            Upstream::Rejected(why) => {
                let mut s = owned("rejected by the IdP: ");
                append(&mut s, why.as_str());
                s
            },
            Upstream::Unreachable(why) => {
                let mut s = owned("no answer from the IdP: ");
                append(&mut s, why.as_str());
                s
            },
        }
    }

    /// Whether another attempt may help: only when the provider did not
    /// answer. A rejection is final.
    pub fn is_retryable(&self) -> (r: bool)
        ensures
            r == (self is Unreachable),
    {
        match self {
            Upstream::Rejected(_) => false,
            Upstream::Unreachable(_) => true,
        }
    }
}

#[derive(Debug)]
pub enum OidcError {
    Discovery(String),
    Exchange(String),
    Refresh(String),
    Userinfo(String),
    Config(String),
    Assets(String),
}

/// The prefix each error's rendering starts with.
pub open spec fn oidc_error_prefix(e: OidcError) -> Seq<char> {
    match e {
        OidcError::Discovery(_) => "OIDC discovery failed: "@,
        OidcError::Exchange(_) => "token exchange failed: "@,
        OidcError::Refresh(_) => "token refresh failed: "@,
        OidcError::Userinfo(_) => "userinfo rejected/unreachable: "@,
        OidcError::Config(_) => "invalid configuration: "@,
        OidcError::Assets(_) => "asset setup failed: "@,
    }
}

pub open spec fn oidc_error_detail(e: OidcError) -> Seq<char> {
    match e {
        OidcError::Discovery(s) => s@,
        OidcError::Exchange(s) => s@,
        OidcError::Refresh(s) => s@,
        OidcError::Userinfo(s) => s@,
        OidcError::Config(s) => s@,
        OidcError::Assets(s) => s@,
    }
}

impl OidcError {
    /// The rendering `Display` gives.
    pub fn to_string(&self) -> (r: String)
        ensures
            r@ == oidc_error_prefix(*self) + oidc_error_detail(*self),
    {
        let (prefix, detail) = match self {
            OidcError::Discovery(s) => ("OIDC discovery failed: ", s),
            OidcError::Exchange(s) => ("token exchange failed: ", s),
            OidcError::Refresh(s) => ("token refresh failed: ", s),
            OidcError::Userinfo(s) => ("userinfo rejected/unreachable: ", s),
            OidcError::Config(s) => ("invalid configuration: ", s),
            OidcError::Assets(s) => ("asset setup failed: ", s),
        };
        let mut out = owned(prefix);
        append(&mut out, detail.as_str());
        out
    }
}

/// Why a bearer token did not yield a principal.
#[derive(Debug)]
pub enum ValidationError {
    Rejected,
    Upstream(String),
}

impl ValidationError {
    /// The rendering `Display` gives.
    pub fn to_string(&self) -> (r: String)
        ensures
            r@ == match self {
                ValidationError::Rejected => "access token rejected by authentik"@,
                ValidationError::Upstream(s) => s@,
            },
    {
        match self {
            ValidationError::Rejected => owned("access token rejected by authentik"),
            ValidationError::Upstream(s) => s.clone(),
        }
    }
}

} // verus!
