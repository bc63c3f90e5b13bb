//! The failure taxonomy. Fail-closed: every path that does not return a
//! value returns one of these. Messages carry the stage and status only,
//! never a credential or a fetched value.

use vstd::prelude::*;

use crate::text::{append, owned};

verus! {

/// Which leg of the login → login → read chain raised the error.
#[derive(Debug, Clone, Copy, PartialEq, Eq, Structural)]
pub enum Stage {
    AuthentikToken,
    VaultLogin,
    VaultRead,
}

pub open spec fn stage_text(s: Stage) -> Seq<char> {
    match s {
        Stage::AuthentikToken => "authentik token request"@,
        Stage::VaultLogin => "OpenBao jwt login"@,
        Stage::VaultRead => "OpenBao kv read"@,
    }
}

impl Stage {
    /// The rendering `Display` gives.
    pub fn as_str(&self) -> (r: &'static str)
        ensures
            r@ == stage_text(*self),
    {
        match self {
            Stage::AuthentikToken => "authentik token request",
            Stage::VaultLogin => "OpenBao jwt login",
            Stage::VaultRead => "OpenBao kv read",
        }
    }

    pub fn to_string(&self) -> (r: String)
        ensures
            r@ == stage_text(*self),
    {
        owned(self.as_str())
    }
}

#[derive(Debug)]
pub enum Error {
    Config(String),
    Network { stage: Stage, detail: String },
    AuthRejected(Stage),
    NotFound,
    Upstream { stage: Stage, detail: String },
}

pub open spec fn error_text(e: Error) -> Seq<char> {
    match e {
        Error::Config(s) => "secret client misconfigured: "@ + s@,
        Error::Network { stage, detail } => "network failure during "@ + stage_text(stage) + ": "@
            + detail@,
        Error::AuthRejected(stage) => "credentials rejected during "@ + stage_text(stage),
        Error::NotFound => "secret not found"@,
        Error::Upstream { stage, detail } => "upstream anomaly during "@ + stage_text(stage)
            + ": "@ + detail@,
    }
}

impl Error {
    /// The rendering `Display` gives.
    pub fn to_string(&self) -> (r: String)
        ensures
            r@ == error_text(*self),
    {
        match self {
            Error::Config(s) => {
                let mut out = owned("secret client misconfigured: ");
                append(&mut out, s.as_str());
                out
            },
            Error::Network { stage, detail } => {
                let mut out = owned("network failure during ");
                append(&mut out, stage.as_str());
                append(&mut out, ": ");
                append(&mut out, detail.as_str());
                out
            },
            Error::AuthRejected(stage) => {
                let mut out = owned("credentials rejected during ");
                append(&mut out, stage.as_str());
                out
            },
            Error::NotFound => owned("secret not found"),
            Error::Upstream { stage, detail } => {
                let mut out = owned("upstream anomaly during ");
                append(&mut out, stage.as_str());
                append(&mut out, ": ");
                append(&mut out, detail.as_str());
                out
            },
        }
    }
}

} // verus!
