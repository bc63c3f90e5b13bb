//! Whether the sources feeding this binary were committed when it was
//! built, and what that costs a prod boot.

use vstd::prelude::*;

use crate::config::deployment::Deployment;
use crate::text::{append, decimal, decimal_string, owned};

verus! {

/// The paths whose state the build checks.
pub const ARTIFACT_SOURCES: [&'static str; 3] = ["src", "Cargo.toml", "build.rs"];

pub const ARTIFACT_SOURCES_LISTED: &'static str = "src, Cargo.toml, build.rs";

#[derive(Debug, Clone, Copy, PartialEq, Eq, Structural)]
pub enum SourceState {
    Clean,
    Dirty { uncommitted: u64 },
    Unknown,
}

/// The refusal of a prod boot from a dirty tree; every other case boots.
pub open spec fn dirty_refusal_spec(deployment: Deployment, state: SourceState) -> Option<Seq<char>> {
    match (deployment, state) {
        (Deployment::Prod, SourceState::Dirty { uncommitted: n }) => Some(
            "common-oidc was built from a dirty working tree ("@ + decimal(n as nat)
                + " uncommitted file(s) under "@ + ARTIFACT_SOURCES_LISTED@
                + "); the served shim is unreproducible and this is refused under DEPLOYMENT_TYPE=prod. Commit the crate, or build from a clean checkout."@,
        ),
        _ => None,
    }
}

pub fn dirty_source_refusal(deployment: Deployment, state: SourceState) -> (r: Option<String>)
    ensures
        crate::text::opt_view(r) == dirty_refusal_spec(deployment, state),
{
    match (deployment, state) {
        (Deployment::Prod, SourceState::Dirty { uncommitted: n }) => {
            let mut s = owned("common-oidc was built from a dirty working tree (");
            let d = decimal_string(n);
            append(&mut s, d.as_str());
            append(&mut s, " uncommitted file(s) under ");
            append(&mut s, ARTIFACT_SOURCES_LISTED);
            append(
                &mut s,
                "); the served shim is unreproducible and this is refused under DEPLOYMENT_TYPE=prod. Commit the crate, or build from a clean checkout.",
            );
            Some(s)
        },
        _ => None,
    }
}

} // verus!
