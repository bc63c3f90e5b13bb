//! The deployment class: prod or dev, and its parse.

use vstd::prelude::*;

use crate::config::refusal::{refusal_v, Refusal, RefusalV};
use crate::config::values::Leaf;
use crate::text::{owned, same};

verus! {

pub const DEPLOYMENT_VARIABLE: &'static str = "DEPLOYMENT_TYPE";

/// The `accepted` text of a refused `DEPLOYMENT_TYPE`, shared by `parse`
/// and the root's `deployment` field so the two spell it alike.
pub const DEPLOYMENT_ACCEPTED: &'static str = "one of [\"prod\", \"dev\"] (unset means dev)";

/// The help of a root's `deployment` field when the root documents none.
pub const DEPLOYMENT_HELP: &'static str = "Deployment class: prod or dev. Sets the default log verbosity; which options are prod-required or dev-only is the binary's own rule.";

/// The message a text that names no variant reads with.
pub const NO_VARIANT: &'static str = "Matching variant not found";

#[derive(Debug, Clone, Copy, PartialEq, Eq, Structural)]
pub enum Deployment {
    Prod,
    Dev,
}

/// The spelling of a deployment on the wire.
pub open spec fn deployment_text(d: Deployment) -> Seq<char> {
    match d {
        Deployment::Prod => "prod"@,
        Deployment::Dev => "dev"@,
    }
}

/// The deployment a text spells exactly, if any.
pub open spec fn deployment_named(text: Seq<char>) -> Option<Deployment> {
    if text == "prod"@ {
        Some(Deployment::Prod)
    } else if text == "dev"@ {
        Some(Deployment::Dev)
    } else {
        None
    }
}

/// What `Deployment::parse` answers: unset is dev; a set value must spell a
/// variant exactly.
pub open spec fn deployment_parse(value: Option<Seq<char>>) -> Result<Deployment, RefusalV> {
    match value {
        None => Ok(Deployment::Dev),
        Some(text) => match deployment_named(text) {
            Some(d) => Ok(d),
            None => Err(refusal_v(DEPLOYMENT_VARIABLE@, text, DEPLOYMENT_ACCEPTED@)),
        },
    }
}

/// Every deployment's spelling parses back to it.
pub proof fn lemma_deployment_round_trip(d: Deployment)
    ensures
        deployment_parse(Some(deployment_text(d))) == Ok::<Deployment, RefusalV>(d),
{
    reveal_strlit("prod");
    reveal_strlit("dev");
    assert("dev"@.len() != "prod"@.len());
}

impl Deployment {
    /// The spellings, in declaration order.
    pub const VARIANTS: [&'static str; 2] = ["prod", "dev"];

    /// `None` is dev; a set-but-unknown value refuses rather than degrading.
    pub fn parse(value: Option<&str>) -> (r: Result<Self, Refusal>)
        ensures
            match r {
                Ok(d) => deployment_parse(crate::config::values::opt_str(value)) == Ok::<
                    Deployment,
                    RefusalV,
                >(d),
                Err(e) => deployment_parse(crate::config::values::opt_str(value)) == Err::<
                    Deployment,
                    RefusalV,
                >(e@),
            },
    {
        match value {
            None => Ok(Deployment::Dev),
            Some(text) => match named(text) {
                Some(d) => Ok(d),
                None => Err(Refusal::new(DEPLOYMENT_VARIABLE, text, DEPLOYMENT_ACCEPTED)),
            },
        }
    }

    pub fn as_ref(&self) -> (r: &'static str)
        ensures
            r@ == deployment_text(*self),
    {
        match self {
            Deployment::Prod => "prod",
            Deployment::Dev => "dev",
        }
    }

    /// The rendering `Display` gives: the wire spelling.
    pub fn to_string(&self) -> (r: String)
        ensures
            r@ == deployment_text(*self),
    {
        owned(self.as_ref())
    }
}

fn named(text: &str) -> (r: Option<Deployment>)
    ensures
        r == deployment_named(text@),
{
    if same(text, "prod") {
        Some(Deployment::Prod)
    } else if same(text, "dev") {
        Some(Deployment::Dev)
    } else {
        None
    }
}

impl Leaf for Deployment {
    open spec fn parse_error(text: Seq<char>) -> Option<Seq<char>> {
        match deployment_named(text) {
            Some(_) => None,
            None => Some(NO_VARIANT@),
        }
    }

    open spec fn reads_as(text: Seq<char>, v: Deployment) -> bool {
        deployment_named(text) == Some(v)
    }

    open spec fn type_path_spec() -> Seq<char> {
        "common_rust::config::deployment::Deployment"@
    }

    fn parse_leaf(text: &str) -> (r: Result<Deployment, String>) {
        match named(text) {
            Some(d) => Ok(d),
            None => Err(owned(NO_VARIANT)),
        }
    }

    fn type_path() -> (r: String) {
        owned("common_rust::config::deployment::Deployment")
    }
}

} // verus!
