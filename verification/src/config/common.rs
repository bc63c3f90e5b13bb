//! The section every binary carries: deployment class and the logging
//! knobs, under their fleet-wide env names, and the log format enum.

use vstd::prelude::*;

use crate::config::deployment::{Deployment, DEPLOYMENT_ACCEPTED};
use crate::config::load::Config;
use crate::config::path::Path;
use crate::config::refusal::{refusal_v, Refusal, RefusalV};
use crate::config::schema::{Class, Field, Kind, Presence};
use crate::config::values::{
    first_of, has_path, leaf_gave, leaf_opt_gave, leaf_opt_refusal, leaf_refusal, opt_str, Leaf, Values,
};
use crate::text::{owned, same};

verus! {

pub const LOG_FORMAT_VARIABLE: &'static str = "LOG_FORMAT";

pub const LOG_DESIGNATORS_VARIABLE: &'static str = "LOG_DESIGNATORS";

/// The `accepted` text of a refused `LOG_FORMAT`, shared by `Format::parse`
/// and the `Common` field.
pub const LOG_FORMAT_ACCEPTED: &'static str = "one of [\"human\", \"json\"] (unset means json)";

#[derive(Debug, Clone, Copy, PartialEq, Eq, Structural)]
pub enum Format {
    Human,
    Json,
}

pub open spec fn format_text(f: Format) -> Seq<char> {
    match f {
        Format::Human => "human"@,
        Format::Json => "json"@,
    }
}

pub open spec fn format_named(text: Seq<char>) -> Option<Format> {
    if text == "human"@ {
        Some(Format::Human)
    } else if text == "json"@ {
        Some(Format::Json)
    } else {
        None
    }
}

/// What `Format::parse` answers: unset is json; a set value must spell a
/// variant exactly.
pub open spec fn format_parse(value: Option<Seq<char>>) -> Result<Format, RefusalV> {
    match value {
        None => Ok(Format::Json),
        Some(text) => match format_named(text) {
            Some(f) => Ok(f),
            None => Err(refusal_v(LOG_FORMAT_VARIABLE@, text, LOG_FORMAT_ACCEPTED@)),
        },
    }
}

/// Every format's spelling parses back to it.
pub proof fn lemma_format_round_trip(f: Format)
    ensures
        format_parse(Some(format_text(f))) == Ok::<Format, RefusalV>(f),
{
    reveal_strlit("human");
    reveal_strlit("json");
    assert("json"@.len() != "human"@.len());
}

fn format_of(text: &str) -> (r: Option<Format>)
    ensures
        r == format_named(text@),
{
    if same(text, "human") {
        Some(Format::Human)
    } else if same(text, "json") {
        Some(Format::Json)
    } else {
        None
    }
}

impl Format {
    /// The spellings, in declaration order.
    pub const VARIANTS: [&'static str; 2] = ["human", "json"];

    /// `None` is json; a set-but-unknown value refuses rather than degrading.
    pub fn parse(value: Option<&str>) -> (r: Result<Self, Refusal>)
        ensures
            match r {
                Ok(f) => format_parse(opt_str(value)) == Ok::<Format, RefusalV>(f),
                Err(e) => format_parse(opt_str(value)) == Err::<Format, RefusalV>(e@),
            },
    {
        match value {
            None => Ok(Format::Json),
            Some(text) => match format_of(text) {
                Some(f) => Ok(f),
                None => Err(Refusal::new(LOG_FORMAT_VARIABLE, text, LOG_FORMAT_ACCEPTED)),
            },
        }
    }

    pub fn as_ref(&self) -> (r: &'static str)
        ensures
            r@ == format_text(*self),
    {
        match self {
            Format::Human => "human",
            Format::Json => "json",
        }
    }

    /// The rendering `Display` gives: the wire spelling.
    pub fn to_string(&self) -> (r: String)
        ensures
            r@ == format_text(*self),
    {
        owned(self.as_ref())
    }
}

impl Leaf for Format {
    open spec fn parse_error(text: Seq<char>) -> Option<Seq<char>> {
        match format_named(text) {
            Some(_) => None,
            None => Some(crate::config::deployment::NO_VARIANT@),
        }
    }

    open spec fn reads_as(text: Seq<char>, v: Format) -> bool {
        format_named(text) == Some(v)
    }

    open spec fn type_path_spec() -> Seq<char> {
        "common_rust::config::common::Format"@
    }

    fn parse_leaf(text: &str) -> (r: Result<Format, String>) {
        match format_of(text) {
            Some(f) => Ok(f),
            None => Err(owned(crate::config::deployment::NO_VARIANT)),
        }
    }

    fn type_path() -> (r: String) {
        owned("common_rust::config::common::Format")
    }
}

pub const DEPLOYMENT_FIELD_HELP: &'static str = "Deployment class: prod or dev. Sets the default log verbosity; which options are prod-required or dev-only is the binary's own rule.";

pub const LOG_FORMAT_HELP: &'static str = "Log line format: json (one object per line) or human.";

pub const LOG_DESIGNATORS_HELP: &'static str = "Per-designator level filter such as \"auth=debug,c-scheduler=info\"; unset passes every designator. ANDed with RUST_LOG.";

/// Nested as `common` in every root (`[common]` in the file, `--common--…`
/// flags); the env spellings are the fleet-wide bare names.
#[derive(Debug, Clone)]
pub struct Common {
    pub deployment: Deployment,
    pub log_format: Format,
    pub log_designators: Option<String>,
}

impl Config for Common {
    open spec fn covered(fields: Seq<Field>, prefix: Seq<Seq<char>>) -> bool {
        &&& has_path(fields, prefix.push("deployment"@))
        &&& has_path(fields, prefix.push("log_format"@))
        &&& has_path(fields, prefix.push("log_designators"@))
    }

    fn schema(prefix: &Path) -> (r: Vec<Field>) {
        let mut out: Vec<Field> = Vec::new();
        out.push(
            Field {
                path: prefix.child("deployment"),
                help: owned(DEPLOYMENT_FIELD_HELP),
                presence: Presence::Default(owned("dev")),
                class: Class::Neutral,
                secret: false,
                kind: Kind::Text,
                env: Some(owned("DEPLOYMENT_TYPE")),
                flag: None,
            },
        );
        out.push(
            Field {
                path: prefix.child("log_format"),
                help: owned(LOG_FORMAT_HELP),
                presence: Presence::Default(owned("json")),
                class: Class::Neutral,
                secret: false,
                kind: Kind::Text,
                env: Some(owned("LOG_FORMAT")),
                flag: None,
            },
        );
        out.push(
            Field {
                path: prefix.child("log_designators"),
                help: owned(LOG_DESIGNATORS_HELP),
                presence: Presence::Optional,
                class: Class::Neutral,
                secret: false,
                kind: Kind::Text,
                env: Some(owned("LOG_DESIGNATORS")),
                flag: None,
            },
        );
        assert(out@[0].path@ == prefix@.push("deployment"@));
        assert(out@[1].path@ == prefix@.push("log_format"@));
        assert(out@[2].path@ == prefix@.push("log_designators"@));
        out
    }

    /// The three leaves read in order; the first refusal is the answer.
    fn from_values(values: &Values, prefix: &Path) -> (r: Result<Self, Refusal>)
        ensures
            ({
                let d = prefix@.push("deployment"@);
                let f = prefix@.push("log_format"@);
                let g = prefix@.push("log_designators"@);
                let refused = first_of(
                    leaf_refusal::<Deployment>(*values, d, Some(DEPLOYMENT_ACCEPTED@)),
                    first_of(
                        leaf_refusal::<Format>(*values, f, Some(LOG_FORMAT_ACCEPTED@)),
                        leaf_opt_refusal::<String>(*values, g, None),
                    ),
                );
                match r {
                    Ok(c) => refused is None && leaf_gave(*values, d, c.deployment) && leaf_gave(
                        *values,
                        f,
                        c.log_format,
                    ) && leaf_opt_gave(*values, g, c.log_designators),
                    Err(e) => refused == Some(e@),
                }
            }),
    {
        let deployment = values.leaf::<Deployment>(
            &prefix.child("deployment"),
            Some(DEPLOYMENT_ACCEPTED),
        )?;
        let log_format = values.leaf::<Format>(&prefix.child("log_format"), Some(LOG_FORMAT_ACCEPTED))?;
        let log_designators = values.leaf_opt::<String>(&prefix.child("log_designators"), None)?;
        Ok(Common { deployment, log_format, log_designators })
    }
}

} // verus!
