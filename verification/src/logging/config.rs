//! What the logging environment says: the `Log` section a binary's config
//! nests, and the resolved `LogConfig` (with `RUST_LOG`, which stays
//! tracing's own variable).

use vstd::prelude::*;

use crate::config::common::format_parse;
pub use crate::config::common::LOG_FORMAT_ACCEPTED;
use crate::config::deployment::{deployment_parse, Deployment, DEPLOYMENT_VARIABLE};
use crate::config::load::Config;
use crate::config::path::Path;
use crate::config::refusal::{refusal_d, refusal_v, Refusal, RefusalV};
use crate::config::schema::{Class, Field, Kind, Presence};
use crate::config::values::{
    first_of, has_path, leaf_gave, leaf_opt_gave, leaf_opt_refusal, leaf_refusal, opt_str, Values,
};
use crate::logging::filter::{designators_parse, Designators, DesignatorsV};
use crate::text::owned;
use tracing_subscriber::EnvFilter;

pub use crate::config::common::Format;

verus! {

pub const DEFAULT_FILTER: &'static str = "info";

pub const RUST_LOG_VARIABLE: &'static str = "RUST_LOG";

pub const LOG_FORMAT_VARIABLE: &'static str = "LOG_FORMAT";

pub const LOG_DESIGNATORS_VARIABLE: &'static str = "LOG_DESIGNATORS";

pub const RUST_LOG_ACCEPTED: &'static str = "comma-separated tracing directives such as \"info\", \"my_crate=debug\" or \"my_crate::module=trace,sqlx=warn\" (unset means \"info\" under DEPLOYMENT_TYPE=prod, \"debug\" under dev)";

#[verifier::external_type_specification]
#[verifier::external_body]
pub struct ExEnvFilter(tracing_subscriber::EnvFilter);

/// What tracing's directive parser says of a filter text: `None` when it
/// reads, else its error's rendering.
pub uninterp spec fn env_filter_error(filter: Seq<char>) -> Option<Seq<char>>;

/// `EnvFilter::try_new`: builds the filter `filter` spells, or renders why
/// it cannot. Which texts read is the directive grammar's, named here.
#[verifier::external_body]
fn env_filter_try_new(filter: &str) -> (r: Result<EnvFilter, String>)
    ensures
        match r {
            Ok(_) => env_filter_error(filter@) is None,
            Err(e) => env_filter_error(filter@) == Some(e@),
        },
{
    EnvFilter::try_new(filter).map_err(|e| e.to_string())
}

/// Nested as `log` in a root (`[log]` in the file, `--log--…` flags); the
/// env spellings are the bare names every operator already sets.
#[derive(Debug, Clone)]
pub struct Log {
    pub format: Format,
    pub designators: Option<String>,
}

pub struct LogV {
    pub format: Format,
    pub designators: Option<Seq<char>>,
}

impl View for Log {
    type V = LogV;

    open spec fn view(&self) -> LogV {
        LogV { format: self.format, designators: crate::text::opt_view(self.designators) }
    }
}

/// What `Log::parse` answers.
pub open spec fn log_parse(format: Option<Seq<char>>, designators: Option<Seq<char>>) -> Result<
    LogV,
    RefusalV,
> {
    match format_parse(format) {
        Err(e) => Err(e),
        Ok(f) => Ok(LogV { format: f, designators }),
    }
}

pub const LOG_FORMAT_HELP: &'static str = "Log line format: json (one object per line) or human.";

pub const LOG_DESIGNATORS_HELP: &'static str = "Per-designator level filter such as \"auth=debug,c-scheduler=info\"; unset passes every designator. ANDed with RUST_LOG.";

impl Log {
    /// The section from its two variables' values.
    pub fn parse(format: Option<&str>, designators: Option<&str>) -> (r: Result<Self, Refusal>)
        ensures
            match r {
                Ok(l) => log_parse(opt_str(format), opt_str(designators)) == Ok::<LogV, RefusalV>(l@),
                Err(e) => log_parse(opt_str(format), opt_str(designators)) == Err::<LogV, RefusalV>(
                    e@,
                ),
            },
    {
        let format = Format::parse(format)?;
        let designators = match designators {
            Some(d) => Some(owned(d)),
            None => None,
        };
        Ok(Log { format, designators })
    }
}

impl Config for Log {
    open spec fn covered(fields: Seq<Field>, prefix: Seq<Seq<char>>) -> bool {
        &&& has_path(fields, prefix.push("format"@))
        &&& has_path(fields, prefix.push("designators"@))
    }

    fn schema(prefix: &Path) -> (r: Vec<Field>) {
        let mut out: Vec<Field> = Vec::new();
        out.push(
            Field {
                path: prefix.child("format"),
                help: owned(LOG_FORMAT_HELP),
                presence: Presence::Default(owned("json")),
                class: Class::Neutral,
                secret: false,
                kind: Kind::Text,
                env: Some(owned(LOG_FORMAT_VARIABLE)),
                flag: None,
            },
        );
        out.push(
            Field {
                path: prefix.child("designators"),
                help: owned(LOG_DESIGNATORS_HELP),
                presence: Presence::Optional,
                class: Class::Neutral,
                secret: false,
                kind: Kind::Text,
                env: Some(owned(LOG_DESIGNATORS_VARIABLE)),
                flag: None,
            },
        );
        assert(out@[0].path@ == prefix@.push("format"@));
        assert(out@[1].path@ == prefix@.push("designators"@));
        out
    }

    /// The two leaves read in order; the first refusal is the answer.
    fn from_values(values: &Values, prefix: &Path) -> (r: Result<Self, Refusal>)
        ensures
            ({
                let f = prefix@.push("format"@);
                let d = prefix@.push("designators"@);
                let refused = first_of(
                    leaf_refusal::<Format>(*values, f, Some(LOG_FORMAT_ACCEPTED@)),
                    leaf_opt_refusal::<String>(*values, d, None),
                );
                match r {
                    Ok(c) => refused is None && leaf_gave(*values, f, c.format) && leaf_opt_gave(
                        *values,
                        d,
                        c.designators,
                    ),
                    Err(e) => refused == Some(e@),
                }
            }),
    {
        let format = values.leaf::<Format>(&prefix.child("format"), Some(LOG_FORMAT_ACCEPTED))?;
        let designators = values.leaf_opt::<String>(&prefix.child("designators"), None)?;
        Ok(Log { format, designators })
    }
}

/// The resolved logging configuration.
#[derive(Debug, Clone)]
pub struct LogConfig {
    pub format: Format,
    pub deployment: Deployment,
    pub filter: String,
    pub designators: Designators,
}

pub struct LogConfigV {
    pub format: Format,
    pub deployment: Deployment,
    pub filter: Seq<char>,
    pub designators: DesignatorsV,
}

impl View for LogConfig {
    type V = LogConfigV;

    open spec fn view(&self) -> LogConfigV {
        LogConfigV {
            format: self.format,
            deployment: self.deployment,
            filter: self.filter@,
            designators: self.designators@,
        }
    }
}

/// The tracing filter: `RUST_LOG` when set and non-empty, else `info` under
/// prod and `debug` under dev.
pub open spec fn filter_for(deployment: Deployment, rust_log: Option<Seq<char>>) -> Seq<char> {
    match rust_log {
        Some(s) => if s.len() > 0 {
            s
        } else {
            match deployment {
                Deployment::Prod => "info"@,
                Deployment::Dev => "debug"@,
            }
        },
        None => match deployment {
            Deployment::Prod => "info"@,
            Deployment::Dev => "debug"@,
        },
    }
}

/// The refusal of a filter tracing cannot read.
pub open spec fn rust_log_refusal(filter: Seq<char>, error: Seq<char>) -> RefusalV {
    refusal_d(RUST_LOG_VARIABLE@, filter, RUST_LOG_ACCEPTED@, error)
}

/// What assembling a configuration answers: the designators' refusal, then
/// the filter's, else the configuration.
pub open spec fn assemble_spec(
    format: Format,
    deployment: Deployment,
    rust_log: Option<Seq<char>>,
    designators: Option<Seq<char>>,
) -> Result<LogConfigV, RefusalV> {
    let filter = filter_for(deployment, rust_log);
    match designators_parse(designators) {
        Err(e) => Err(e),
        Ok(d) => match env_filter_error(filter) {
            Some(err) => Err(rust_log_refusal(filter, err)),
            None => Ok(LogConfigV { format, deployment, filter, designators: d }),
        },
    }
}

/// What `LogConfig::resolve` answers: the format's refusal, then the
/// deployment's, then what assembling answers.
/// What a refusal of an unset `DEPLOYMENT_TYPE` says is accepted: logging
/// has no default deployment to fall back to.
pub const DEPLOYMENT_REQUIRED: &'static str = "one of [\"prod\", \"dev\"]";

pub open spec fn resolve_spec(
    log_format: Option<Seq<char>>,
    deployment_type: Option<Seq<char>>,
    rust_log: Option<Seq<char>>,
    designators: Option<Seq<char>>,
) -> Result<LogConfigV, RefusalV> {
    match format_parse(log_format) {
        Err(e) => Err(e),
        Ok(f) => match deployment_type {
            None => Err(refusal_v(DEPLOYMENT_VARIABLE@, "unset"@, DEPLOYMENT_REQUIRED@)),
            Some(_) => match deployment_parse(deployment_type) {
                Err(e) => Err(e),
                Ok(d) => assemble_spec(f, d, rust_log, designators),
            },
        },
    }
}

fn filter_text(deployment: Deployment, rust_log: Option<&str>) -> (r: String)
    ensures
        r@ == filter_for(deployment, opt_str(rust_log)),
{
    match rust_log {
        Some(s) => {
            if s.unicode_len() > 0 {
                return owned(s);
            }
        },
        None => {},
    }
    match deployment {
        Deployment::Prod => owned("info"),
        Deployment::Dev => owned("debug"),
    }
}

impl LogConfig {
    /// From the four variables' values.
    pub fn resolve(
        log_format: Option<&str>,
        deployment_type: Option<&str>,
        rust_log: Option<&str>,
        log_designators: Option<&str>,
    ) -> (r: Result<Self, Refusal>)
        ensures
            match r {
                Ok(c) => resolve_spec(
                    opt_str(log_format),
                    opt_str(deployment_type),
                    opt_str(rust_log),
                    opt_str(log_designators),
                ) == Ok::<LogConfigV, RefusalV>(c@),
                Err(e) => resolve_spec(
                    opt_str(log_format),
                    opt_str(deployment_type),
                    opt_str(rust_log),
                    opt_str(log_designators),
                ) == Err::<LogConfigV, RefusalV>(e@),
            },
    {
        let format = Format::parse(log_format)?;
        if deployment_type.is_none() {
            return Err(Refusal::new(DEPLOYMENT_VARIABLE, "unset", DEPLOYMENT_REQUIRED));
        }
        let deployment = Deployment::parse(deployment_type)?;
        Self::assemble(format, deployment, rust_log, log_designators)
    }

    /// From a loaded `Log` section and the root's deployment, plus `RUST_LOG`.
    pub fn from_log(log: &Log, deployment: Deployment, rust_log: Option<&str>) -> (r: Result<
        Self,
        Refusal,
    >)
        ensures
            match r {
                Ok(c) => assemble_spec(log.format, deployment, opt_str(rust_log), log@.designators)
                    == Ok::<LogConfigV, RefusalV>(c@),
                Err(e) => assemble_spec(log.format, deployment, opt_str(rust_log), log@.designators)
                    == Err::<LogConfigV, RefusalV>(e@),
            },
    {
        let designators = match &log.designators {
            Some(d) => Some(d.as_str()),
            None => None,
        };
        Self::assemble(log.format, deployment, rust_log, designators)
    }

    fn assemble(
        format: Format,
        deployment: Deployment,
        rust_log: Option<&str>,
        log_designators: Option<&str>,
    ) -> (r: Result<Self, Refusal>)
        ensures
            match r {
                Ok(c) => assemble_spec(format, deployment, opt_str(rust_log), opt_str(log_designators))
                    == Ok::<LogConfigV, RefusalV>(c@),
                Err(e) => assemble_spec(
                    format,
                    deployment,
                    opt_str(rust_log),
                    opt_str(log_designators),
                ) == Err::<LogConfigV, RefusalV>(e@),
            },
    {
        let filter = filter_text(deployment, rust_log);
        let designators = Designators::parse(log_designators)?;
        let resolved = LogConfig { format, deployment, filter, designators };
        match resolved.env_filter() {
            Ok(_) => Ok(resolved),
            Err(e) => Err(e),
        }
    }

    /// The tracing filter the configuration names.
    pub fn env_filter(&self) -> (r: Result<EnvFilter, Refusal>)
        ensures
            match r {
                Ok(_) => env_filter_error(self.filter@) is None,
                Err(e) => env_filter_error(self.filter@) matches Some(err) && e@ == rust_log_refusal(
                    self.filter@,
                    err,
                ),
            },
    {
        match env_filter_try_new(self.filter.as_str()) {
            Ok(f) => Ok(f),
            Err(e) => Err(
                Refusal::new(RUST_LOG_VARIABLE, self.filter.clone(), RUST_LOG_ACCEPTED).with_detail(e),
            ),
        }
    }

    /// json, dev, `info`, everything passes: what a refusal is logged with
    /// before any configuration could be read.
    pub fn fallback() -> (r: Self)
        ensures
            r@.format == Format::Json,
            r@.deployment == Deployment::Dev,
            r@.filter == DEFAULT_FILTER@,
            r@.designators == crate::logging::filter::permissive_v(),
    {
        LogConfig {
            format: Format::Json,
            deployment: Deployment::Dev,
            filter: owned(DEFAULT_FILTER),
            designators: Designators::permissive(),
        }
    }
}

impl Default for LogConfig {
    fn default() -> (r: Self)
        ensures
            r@.format == Format::Json,
            r@.deployment == Deployment::Dev,
            r@.filter == DEFAULT_FILTER@,
            r@.designators == crate::logging::filter::permissive_v(),
    {
        Self::fallback()
    }
}

} // verus!
