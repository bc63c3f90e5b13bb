use common_rust::logging::config::{
    Format, Log, LogConfig, LOG_FORMAT_ACCEPTED, LOG_FORMAT_VARIABLE,
};
use common_rust::config::deployment::Deployment;
use common_rust::logging::designator::{
    Designator, AUTH, BUSINESS, HTTP, STAND, STARTUP, STORAGE, UPSTREAM,
};
use common_rust::logging::filter::Designators;
use common_rust::logging::format::{human_line, retained_fields, span_fields, trim_quotes, unquote, EventFields, ReqCtx};
use common_rust::logging::level::{parse_level_filter, Level, LevelFilter};
use common_rust::logging::span::{or_list, reqid_from, spelled_at, FixedField, StrEnum};
use common_rust::logging::designator::FIELD;
use common_rust::config::file::FileRead;
use common_rust::config::load::{load_from, Config, ConfigFiles, Outcome, Root};
use common_rust::config::path::Path;
use common_rust::config::refusal::Refusal;
use common_rust::config::schema::Field;
use common_rust::config::values::Values;

#[test]
fn the_sealed_log_reads_its_own_two_variables() {
    let set = Log::parse(Some("human"), Some("auth=debug")).expect("parse");
    assert_eq!(set.format, Format::Human);
    assert_eq!(set.designators.as_deref(), Some("auth=debug"));
    let unset = Log::parse(None, None).expect("parse");
    assert_eq!(unset.format, Format::Json, "unset LOG_FORMAT is json");
    assert!(unset.designators.is_none());
    let refused = Log::parse(Some("xml"), None).expect_err("a bad format must refuse");
    assert_eq!(refused.variable, LOG_FORMAT_VARIABLE);
    assert_eq!(refused.value, "xml");
    assert!(refused.accepted.contains(LOG_FORMAT_ACCEPTED));
}

#[test]
fn the_declared_format_spellings_are_the_ones_on_the_wire() {
    assert_eq!(Format::VARIANTS, ["human", "json"]);
    assert_eq!(
        LOG_FORMAT_ACCEPTED,
        format!("one of {:?} (unset means json)", Format::VARIANTS)
    );
}

#[test]
fn stand_variants_display_their_column_string_and_parse_back() {
    for (d, column) in [
        (AUTH, "auth"),
        (BUSINESS, "business"),
        (UPSTREAM, "upstream"),
        (STORAGE, "storage"),
        (HTTP, "http"),
        (STARTUP, "startup"),
    ] {
        assert_eq!(d.to_string(), column);
        assert_eq!(d.as_ref(), column);
        assert_eq!(Designator::from_str(column), Ok(d.clone()));
        assert!(d.is_well_formed());
    }
    assert_eq!(STAND.len(), 6);
}

#[test]
fn custom_prefixes_c_and_round_trips_through_the_column_string() {
    let d = Designator::from("scheduler");
    assert_eq!(d, Designator::Custom("c-scheduler".into()));
    assert_eq!(d.to_string(), "c-scheduler");
    assert_eq!(Designator::from_str("c-scheduler"), Ok(d.clone()));
    assert!(d.is_well_formed());
    assert_eq!(Designator::from(String::from("logs")).to_string(), "c-logs");
}

#[test]
fn an_unprefixed_stranger_parses_as_custom_but_is_not_well_formed() {
    let d = Designator::from_str("scheduler").unwrap();
    assert_eq!(d, Designator::Custom("scheduler".into()));
    assert!(!d.is_well_formed(), "the filter must refuse it");
    assert!(!Designator::from_str("AUTH").unwrap().is_well_formed());
}

#[test]
fn the_vocabulary_spells_the_names_request_span_declares() {
    assert_eq!(FixedField::ReqId.as_ref(), "reqid");
    assert_eq!(FixedField::Actor.as_ref(), "actor");
}

#[derive(Debug, Clone, Copy, PartialEq, Eq)]
enum Colour {
    Red,
    SeaGreen,
}

impl StrEnum for Colour {
    fn all() -> Vec<Colour> {
        vec![Colour::Red, Colour::SeaGreen]
    }

    fn as_str(self) -> &'static str {
        match self {
            Colour::Red => "red",
            Colour::SeaGreen => "sea-green",
        }
    }
}

impl std::fmt::Display for Colour {
    fn fmt(&self, f: &mut std::fmt::Formatter<'_>) -> std::fmt::Result {
        f.write_str(self.as_str())
    }
}

#[test]
fn every_value_round_trips_and_nothing_else_parses() {
    for value in Colour::values() {
        let parsed = Colour::try_from_str(value).expect("a listed value parses");
        assert_eq!(parsed.as_str(), value);
        assert_eq!(parsed.to_string(), value);
    }
    assert_eq!(Colour::values(), ["red", "sea-green"]);
    for bad in ["Red", "RED", "seagreen", "sea green", ""] {
        assert!(Colour::try_from_str(bad).is_none(), "{bad:?} must not parse");
    }
}

#[test]
fn or_list_quotes_and_joins() {
    assert_eq!(or_list(&[]), "");
    assert_eq!(or_list(&["dev"]), "\"dev\"");
    assert_eq!(or_list(&Colour::values()), "\"red\" or \"sea-green\"");
    assert_eq!(or_list(&["a", "b", "c"]), "\"a\", \"b\" or \"c\"");
}

#[test]
fn designators_unset_and_blank_admit_everything() {
    for unset in [None, Some(""), Some("   ")] {
        let d = Designators::parse(unset).unwrap();
        assert!(d.admits(Some("auth"), Level::Trace));
        assert!(d.admits(None, Level::Trace));
    }
    assert_eq!(Designators::parse(None).unwrap(), Designators::permissive());
}

#[test]
fn designators_restrict_to_the_named_ones_at_their_levels() {
    let d = Designators::parse(Some("upstream=debug,business=info")).unwrap();
    assert!(d.admits(Some("upstream"), Level::Debug));
    assert!(!d.admits(Some("upstream"), Level::Trace));
    assert!(d.admits(Some("business"), Level::Info));
    assert!(!d.admits(Some("business"), Level::Debug));
    assert!(!d.admits(Some("auth"), Level::Error));
    let d = Designators::parse(Some("warn,auth=debug")).unwrap();
    assert!(d.admits(Some("auth"), Level::Debug));
    assert!(d.admits(Some("storage"), Level::Warn));
    assert!(!d.admits(Some("storage"), Level::Info));
    assert!(Designators::parse(Some("auth=error")).unwrap().admits(None, Level::Trace));
    assert!(Designators::parse(Some("c-scheduler=debug")).unwrap().admits(Some("c-scheduler"), Level::Debug));
}

#[test]
fn designators_refuse_a_misspelled_name_or_level() {
    for (bad, offender) in [("athu=debug", "athu"), ("AUTH=debug", "AUTH"), ("scheduler=debug", "scheduler"), ("=debug", "")] {
        let r = Designators::parse(Some(bad)).expect_err("must refuse");
        assert_eq!(r.variable, "LOG_DESIGNATORS");
        assert_eq!(r.value, offender);
        assert!(r.accepted.contains("designator"));
    }
    let r = Designators::parse(Some("auth=verbose")).expect_err("must refuse");
    assert_eq!(r.value, "verbose");
    for level in ["trace", "debug", "info", "warn", "error", "off"] {
        assert!(r.accepted.contains(level));
    }
}

#[test]
fn levels_read_as_tracing_reads_them() {
    assert_eq!(parse_level_filter("INFO"), Some(LevelFilter::Info));
    assert_eq!(parse_level_filter("3"), Some(LevelFilter::Info));
    assert_eq!(parse_level_filter("0"), Some(LevelFilter::Off));
    assert_eq!(parse_level_filter(""), Some(LevelFilter::Error));
    assert_eq!(parse_level_filter("6"), None);
    assert_eq!(parse_level_filter("verbose"), None);
}

#[test]
fn log_config_resolves_its_filter_and_refuses_a_bad_one() {
    let c = LogConfig::resolve(None, Some("prod"), None, None).unwrap();
    assert_eq!(c.filter, "info");
    let c = LogConfig::resolve(None, Some("dev"), Some(""), None).unwrap();
    assert_eq!(c.filter, "debug");
    let c = LogConfig::resolve(Some("human"), Some("prod"), Some("mycrate=trace"), Some("auth=trace")).unwrap();
    assert_eq!(c.format, Format::Human);
    assert_eq!(c.deployment, Deployment::Prod);
    assert_eq!(c.filter, "mycrate=trace");
    assert_eq!(c.designators, Designators::parse(Some("auth=trace")).unwrap());
    let r = LogConfig::resolve(None, Some("dev"), Some("="), None).unwrap_err();
    assert_eq!(r.variable, "RUST_LOG");
    assert!(r.to_string().starts_with("RUST_LOG=\"=\" is not valid — expected comma-separated"));
    assert!(r.detail.is_some());
    let r = LogConfig::resolve(None, Some("dev"), None, Some("nonsense=info")).unwrap_err();
    assert_eq!(r.variable, "LOG_DESIGNATORS");
    let d = LogConfig::fallback();
    assert_eq!(d.filter, "info");
    assert!(d.env_filter().is_ok());
}

#[test]
fn request_ids_are_twelve_hex_digits() {
    assert_eq!(reqid_from(0x1234_5678_9abc_def0, 0x1_0002), "9abcdef00002");
    assert_eq!(reqid_from(0, 0), "000000000000");
}

#[test]
fn the_human_line_carries_context_fields_and_span_fields() {
    let fields = vec![("status".to_string(), "400".to_string())];
    let candidates = vec![
        ("status".to_string(), "500".to_string()),
        ("job".to_string(), "7".to_string()),
        ("job".to_string(), "8".to_string()),
        ("run".to_string(), "\"x\"".to_string()),
    ];
    let kept = retained_fields(&fields, &candidates);
    assert_eq!(kept, vec![("job".to_string(), "7".to_string()), ("run".to_string(), "\"x\"".to_string())]);
    let line = human_line(
        "2026-01-01T00:00:00Z",
        "WARN",
        Some("http"),
        Some("src/x.rs"),
        Some(12),
        Some("rq1"),
        None,
        Some("unknown audience"),
        &fields,
        &kept,
    );
    assert_eq!(
        line,
        "2026-01-01T00:00:00Z WARN http src/x.rs:12 rq1 [-] unknown audience status=400 run=\"x\" job=7\n"
    );
    assert_eq!(unquote("\"a\""), "a");
    assert_eq!(unquote("\""), "\"");
    assert_eq!(trim_quotes("\"\"a\""), "a");
    let mut e = EventFields::new();
    e.put("message", "hi".to_string());
    e.put("designator", "auth".to_string());
    e.put("n", "1".to_string());
    assert_eq!(e.message.as_deref(), Some("hi"));
    assert_eq!(e.designator.as_deref(), Some("auth"));
    assert_eq!(e.fields, vec![("n".to_string(), "1".to_string())]);
}

#[test]
fn spelled_at_finds_the_first_exact_spelling() {
    assert_eq!(spelled_at(&["a", "b", "a"], "a"), Some(0));
    assert_eq!(spelled_at(&["a", "b", "a"], "b"), Some(1));
    assert_eq!(spelled_at(&["a", "b"], "A"), None);
    assert_eq!(spelled_at(&[], ""), None);
}

#[test]
fn the_span_fields_are_named_exactly() {
    assert_eq!(FixedField::named("reqid"), Some(FixedField::ReqId));
    assert_eq!(FixedField::named("actor"), Some(FixedField::Actor));
    assert_eq!(FixedField::named("Actor"), None);
    assert_eq!(FixedField::values(), ["reqid", "actor"]);
    assert_eq!(FixedField::try_from_str("actor"), Some(FixedField::Actor));
}

fn resolved(format: Option<&str>, deployment: Option<&str>, rust_log: Option<&str>, designators: Option<&str>) -> LogConfig {
    LogConfig::resolve(format, deployment.or(Some("dev")), rust_log, designators).expect("must resolve")
}

fn assert_refusal(r: &Refusal, variable: &str, value: &str, accepted: &str) {
    assert_eq!(r.variable, variable, "wrong variable in {}", r.to_string());
    assert_eq!(r.value, value, "must carry the rejected value: {}", r.to_string());
    assert!(r.accepted.contains(accepted), "must name what is accepted ({accepted}): {}", r.to_string());
}

#[test]
fn config_log_format_defaults_to_json_unset_and_refuses_anything_it_does_not_know() {
    assert_eq!(resolved(None, None, None, None).format, Format::Json);
    assert_eq!(resolved(Some("json"), None, None, None).format, Format::Json);
    assert_eq!(resolved(Some("human"), None, None, None).format, Format::Human);
    for bad in ["HUMAN", "Human", "Json", "bogus", ""] {
        let r = LogConfig::resolve(Some(bad), Some("dev"), None, None)
            .expect_err("set-but-invalid LOG_FORMAT must refuse, not degrade to json");
        assert_refusal(&r, "LOG_FORMAT", bad, r#"["human", "json"]"#);
    }
}

#[test]
fn deployment_type_unset_or_unknown_refuses() {
    assert_eq!(resolved(None, Some("dev"), None, None).deployment, Deployment::Dev);
    assert_eq!(resolved(None, Some("prod"), None, None).deployment, Deployment::Prod);
    let r = LogConfig::resolve(None, None, None, None).expect_err("unset DEPLOYMENT_TYPE must refuse, not default to dev");
    assert_refusal(&r, "DEPLOYMENT_TYPE", "unset", r#"["prod", "dev"]"#);
    for bad in ["PROD", "Prod", "production", "prd", ""] {
        let r = LogConfig::resolve(None, Some(bad), None, None)
            .expect_err("set-but-invalid DEPLOYMENT_TYPE must refuse, not degrade to dev");
        assert_refusal(&r, "DEPLOYMENT_TYPE", bad, r#"["prod", "dev"]"#);
    }
}

#[test]
fn rust_log_refuses_a_filter_tracing_cannot_parse() {
    for bad in ["=", "=info", "foo=notalevel", "a=b=c", "foo=99", "[[[", "!!!", " "] {
        let r = LogConfig::resolve(None, Some("dev"), Some(bad), None)
            .expect_err("a malformed RUST_LOG must refuse, not fall back to \"info\"");
        assert_refusal(&r, "RUST_LOG", bad, "my_crate=debug");
        assert!(r.detail.is_some(), "tracing's own parse error says where it is wrong: {}", r.to_string());
    }
    for fine in ["info", "bogus", "my_crate=debug", "foo::bar=trace,sqlx=warn"] {
        assert_eq!(resolved(None, None, Some(fine), None).filter, fine, "{fine} must be taken verbatim");
    }
}

#[test]
fn log_designators_passes_everything_unset_and_refuses_a_value_it_does_not_know() {
    assert_eq!(resolved(None, None, None, None).designators, Designators::permissive());
    for (bad, offender, accepted) in [
        ("nonsense=info", "nonsense", "auth"),
        ("athu=debug", "athu", "auth"),
        ("auth=verbose", "verbose", "trace"),
    ] {
        let r = LogConfig::resolve(None, Some("dev"), None, Some(bad))
            .expect_err("set-but-invalid LOG_DESIGNATORS must refuse, not pass everything");
        assert_refusal(&r, "LOG_DESIGNATORS", offender, accepted);
    }
}

#[test]
fn filter_uses_rust_log_else_deployment_default() {
    assert_eq!(resolved(None, Some("prod"), Some("mycrate=trace"), None).filter, "mycrate=trace");
    assert_eq!(resolved(None, Some("prod"), Some(""), None).filter, "info");
    assert_eq!(resolved(None, Some("prod"), None, None).filter, "info");
    assert_eq!(resolved(None, Some("dev"), None, None).filter, "debug");
}

#[test]
fn the_two_filter_axes_do_not_touch_each_other() {
    let cfg = resolved(None, None, Some("mycrate=debug"), Some("auth=trace"));
    assert_eq!(cfg.filter, "mycrate=debug");
    assert_eq!(cfg.designators, Designators::parse(Some("auth=trace")).unwrap());
}

#[test]
fn the_rendered_refusal_appends_a_detail_when_there_is_one() {
    let rendered = LogConfig::resolve(None, Some("dev"), Some("="), None).unwrap_err().to_string();
    assert!(rendered.starts_with(r#"RUST_LOG="=" is not valid — expected comma-separated"#), "{rendered}");
    assert!(rendered.ends_with("(invalid filter directive)"), "tracing's own error must survive: {rendered}");
}

#[test]
fn the_documented_default_config_is_json_dev_info_and_permissive() {
    let d = LogConfig::default();
    assert_eq!(d.format, Format::Json);
    assert_eq!(d.deployment, Deployment::Dev);
    assert_eq!(d.filter, "info");
    assert_eq!(d.designators, Designators::permissive());
    d.env_filter().expect("the default filter must be valid");
}

#[test]
fn the_log_section_keeps_the_bare_env_names_under_a_log_table() {
    let spelled: Vec<(String, String, String)> =
        Log::schema(&Path::root().child("log")).iter().map(|f| (f.flag(), f.env("APP"), f.toml())).collect();
    assert_eq!(
        spelled,
        [("--log--format", "LOG_FORMAT", "log.format"), ("--log--designators", "LOG_DESIGNATORS", "log.designators")]
            .map(|(a, b, c)| (a.to_string(), b.to_string(), c.to_string()))
    );
}

struct NoFiles;

impl ConfigFiles for NoFiles {
    fn read(&self, _path: &str) -> FileRead {
        FileRead::Failed("No such file or directory (os error 2)".to_string())
    }
}

#[derive(Debug)]
struct Demo {
    deployment: Deployment,
    log: Log,
}

impl Config for Demo {
    fn schema(prefix: &Path) -> Vec<Field> {
        let mut out = vec![Field {
            path: prefix.child("deployment"),
            help: common_rust::config::deployment::DEPLOYMENT_HELP.to_string(),
            presence: common_rust::config::schema::Presence::Required,
            class: common_rust::config::schema::Class::Neutral,
            secret: false,
            kind: common_rust::config::schema::Kind::Text,
            env: Some("DEPLOYMENT_TYPE".to_string()),
            flag: None,
        }];
        out.extend(Log::schema(&prefix.child("log")));
        out
    }

    fn from_values(values: &Values, prefix: &Path) -> Result<Self, Refusal> {
        Ok(Demo {
            deployment: values.leaf::<Deployment>(
                &prefix.child("deployment"),
                Some(common_rust::config::deployment::DEPLOYMENT_ACCEPTED),
            )?,
            log: Log::from_values(values, &prefix.child("log"))?,
        })
    }
}

impl Root for Demo {
    fn app() -> &'static str {
        "DEMO"
    }

    fn bin() -> &'static str {
        "demo"
    }

    fn deployment(&self) -> Deployment {
        self.deployment
    }
}

fn loaded(env: &[(&str, &str)]) -> Result<Demo, Refusal> {
    let env: Vec<(String, String)> = env.iter().map(|(k, v)| (k.to_string(), v.to_string())).collect();
    match load_from::<Demo, NoFiles>(&[], &env, &NoFiles)? {
        Outcome::Config(demo) => Ok(demo),
        _ => panic!("expected a config"),
    }
}

#[test]
fn the_derived_log_section_refuses_in_the_same_words_as_the_env_parse() {
    let r = loaded(&[("DEPLOYMENT_TYPE", "dev"), ("LOG_FORMAT", "xml")]).unwrap_err();
    assert_eq!(r.variable, "LOG_FORMAT");
    assert_eq!(r.accepted, LOG_FORMAT_ACCEPTED);
    let demo = loaded(&[("DEPLOYMENT_TYPE", "prod")]).unwrap();
    assert_eq!(demo.log.format, Format::Json);
    assert_eq!(demo.log.designators, None);
}

#[test]
fn from_log_takes_the_typed_values_and_rust_log_separately() {
    let log = Log { format: Format::Human, designators: Some("auth=trace".into()) };
    let cfg = LogConfig::from_log(&log, Deployment::Prod, None).expect("resolves");
    assert_eq!(cfg.format, Format::Human);
    assert_eq!(cfg.deployment, Deployment::Prod);
    assert_eq!(cfg.filter, "info", "prod default when RUST_LOG is unset");
    assert_eq!(cfg.designators, Designators::parse(Some("auth=trace")).unwrap());
    let cfg = LogConfig::from_log(&log, Deployment::Prod, Some("mycrate=trace")).expect("resolves");
    assert_eq!(cfg.filter, "mycrate=trace");
    let r = LogConfig::from_log(&log, Deployment::Prod, Some("=")).unwrap_err();
    assert_eq!(r.variable, "RUST_LOG");
    let bad = Log { designators: Some("nonsense=info".into()), ..log };
    let r = LogConfig::from_log(&bad, Deployment::Dev, None).unwrap_err();
    assert_eq!(r.variable, "LOG_DESIGNATORS");
}

#[test]
fn unset_and_empty_admit_everything() {
    for unset in [None, Some(""), Some("   ")] {
        let d = Designators::parse(unset).unwrap();
        assert!(d.admits(Some("auth"), Level::Trace));
        assert!(d.admits(Some("c-scheduler"), Level::Trace));
        assert!(d.admits(None, Level::Trace));
    }
}

#[test]
fn per_designator_levels_survive() {
    let d = Designators::parse(Some("upstream=debug,business=info")).unwrap();
    assert!(d.admits(Some("upstream"), Level::Debug));
    assert!(!d.admits(Some("upstream"), Level::Trace));
    assert!(d.admits(Some("business"), Level::Info));
    assert!(!d.admits(Some("business"), Level::Debug), "business was pinned at info, so debug must not pass");
    assert!(!d.admits(Some("auth"), Level::Error), "naming designators restricts to them, as RUST_LOG does");
}

#[test]
fn a_bare_level_covers_the_designators_not_named() {
    let d = Designators::parse(Some("warn,auth=debug")).unwrap();
    assert!(d.admits(Some("auth"), Level::Debug));
    assert!(d.admits(Some("storage"), Level::Warn));
    assert!(!d.admits(Some("storage"), Level::Info));
}

#[test]
fn events_without_a_designator_are_not_this_filters_business() {
    let d = Designators::parse(Some("auth=error")).unwrap();
    assert!(d.admits(None, Level::Trace));
}

#[test]
fn custom_designators_are_accepted_by_prefix() {
    let d = Designators::parse(Some("c-scheduler=debug")).unwrap();
    assert!(d.admits(Some("c-scheduler"), Level::Debug));
}

#[test]
fn a_misspelled_designator_is_refused_not_ignored() {
    for (bad, offender) in [("athu=debug", "athu"), ("AUTH=debug", "AUTH"), ("scheduler=debug", "scheduler"), ("=debug", "")] {
        let r = Designators::parse(Some(bad)).expect_err("must refuse");
        assert_eq!(r.variable, "LOG_DESIGNATORS");
        assert_eq!(r.value, offender, "must name the offending item: {}", r.to_string());
        assert!(r.accepted.contains("designator"), "must say a designator was expected: {}", r.to_string());
    }
}

#[test]
fn a_bad_level_is_refused_and_the_refusal_names_the_valid_ones() {
    let r = Designators::parse(Some("auth=verbose")).expect_err("must refuse");
    assert_eq!(r.variable, "LOG_DESIGNATORS");
    assert_eq!(r.value, "verbose");
    for level in ["trace", "debug", "info", "warn", "error", "off"] {
        assert!(r.accepted.contains(level), "must name {level}: {}", r.to_string());
    }
}

#[test]
fn the_refusal_names_every_stand_designator() {
    let r = Designators::parse(Some("nope=info")).expect_err("must refuse");
    for name in ["auth", "business", "upstream", "storage", "http"] {
        assert!(r.accepted.contains(name), "must name {name}: {}", r.to_string());
    }
}

#[test]
fn the_emitted_field_is_the_declared_one() {
    assert_eq!(FIELD, "designator");
}

fn human(designator: &str, reqid: &str, actor: Option<&str>, message: &str) -> String {
    human_line(
        "2026-01-01T00:00:00.000000000Z",
        "INFO",
        Some(designator),
        Some("crates/logging/src/lib.rs"),
        Some(170),
        Some(reqid),
        actor,
        Some(message),
        &Vec::new(),
        &Vec::new(),
    )
}

#[test]
fn human_layout_exact_shape() {
    let out = human("auth", "rq0001", Some("bob"), "hello world");
    let line = out.trim_end();
    let p: Vec<&str> = line.splitn(7, ' ').collect();
    assert_eq!(p.len(), 7, "line: {line:?}");
    assert!(p[0].contains('T') && p[0].contains(':'), "timestamp: {}", p[0]);
    assert_eq!(p[1], "INFO");
    assert_eq!(p[2], "auth");
    assert!(p[3].contains(".rs:"), "file:row: {}", p[3]);
    assert_eq!(p[4], "rq0001");
    assert_eq!(p[5], "[bob]");
    assert!(p[6].contains("hello world"), "message: {}", p[6]);
}

#[test]
fn human_actor_dash_before_auth() {
    let out = human_line(
        "2026-01-01T00:00:00Z",
        "WARN",
        Some("upstream"),
        Some("crates/logging/src/lib.rs"),
        Some(190),
        Some("rq0002"),
        None,
        Some("no user yet"),
        &Vec::new(),
        &Vec::new(),
    );
    let line = out.trim_end();
    let p: Vec<&str> = line.splitn(7, ' ').collect();
    assert_eq!(p[1], "WARN");
    assert_eq!(p[2], "upstream");
    assert_eq!(p[4], "rq0002");
    assert_eq!(p[5], "[-]", "actor must be - before auth: {line}");
}

#[test]
fn a_span_carrying_a_request_id_offers_no_fields() {
    let pair = |k: &str, v: &str| (k.to_string(), v.to_string());
    let mut with_id = ReqCtx::new();
    with_id.reqid = Some("r1".to_string());
    let spans = vec![
        (None, vec![pair("job", "7")]),
        (Some(with_id), vec![pair("path", "/x")]),
        (Some(ReqCtx::new()), vec![pair("user", "u")]),
    ];
    assert_eq!(span_fields(&spans), vec![pair("job", "7"), pair("user", "u")]);
}
