use common_rust::config::derive::{
    app_refusal, bin_name, flag_refusal, plan_field, root_refusal, FieldAttrs, FieldPlan, Shape, APP_NAME_SHAPE,
    BIN_NEEDS_APP, DEPLOYMENT_SPELLED, FLAG_SHAPE, NESTED_ALONE, ROOT_NEEDS_DEPLOYMENT, ROOT_NEEDS_LOG,
};
use common_rust::config::common::{
    Common, Format, LOG_FORMAT_ACCEPTED, LOG_FORMAT_VARIABLE,
};
use common_rust::config::deployment::{
    Deployment, DEPLOYMENT_ACCEPTED, DEPLOYMENT_HELP, DEPLOYMENT_VARIABLE,
};
use common_rust::config::file::{leaves, FileRead, TomlValue};
use common_rust::config::derive::{field_key, field_key_valued, root_key, RootKey, FIELD_KEY_REFUSAL, ROOT_KEY_REFUSAL};
use common_rust::config::load::{load_from, Config, ConfigFiles, Outcome, Root};
use common_rust::config::path::Path;
use common_rust::config::refusal::Refusal;
use common_rust::config::schema::{Class, Field, Kind, Presence};
use common_rust::config::values::{short_type_name, Values};

struct Files(Vec<(String, String)>);

impl ConfigFiles for Files {
    fn read(&self, path: &str) -> FileRead {
        for (p, text) in &self.0 {
            if p == path {
                return FileRead::Text(text.clone());
            }
        }
        FileRead::Failed("No such file or directory (os error 2)".to_string())
    }
}

fn no_files() -> Files {
    Files(Vec::new())
}

#[derive(Debug)]
struct Demo {
    common: Common,
}

impl Config for Demo {
    fn schema(prefix: &Path) -> Vec<Field> {
        Common::schema(&prefix.child("common"))
    }

    fn from_values(values: &Values, prefix: &Path) -> Result<Self, Refusal> {
        Ok(Demo { common: Common::from_values(values, &prefix.child("common"))? })
    }
}

impl Root for Demo {
    fn app() -> &'static str {
        "DEMO"
    }

    fn bin() -> &'static str {
        "demo"
    }

    fn deployment(&self) -> Deployment {
        self.common.deployment
    }
}

fn env(pairs: &[(&str, &str)]) -> Vec<(String, String)> {
    pairs.iter().map(|(k, v)| (k.to_string(), v.to_string())).collect()
}

fn refused(name: &str, value: &str) -> Refusal {
    match load_from::<Demo, Files>(&[], &env(&[(name, value)]), &no_files()) {
        Err(refusal) => refusal,
        Ok(_) => panic!("expected a refusal"),
    }
}

#[test]
fn common_log_format_defaults_to_json_unset_and_refuses_anything_it_does_not_know() {
    assert_eq!(Format::parse(None).unwrap(), Format::Json);
    assert_eq!(Format::parse(Some("json")).unwrap(), Format::Json);
    assert_eq!(Format::parse(Some("human")).unwrap(), Format::Human);
    for bad in ["HUMAN", "Human", "Json", "bogus", ""] {
        let r = Format::parse(Some(bad))
            .expect_err("set-but-invalid LOG_FORMAT must refuse, not degrade to json");
        assert_eq!(r.variable, LOG_FORMAT_VARIABLE);
        assert_eq!(r.value, bad);
        assert!(r.accepted.contains(r#"["human", "json"]"#), "{r:?}");
    }
}

#[test]
fn common_the_declared_spellings_are_the_ones_on_the_wire() {
    assert_eq!(Format::VARIANTS, ["human", "json"]);
    assert_eq!(
        LOG_FORMAT_ACCEPTED,
        format!("one of {:?} (unset means json)", Format::VARIANTS)
    );
}

#[test]
fn the_derived_accepted_texts_are_the_shared_constants() {
    let r = refused("DEPLOYMENT_TYPE", "staging");
    assert_eq!(r.variable, "DEPLOYMENT_TYPE");
    assert_eq!(r.value, "staging");
    assert_eq!(r.accepted, DEPLOYMENT_ACCEPTED);
    let r = refused("LOG_FORMAT", "xml");
    assert_eq!(r.accepted, LOG_FORMAT_ACCEPTED);
    let r = refused("DEPLOYMENT_TYPE", "");
    assert_eq!(r.value, "", "an empty value is set, and set-but-invalid refuses");
}

#[test]
fn unset_gives_the_documented_defaults_and_the_root_reaches_its_section() {
    let demo = match load_from::<Demo, Files>(&[], &[], &no_files()) {
        Ok(Outcome::Config(demo)) => demo,
        other => panic!("expected a config, got {:?}", other.is_ok()),
    };
    let common = &demo.common;
    assert_eq!(common.deployment, Deployment::Dev);
    assert_eq!(common.log_format, Format::Json);
    assert_eq!(common.log_designators, None);
}

#[test]
fn unset_is_dev_and_the_two_valid_values_parse() {
    assert_eq!(Deployment::parse(None).unwrap(), Deployment::Dev);
    assert_eq!(Deployment::parse(Some("dev")).unwrap(), Deployment::Dev);
    assert_eq!(Deployment::parse(Some("prod")).unwrap(), Deployment::Prod);
}

#[test]
fn set_but_invalid_refuses_rather_than_defaulting_to_dev() {
    for bad in ["Prod", "PROD", "Dev", "production", "prd", ""] {
        let r = Deployment::parse(Some(bad))
            .expect_err("DEPLOYMENT_TYPE set-but-invalid must be refused, not treated as dev");
        assert_eq!(r.variable, DEPLOYMENT_VARIABLE);
        assert_eq!(r.value, bad);
    }
}

#[test]
fn the_refusal_names_every_accepted_spelling() {
    let r = Deployment::parse(Some("prd")).unwrap_err();
    for value in Deployment::VARIANTS {
        assert!(r.accepted.contains(value), "refusal must name {value:?}: {r:?}");
    }
    assert_eq!(
        r.to_string(),
        r#"DEPLOYMENT_TYPE="prd" is not valid — expected one of ["prod", "dev"] (unset means dev)"#
    );
}

#[test]
fn deployment_the_declared_spellings_are_the_ones_on_the_wire() {
    assert_eq!(Deployment::VARIANTS, ["prod", "dev"]);
    assert_eq!(Deployment::Prod.as_ref(), "prod");
    assert_eq!(Deployment::Dev.to_string(), "dev");
}

#[test]
fn as_str_round_trips_through_parse() {
    for d in [Deployment::Prod, Deployment::Dev] {
        assert_eq!(Deployment::parse(Some(d.as_ref())).unwrap(), d);
        assert_eq!(d.to_string(), d.as_ref());
    }
    assert!(Deployment::parse(Some(&format!("{:?}", Deployment::Prod))).is_err());
}

#[test]
fn the_accepted_constant_is_built_from_the_variants() {
    assert_eq!(
        DEPLOYMENT_ACCEPTED,
        format!("one of {:?} (unset means dev)", Deployment::VARIANTS)
    );
}

fn three_deep() -> Path {
    Path::root().child("sandbox").child("limits").child("cpu_secs")
}

#[test]
fn flag_uses_single_dash_inside_and_double_between() {
    assert_eq!(three_deep().flag(), "--sandbox--limits--cpu-secs");
    assert_eq!(Path::root().child("data_dir").flag(), "--data-dir");
}

#[test]
fn env_uses_single_underscore_inside_and_double_between() {
    assert_eq!(three_deep().env("CRON"), "CRON_SANDBOX__LIMITS__CPU_SECS");
    assert_eq!(Path::root().child("data_dir").env("CRON"), "CRON_DATA_DIR");
}

#[test]
fn toml_key_and_section() {
    let p = three_deep();
    assert_eq!(p.dotted(), "sandbox.limits.cpu_secs");
    assert_eq!(p.section(), "sandbox.limits");
    assert_eq!(p.leaf(), "cpu_secs");
    let top = Path::root().child("bind");
    assert_eq!(top.section(), "");
    assert_eq!(top.dotted(), "bind");
}

#[test]
fn the_rendering_names_the_variable_the_value_and_the_accepted_set() {
    let r = Refusal::new("DEPLOYMENT_TYPE", "prd", r#"one of ["prod", "dev"]"#);
    assert_eq!(
        r.to_string(),
        r#"DEPLOYMENT_TYPE="prd" is not valid — expected one of ["prod", "dev"]"#
    );
}

#[test]
fn the_rendering_appends_a_detail_when_there_is_one() {
    let r = Refusal::new("RUST_LOG", "=", "comma-separated directives")
        .with_detail("invalid filter directive");
    assert!(r.to_string().ends_with("(invalid filter directive)"), "{}", r.to_string());
    assert_eq!(r.detail.as_deref(), Some("invalid filter directive"));
}

#[test]
fn a_variable_may_be_owned_borrowed_or_doubly_borrowed() {
    let owned = Refusal::new(format!("APP_{}", "X"), "", "");
    let borrowed = Refusal::new("APP_X", "", "");
    let table = ["APP_X"];
    let doubly = Refusal::new(table.iter().next().unwrap(), "", "");
    assert_eq!(owned, borrowed);
    assert_eq!(owned, doubly);
}

#[test]
fn short_type_name_strips_every_module_path() {
    assert_eq!(short_type_name("alloc::vec::Vec<alloc::string::String>"), "Vec<String>");
    assert_eq!(short_type_name("u64"), "u64");
    assert_eq!(short_type_name("core::net::socket_addr::SocketAddr"), "SocketAddr");
}

#[test]
fn the_three_fields_keep_their_legacy_env_names_under_a_common_table() {
    let fields = Common::schema(&Path::root().child("common"));
    let spelled: Vec<(String, String, String)> = fields.iter().map(|f| (f.flag(), f.env("APP"), f.toml())).collect();
    assert_eq!(
        spelled,
        [
            ("--common--deployment", "DEPLOYMENT_TYPE", "common.deployment"),
            ("--common--log-format", "LOG_FORMAT", "common.log_format"),
            ("--common--log-designators", "LOG_DESIGNATORS", "common.log_designators"),
        ]
        .map(|(a, b, c)| (a.to_string(), b.to_string(), c.to_string()))
    );
}

#[test]
fn a_field_plan_follows_the_fields_type_and_keys() {
    let plain = FieldAttrs { default: Some("1".into()), ..FieldAttrs::default() };
    match plan_field(false, "count", Shape::Plain, &plain, "A count.").unwrap() {
        FieldPlan::Leaf { help, presence, class, secret, kind, env, flag, accepted } => {
            assert_eq!(help, "A count.");
            assert_eq!(presence, Presence::Default("1".into()));
            assert_eq!(class, Class::Neutral);
            assert!(!secret);
            assert_eq!(kind, Kind::Text);
            assert_eq!((env, flag, accepted), (None, None, None));
        }
        FieldPlan::Nested => panic!("expected a leaf"),
    }
    let nested = FieldAttrs { nested: true, ..FieldAttrs::default() };
    assert_eq!(plan_field(true, "log", Shape::Plain, &nested, "").unwrap(), FieldPlan::Nested);
    let keyed = FieldAttrs { nested: true, secret: true, ..FieldAttrs::default() };
    assert_eq!(plan_field(false, "inner", Shape::Plain, &keyed, "").unwrap_err(), NESTED_ALONE);
    match plan_field(true, "deployment", Shape::Plain, &FieldAttrs::default(), "").unwrap() {
        FieldPlan::Leaf { help, presence, env, accepted, .. } => {
            assert_eq!(help, DEPLOYMENT_HELP);
            assert_eq!(presence, Presence::Required);
            assert_eq!(env.as_deref(), Some("DEPLOYMENT_TYPE"));
            assert_eq!(accepted.as_deref(), Some(DEPLOYMENT_ACCEPTED));
        }
        FieldPlan::Nested => panic!("expected a leaf"),
    }
    let renamed = FieldAttrs { env: Some("X".into()), ..FieldAttrs::default() };
    assert_eq!(plan_field(true, "deployment", Shape::Plain, &renamed, "").unwrap_err(), DEPLOYMENT_SPELLED);
    assert!(plan_field(false, "deployment", Shape::Plain, &renamed, "").is_err(), "not a root: it needs a presence");
    let dev_only = FieldAttrs { dev_only: true, ..FieldAttrs::default() };
    match plan_field(false, "no_auth", Shape::Bool, &dev_only, "Debug auth.").unwrap() {
        FieldPlan::Leaf { presence, class, kind, .. } => {
            assert_eq!(presence, Presence::Default("false".into()));
            assert_eq!(class, Class::DevOnly);
            assert_eq!(kind, Kind::Bool);
        }
        FieldPlan::Nested => panic!("expected a leaf"),
    }
}

#[test]
fn the_struct_keys_are_checked() {
    assert_eq!(app_refusal("CRON2"), None);
    assert_eq!(app_refusal("Cron").as_deref(), Some(APP_NAME_SHAPE));
    assert_eq!(app_refusal("").as_deref(), Some(APP_NAME_SHAPE));
    assert_eq!(app_refusal("MY_APP").as_deref(), Some(APP_NAME_SHAPE));
    assert_eq!(flag_refusal("data-dir"), None);
    assert_eq!(flag_refusal("--data-dir").as_deref(), Some(FLAG_SHAPE));
    assert_eq!(flag_refusal("").as_deref(), Some(FLAG_SHAPE));
    assert_eq!(bin_name("CRON", None), "cron");
    assert_eq!(bin_name("CRON", Some("cronjob")), "cronjob");
    assert_eq!(root_refusal(None, Some("x"), false, false).as_deref(), Some(BIN_NEEDS_APP));
    assert_eq!(root_refusal(None, None, false, false), None);
    assert_eq!(root_refusal(Some("APP"), None, false, true).as_deref(), Some(ROOT_NEEDS_DEPLOYMENT));
    assert_eq!(root_refusal(Some("APP"), None, true, false).as_deref(), Some(ROOT_NEEDS_LOG));
    assert_eq!(root_refusal(Some("APP"), Some("app"), true, true), None);
}

#[test]
fn the_toml_walk_enters_tables_marks_arrays_and_renders_scalars() {
    let doc = vec![
        ("a".to_string(), TomlValue::Integer(-42)),
        ("b".to_string(), TomlValue::Table(vec![
            ("c".to_string(), TomlValue::Boolean(true)),
            ("d".to_string(), TomlValue::Array(vec![TomlValue::Integer(1)])),
        ])),
        ("e".to_string(), TomlValue::String("x".to_string())),
    ];
    let got: Vec<(Vec<String>, Option<String>)> = leaves(&doc).into_iter().map(|l| (l.keys, l.text)).collect();
    assert_eq!(
        got,
        vec![
            (vec!["a".to_string()], Some("-42".to_string())),
            (vec!["b".to_string(), "c".to_string()], Some("true".to_string())),
            (vec!["b".to_string(), "d".to_string()], None),
            (vec!["e".to_string()], Some("x".to_string())),
        ]
    );
    let min = leaves(&vec![("n".to_string(), TomlValue::Integer(i64::MIN))]);
    assert_eq!(min[0].text.as_deref(), Some("-9223372036854775808"));
}

#[test]
fn field_keys_set_their_attribute_and_unknown_ones_are_refused() {
    let mut a = FieldAttrs::default();
    assert!(field_key_valued("env") && !field_key_valued("secret"));
    field_key(&mut a, "env", Some("X".to_string())).unwrap();
    field_key(&mut a, "secret", None).unwrap();
    assert_eq!(a.env.as_deref(), Some("X"));
    assert!(a.secret && !a.required);
    assert_eq!(field_key(&mut a, "sekret", None).unwrap_err(), FIELD_KEY_REFUSAL);
    assert_eq!(root_key("app").unwrap(), RootKey::App);
    assert_eq!(root_key("bin").unwrap(), RootKey::Bin);
    assert_eq!(root_key("name").unwrap_err(), ROOT_KEY_REFUSAL);
}
