use common_rust::config::deployment::{Deployment, DEPLOYMENT_ACCEPTED, DEPLOYMENT_HELP};
use common_rust::config::file::FileRead;
use common_rust::config::load::{load_from, load_named, Config, ConfigFiles, Outcome, Root};
use common_rust::config::path::Path;
use common_rust::config::refusal::Refusal;
use common_rust::config::schema::{Class, Field, Kind, Presence};
use common_rust::config::values::{FromText, Values};

/// Config files held in memory, by path.
struct Files(Vec<(String, String)>);

impl ConfigFiles for Files {
    fn read(&self, path: &str) -> FileRead {
        for (p, text) in &self.0 {
            if p == path {
                return FileRead::Text(text.clone());
            }
        }
        FileRead::Failed("No such file or directory (os error 2)".to_string())
    }
}

/// A config file: where it lives and what it says.
#[derive(Clone)]
struct TomlFile {
    path: String,
    text: String,
}

fn file(n: u32, content: &str) -> TomlFile {
    TomlFile { path: format!("/tmp/common-config-tests/{n}.toml"), text: content.to_string() }
}

fn config_arg(f: &TomlFile) -> String {
    format!("--config={}", f.path)
}

fn field(
    prefix: &Path,
    name: &str,
    help: &str,
    presence: Presence,
    class: Class,
    secret: bool,
    kind: Kind,
    env: Option<&str>,
    flag: Option<&str>,
) -> Field {
    Field {
        path: prefix.child(name),
        help: help.to_string(),
        presence,
        class,
        secret,
        kind,
        env: env.map(str::to_string),
        flag: flag.map(str::to_string),
    }
}

fn dflt(s: &str) -> Presence {
    Presence::Default(s.to_string())
}

#[derive(Debug, Clone, Copy, PartialEq, Eq)]
enum ClassOpt {
    Prod,
    Dev,
}

impl FromText for ClassOpt {
    fn from_text(text: &str) -> Result<Self, String> {
        match text {
            "prod" => Ok(ClassOpt::Prod),
            "dev" => Ok(ClassOpt::Dev),
            _ => Err("Matching variant not found".to_string()),
        }
    }

    fn type_path() -> String {
        "load::ClassOpt".to_string()
    }
}

#[derive(Debug)]
struct Top {
    name: String,
    count: u32,
    verbose: bool,
    note: Option<String>,
    maybe: Option<bool>,
    token: String,
    pin: u32,
    mode: Option<String>,
    class: ClassOpt,
    upstream: Option<String>,
    stub_user: Option<String>,
    no_auth: bool,
    mid: Mid,
    deployment: Deployment,
    log: Log,
}

impl Top {
    fn log(&self) -> &Log {
        &self.log
    }
}

#[derive(Debug)]
struct Mid {
    size: u64,
    deep: Deep,
}

#[derive(Debug)]
struct Deep {
    level: u8,
}

/// Stands in for the logging section.
#[derive(Debug)]
struct Log {
    format: String,
    designators: Option<String>,
}

impl Config for Deep {
    fn schema(prefix: &Path) -> Vec<Field> {
        vec![field(prefix, "level", "Level.", dflt("7"), Class::Neutral, false, Kind::Text, None, None)]
    }

    fn from_values(values: &Values, prefix: &Path) -> Result<Self, Refusal> {
        Ok(Deep { level: values.leaf::<u8>(&prefix.child("level"), None)? })
    }
}

impl Config for Mid {
    fn schema(prefix: &Path) -> Vec<Field> {
        let mut out = vec![field(prefix, "size", "Size.", dflt("10"), Class::Neutral, false, Kind::Text, None, None)];
        out.extend(Deep::schema(&prefix.child("deep")));
        out
    }

    fn from_values(values: &Values, prefix: &Path) -> Result<Self, Refusal> {
        Ok(Mid {
            size: values.leaf::<u64>(&prefix.child("size"), None)?,
            deep: Deep::from_values(values, &prefix.child("deep"))?,
        })
    }
}

impl Config for Log {
    fn schema(prefix: &Path) -> Vec<Field> {
        let n = Class::Neutral;
        vec![
            field(prefix, "format", "Format.", dflt("json"), n, false, Kind::Text, Some("LOG_FORMAT"), None),
            field(prefix, "designators", "Filter.", Presence::Optional, n, false, Kind::Text, Some("LOG_DESIGNATORS"), None),
        ]
    }

    fn from_values(values: &Values, prefix: &Path) -> Result<Self, Refusal> {
        Ok(Log {
            format: values.leaf::<String>(&prefix.child("format"), None)?,
            designators: values.leaf_opt::<String>(&prefix.child("designators"), None)?,
        })
    }
}

fn deployment_field(prefix: &Path) -> Field {
    field(prefix, "deployment", DEPLOYMENT_HELP, Presence::Required, Class::Neutral, false, Kind::Text, Some("DEPLOYMENT_TYPE"), None)
}

impl Config for Top {
    fn schema(prefix: &Path) -> Vec<Field> {
        let n = Class::Neutral;
        let mut out = vec![
            field(prefix, "name", "The name.", Presence::Required, n, false, Kind::Text, None, None),
            field(prefix, "count", "A count.", dflt("1"), n, false, Kind::Text, None, None),
            field(prefix, "verbose", "Chatty.", dflt("false"), n, false, Kind::Bool, None, None),
            field(prefix, "note", "A note.", Presence::Optional, n, false, Kind::Text, None, None),
            field(prefix, "maybe", "Maybe.", Presence::Optional, n, false, Kind::Bool, None, None),
            field(prefix, "token", "A token.", dflt("s3cret"), n, true, Kind::Text, None, None),
            field(prefix, "pin", "A pin.", dflt("1234"), n, true, Kind::Text, None, None),
            field(prefix, "mode", "Legacy names.", Presence::Optional, n, false, Kind::Text, Some("LEGACY_MODE"), Some("mode")),
            field(prefix, "class", "Class.", dflt("dev"), n, false, Kind::Text, None, None),
            field(prefix, "upstream", "Upstream.", Presence::Optional, Class::ProdRequired, false, Kind::Text, None, None),
            field(prefix, "stub_user", "Stub identity.", Presence::Optional, Class::DevOnly, false, Kind::Text, None, None),
            field(prefix, "no_auth", "Debug auth.", dflt("false"), Class::DevOnly, false, Kind::Bool, None, None),
        ];
        out.extend(Mid::schema(&prefix.child("mid")));
        out.push(deployment_field(prefix));
        out.extend(Log::schema(&prefix.child("log")));
        out
    }

    fn from_values(values: &Values, prefix: &Path) -> Result<Self, Refusal> {
        Ok(Top {
            name: values.leaf::<String>(&prefix.child("name"), None)?,
            count: values.leaf::<u32>(&prefix.child("count"), None)?,
            verbose: values.bool(&prefix.child("verbose"))?,
            note: values.leaf_opt::<String>(&prefix.child("note"), None)?,
            maybe: values.bool_opt(&prefix.child("maybe"))?,
            token: values.leaf::<String>(&prefix.child("token"), None)?,
            pin: values.leaf::<u32>(&prefix.child("pin"), None)?,
            mode: values.leaf_opt::<String>(&prefix.child("mode"), None)?,
            class: values.leaf_from::<ClassOpt>(&prefix.child("class"), Some("prod or dev"))?,
            upstream: values.leaf_opt::<String>(&prefix.child("upstream"), None)?,
            stub_user: values.leaf_opt::<String>(&prefix.child("stub_user"), None)?,
            no_auth: values.bool(&prefix.child("no_auth"))?,
            mid: Mid::from_values(values, &prefix.child("mid"))?,
            deployment: values.leaf::<Deployment>(&prefix.child("deployment"), Some(DEPLOYMENT_ACCEPTED))?,
            log: Log::from_values(values, &prefix.child("log"))?,
        })
    }
}

impl Root for Top {
    fn app() -> &'static str {
        "APP"
    }

    fn bin() -> &'static str {
        "app"
    }

    fn deployment(&self) -> Deployment {
        self.deployment
    }
}

#[derive(Debug)]
struct Strict {
    inner: StrictInner,
    deployment: Deployment,
    log: Log,
}

#[derive(Debug)]
struct StrictInner {
    key: String,
}

impl Config for StrictInner {
    fn schema(prefix: &Path) -> Vec<Field> {
        vec![field(prefix, "key", "Needed.", Presence::Required, Class::Neutral, false, Kind::Text, None, None)]
    }

    fn from_values(values: &Values, prefix: &Path) -> Result<Self, Refusal> {
        Ok(StrictInner { key: values.leaf::<String>(&prefix.child("key"), None)? })
    }
}

impl Config for Strict {
    fn schema(prefix: &Path) -> Vec<Field> {
        let mut out = StrictInner::schema(&prefix.child("inner"));
        out.push(deployment_field(prefix));
        out.extend(Log::schema(&prefix.child("log")));
        out
    }

    fn from_values(values: &Values, prefix: &Path) -> Result<Self, Refusal> {
        Ok(Strict {
            inner: StrictInner::from_values(values, &prefix.child("inner"))?,
            deployment: values.leaf::<Deployment>(&prefix.child("deployment"), Some(DEPLOYMENT_ACCEPTED))?,
            log: Log::from_values(values, &prefix.child("log"))?,
        })
    }
}

impl Root for Strict {
    fn app() -> &'static str {
        "STRICT"
    }

    fn bin() -> &'static str {
        "strict"
    }

    fn deployment(&self) -> Deployment {
        self.deployment
    }
}

fn strings(items: &[&str]) -> Vec<String> {
    items.iter().map(|s| s.to_string()).collect()
}

/// A dev deployment unless the test sets one itself (a later entry wins).
fn pairs(items: &[(&str, &str)]) -> Vec<(String, String)> {
    std::iter::once(("DEPLOYMENT_TYPE", "dev"))
        .chain(items.iter().copied())
        .map(|(k, v)| (k.to_string(), v.to_string()))
        .collect()
}

fn files_of(files: &[&TomlFile]) -> Files {
    Files(files.iter().map(|f| (f.path.clone(), f.text.clone())).collect())
}

fn load_in(files: &[&TomlFile], args: &[&str], env: &[(&str, &str)]) -> Result<Outcome<Top>, Refusal> {
    load_from::<Top, Files>(&strings(args), &pairs(env), &files_of(files))
}

fn ok_in(files: &[&TomlFile], args: &[&str], env: &[(&str, &str)]) -> Top {
    match load_in(files, args, env) {
        Ok(Outcome::Config(top)) => top,
        Ok(_) => panic!("expected a config, got text"),
        Err(r) => panic!("expected a config, got {}", r.to_string()),
    }
}

fn err_in(files: &[&TomlFile], args: &[&str], env: &[(&str, &str)]) -> Refusal {
    match load_in(files, args, env) {
        Err(refusal) => refusal,
        Ok(_) => panic!("expected a refusal"),
    }
}

fn text_in(files: &[&TomlFile], args: &[&str], env: &[(&str, &str)]) -> String {
    match load_in(files, args, env) {
        Ok(Outcome::Help(t)) | Ok(Outcome::PrintConfig(t)) => t,
        _ => panic!("expected help or print-config text"),
    }
}

fn ok(args: &[&str], env: &[(&str, &str)]) -> Top {
    ok_in(&[], args, env)
}

fn err(args: &[&str], env: &[(&str, &str)]) -> Refusal {
    err_in(&[], args, env)
}

fn text(args: &[&str], env: &[(&str, &str)]) -> String {
    text_in(&[], args, env)
}

#[test]
fn precedence_default_when_nothing_sets_it() {
    assert_eq!(ok(&["--name=x"], &[]).count, 1);
}

#[test]
fn precedence_file_beats_default() {
    let f = file(1, "count = 2\n");
    assert_eq!(ok_in(&[&f], &["--name=x", &config_arg(&f)], &[]).count, 2);
}

#[test]
fn precedence_env_beats_file() {
    let f = file(2, "count = 2\n");
    let top = ok_in(&[&f], &["--name=x", &config_arg(&f)], &[("APP_COUNT", "3")]);
    assert_eq!(top.count, 3);
}

#[test]
fn precedence_arg_beats_env_and_file() {
    let f = file(3, "count = 2\n");
    let top = ok_in(&[&f], &["--name=x", &config_arg(&f), "--count=4"], &[("APP_COUNT", "3")]);
    assert_eq!(top.count, 4);
}

#[test]
fn precedence_is_per_field_not_per_source() {
    let f = file(4, "count = 2\n[mid]\nsize = 20\n");
    let top = ok_in(&[&f], &["--name=x", &config_arg(&f)], &[("APP_MID__DEEP__LEVEL", "3")]);
    assert_eq!((top.count, top.mid.size, top.mid.deep.level), (2, 20, 3));
}

#[test]
fn later_arg_wins_over_earlier_arg() {
    assert_eq!(ok(&["--name=x", "--count=5", "--count=6"], &[]).count, 6);
}

#[test]
fn nested_three_deep_from_file_tables() {
    let f = file(5, "[mid.deep]\nlevel = 3\n");
    assert_eq!(ok_in(&[&f], &["--name=x", &config_arg(&f)], &[]).mid.deep.level, 3);
}

#[test]
fn nested_three_deep_from_env() {
    let top = ok(&["--name=x"], &[("APP_MID__DEEP__LEVEL", "4")]);
    assert_eq!(top.mid.deep.level, 4);
}

#[test]
fn nested_three_deep_from_flag() {
    assert_eq!(ok(&["--name=x", "--mid--deep--level=5"], &[]).mid.deep.level, 5);
}

#[test]
fn nested_defaults_apply_without_any_source() {
    let top = ok(&["--name=x"], &[]);
    assert_eq!((top.mid.size, top.mid.deep.level), (10, 7));
}

#[test]
fn schema_spells_every_field_three_ways() {
    let fields = Top::schema(&Path::root());
    let got: Vec<(String, String, String)> = fields.iter().map(|f| (f.flag(), f.env("APP"), f.toml())).collect();
    let want: Vec<(String, String, String)> = [
        ("--name", "APP_NAME", "name"),
        ("--count", "APP_COUNT", "count"),
        ("--verbose", "APP_VERBOSE", "verbose"),
        ("--note", "APP_NOTE", "note"),
        ("--maybe", "APP_MAYBE", "maybe"),
        ("--token", "APP_TOKEN", "token"),
        ("--pin", "APP_PIN", "pin"),
        ("--mode", "LEGACY_MODE", "mode"),
        ("--class", "APP_CLASS", "class"),
        ("--upstream", "APP_UPSTREAM", "upstream"),
        ("--stub-user", "APP_STUB_USER", "stub_user"),
        ("--no-auth", "APP_NO_AUTH", "no_auth"),
        ("--mid--size", "APP_MID__SIZE", "mid.size"),
        ("--mid--deep--level", "APP_MID__DEEP__LEVEL", "mid.deep.level"),
        ("--deployment", "DEPLOYMENT_TYPE", "deployment"),
        ("--log--format", "LOG_FORMAT", "log.format"),
        ("--log--designators", "LOG_DESIGNATORS", "log.designators"),
    ]
    .iter()
    .map(|(a, b, c)| (a.to_string(), b.to_string(), c.to_string()))
    .collect();
    assert_eq!(got, want);
}

#[test]
fn schema_help_comes_from_doc_comments() {
    let fields = Top::schema(&Path::root());
    let level = fields.iter().find(|f| f.toml() == "mid.deep.level").unwrap();
    assert_eq!(level.help, "Level.");
}

#[test]
fn legacy_env_override_reads_the_bare_name() {
    let top = ok(&["--name=x"], &[("LEGACY_MODE", "fast")]);
    assert_eq!(top.mode.as_deref(), Some("fast"));
}

#[test]
fn legacy_env_override_ignores_the_generated_name() {
    let top = ok(&["--name=x"], &[("APP_MODE", "fast")]);
    assert_eq!(top.mode, None);
}

#[test]
fn legacy_flag_override_replaces_the_generated_flag() {
    assert_eq!(ok(&["--name=x", "--mode=slow"], &[]).mode.as_deref(), Some("slow"));
    let refusal = err(&["--name=x", "--mode-x=slow"], &[]);
    assert!(refusal.detail.unwrap().contains("--mode-x"));
}

#[test]
fn unknown_toml_key_refuses_naming_it() {
    let f = file(6, "nme = \"typo\"\n[mid]\nsize = 1\n");
    let refusal = err_in(&[&f], &["--name=x", &config_arg(&f)], &[]);
    assert_eq!(refusal.variable, "--config");
    assert_eq!(refusal.value, f.path);
    assert_eq!(refusal.detail.as_deref(), Some("unknown keys: nme"));
}

#[test]
fn unknown_toml_nested_key_is_named_with_its_table() {
    let f = file(7, "[mid.deep]\nlevle = 1\n");
    let refusal = err_in(&[&f], &["--name=x", &config_arg(&f)], &[]);
    assert_eq!(refusal.detail.as_deref(), Some("unknown keys: mid.deep.levle"));
}

#[test]
fn unknown_flag_refuses_naming_it() {
    let refusal = err(&["--name=x", "--bogus", "--also=1"], &[]);
    assert_eq!(refusal.variable, "arguments");
    assert_eq!(refusal.detail.as_deref(), Some("unknown: --bogus, --also=1"));
}

#[test]
fn positional_argument_refuses() {
    let refusal = err(&["--name=x", "stray"], &[]);
    assert_eq!(refusal.detail.as_deref(), Some("unknown: stray"));
}

#[test]
fn flag_without_value_refuses() {
    let refusal = err(&["--name"], &[]);
    assert_eq!(refusal.variable, "--name");
    assert_eq!(refusal.detail.as_deref(), Some("flag given without a value"));
}

#[test]
fn flag_value_may_not_look_like_a_flag() {
    let refusal = err(&["--name", "--count=1"], &[]);
    assert_eq!(refusal.variable, "--name");
}

#[test]
fn secret_is_masked_in_print_config() {
    let out = text(&["--name=x", "--token=hunter2", "--print-config"], &[]);
    assert!(!out.contains("hunter2"));
    assert!(out.contains("token"));
    assert!(out.contains("****"));
}

#[test]
fn secret_values_still_load_unmasked() {
    let top = ok(&["--name=x", "--token=hunter2"], &[("APP_PIN", "42")]);
    assert_eq!((top.token.as_str(), top.pin), ("hunter2", 42));
}

#[test]
fn secret_is_masked_in_a_wrong_type_refusal() {
    let refusal = err(&["--name=x", "--pin=letters"], &[]);
    assert_eq!(refusal.variable, "--pin");
    assert_eq!(refusal.value, "****");
}

#[test]
fn bool_accepts_true_forms() {
    for form in ["true", "1", "yes", "TRUE", "Yes", "on"] {
        assert!(ok(&["--name=x"], &[("APP_VERBOSE", form)]).verbose, "{form}");
    }
}

#[test]
fn bool_accepts_false_forms() {
    for form in ["false", "0", "no", "FALSE", "No", "off"] {
        assert!(!ok(&["--name=x"], &[("APP_VERBOSE", form)]).verbose, "{form}");
    }
}

#[test]
fn bool_bare_flag_means_true() {
    assert!(ok(&["--name=x", "--verbose"], &[]).verbose);
}

#[test]
fn bool_flag_takes_an_inline_value() {
    assert!(!ok(&["--name=x", "--verbose=no"], &[]).verbose);
}

#[test]
fn bool_defaults_to_false() {
    assert!(!ok(&["--name=x"], &[]).verbose);
}

#[test]
fn bool_invalid_refuses_naming_the_forms() {
    let refusal = err(&["--name=x"], &[("APP_VERBOSE", "maybe")]);
    assert_eq!(refusal.variable, "APP_VERBOSE");
    assert_eq!(refusal.value, "maybe");
    assert_eq!(refusal.accepted, "true, false, 1, 0, yes, no, on or off");
}

#[test]
fn option_bool_is_none_until_set() {
    assert_eq!(ok(&["--name=x"], &[]).maybe, None);
    assert_eq!(ok(&["--name=x", "--maybe"], &[]).maybe, Some(true));
    assert_eq!(ok(&["--name=x", "--maybe=0"], &[]).maybe, Some(false));
}

#[test]
fn wrong_type_from_arg_names_flag_text_and_error() {
    let refusal = err(&["--name=x", "--count=abc"], &[]);
    assert_eq!(refusal.variable, "--count");
    assert_eq!(refusal.value, "abc");
    assert_eq!(refusal.accepted, "a u32");
    assert_eq!(refusal.detail.as_deref(), Some("set by arg --count: invalid digit found in string"));
}

#[test]
fn wrong_type_from_env_names_the_variable() {
    let refusal = err(&["--name=x"], &[("APP_MID__SIZE", "-1")]);
    assert_eq!(refusal.variable, "APP_MID__SIZE");
    assert_eq!(refusal.value, "-1");
    assert!(refusal.detail.unwrap().starts_with("set by env APP_MID__SIZE: "));
}

#[test]
fn wrong_type_from_file_names_file_and_key() {
    let f = file(8, "[mid.deep]\nlevel = 300\n");
    let refusal = err_in(&[&f], &["--name=x", &config_arg(&f)], &[]);
    assert_eq!(refusal.variable, format!("{}: mid.deep.level", f.path));
    assert_eq!(refusal.value, "300");
}

#[test]
fn strum_enum_parses_and_refuses_with_declared_accepted() {
    assert_eq!(ok(&["--name=x", "--class=prod"], &[]).class, ClassOpt::Prod);
    let refusal = err(&["--name=x", "--class=staging"], &[]);
    assert_eq!(refusal.accepted, "prod or dev");
    assert_eq!(refusal.value, "staging");
}

#[test]
fn deployment_and_log_load_under_their_bare_env_names_and_the_root_exposes_them() {
    let top = ok(
        &["--name=x"],
        &[
            ("DEPLOYMENT_TYPE", "prod"),
            ("APP_UPSTREAM", "https://up"),
            ("LOG_FORMAT", "human"),
            ("LOG_DESIGNATORS", "auth=debug"),
        ],
    );
    assert_eq!(top.deployment, Deployment::Prod);
    assert_eq!(top.log.format, "human");
    assert_eq!(top.log.designators.as_deref(), Some("auth=debug"));
    assert_eq!(Root::deployment(&top), Deployment::Prod);
    assert_eq!(top.log().format, "human");
}

#[test]
fn deployment_unset_refuses_naming_every_spelling() {
    let refusal = match load_from::<Top, Files>(&strings(&["--name=x"]), &[], &Files(Vec::new())) {
        Err(r) => r,
        Ok(_) => panic!("expected a refusal"),
    };
    assert_eq!(refusal.variable, "DEPLOYMENT_TYPE");
    assert_eq!(refusal.value, "unset");
    assert!(refusal.accepted.contains("--deployment on the command line"));
    assert!(refusal.accepted.contains("`deployment = …` at the top level of the config file"));
}

#[test]
fn deployment_and_log_are_also_reachable_by_flag_and_file() {
    let f = file(9, "[log]\nformat = \"human\"\n");
    let top = ok_in(&[&f], &["--name=x", &config_arg(&f), "--deployment=prod", "--upstream=u"], &[]);
    assert_eq!(top.deployment, Deployment::Prod);
    assert_eq!(top.log.format, "human");
}

#[test]
fn a_bad_deployment_type_refuses_in_the_shared_words() {
    let refusal = err(&["--name=x"], &[("DEPLOYMENT_TYPE", "staging")]);
    assert_eq!(refusal.variable, "DEPLOYMENT_TYPE");
    assert_eq!(refusal.value, "staging");
    assert_eq!(refusal.accepted, DEPLOYMENT_ACCEPTED);
    let refusal = err(&["--name=x"], &[("DEPLOYMENT_TYPE", "")]);
    assert_eq!(refusal.value, "", "an empty value is set, and set-but-invalid refuses");
}

#[test]
fn the_deployment_help_is_the_shared_text_unless_the_root_documents_it() {
    let field = Top::schema(&Path::root()).into_iter().find(|f| f.toml() == "deployment").unwrap();
    assert_eq!(field.help, DEPLOYMENT_HELP);
    assert_eq!(field.presence, Presence::Required);
}

#[test]
fn missing_required_names_all_three_spellings() {
    let refusal = err(&[], &[]);
    assert_eq!(refusal.variable, "APP_NAME");
    assert_eq!(refusal.value, "unset");
    assert!(refusal.accepted.contains("APP_NAME in the environment"));
    assert!(refusal.accepted.contains("--name on the command line"));
    assert!(refusal.accepted.contains("`name = …` at the top level of the config file"));
}

#[test]
fn required_nested_loads_when_set() {
    let env = pairs(&[("STRICT_INNER__KEY", "k")]);
    match load_from::<Strict, Files>(&[], &env, &Files(Vec::new())) {
        Ok(Outcome::Config(strict)) => assert_eq!(strict.inner.key, "k"),
        _ => panic!("expected a config"),
    }
}

#[test]
fn missing_required_nested_names_its_table() {
    let refusal = match load_from::<Strict, Files>(&[], &pairs(&[]), &Files(Vec::new())) {
        Err(r) => r,
        Ok(_) => panic!("expected a refusal"),
    };
    assert_eq!(refusal.variable, "STRICT_INNER__KEY");
    assert!(refusal.accepted.contains("--inner--key on the command line"));
    assert!(refusal.accepted.contains("`key = …` under [inner] in the config file"));
}

#[test]
fn optional_field_is_none_until_set() {
    assert_eq!(ok(&["--name=x"], &[]).note, None);
    assert_eq!(ok(&["--name=x", "--note", "hi"], &[]).note.as_deref(), Some("hi"));
}

#[test]
fn help_lists_every_field_grouped_by_table() {
    let out = text(&["--help"], &[]);
    for field in Top::schema(&Path::root()) {
        assert!(out.contains(&field.flag()), "{}", field.flag());
        assert!(out.contains(&field.env("APP")), "{}", field.env("APP"));
        assert!(out.contains(&field.help), "{}", field.help);
    }
    let top = out.find("top level").unwrap();
    let mid = out.find("[mid]").unwrap();
    let deep = out.find("[mid.deep]").unwrap();
    let log = out.find("[log]").unwrap();
    assert!(top < mid && mid < deep && deep < log);
    assert!(out.contains("APP_CONFIG"));
    assert!(out.contains("default s3cret, secret"));
    assert!(out.contains("  required"));
    assert!(out.contains("default 7"));
}

#[test]
fn help_wins_over_a_missing_required_and_an_unknown_flag() {
    assert!(text(&["--bogus", "-h"], &[]).starts_with("app:"));
}

#[test]
fn print_config_shows_value_and_origin_per_field() {
    let f = file(10, "count = 2\n");
    let out = text_in(&[&f], &["--name=x", &config_arg(&f), "--print-config"], &[("APP_MID__SIZE", "30")]);
    assert!(out.starts_with(&format!("config file: {}\n", f.path)));
    let line = |key: &str| {
        out.lines()
            .find(|l| l.starts_with(&format!("{key} ")))
            .unwrap_or_else(|| panic!("no line for {key} in:\n{out}"))
            .to_string()
    };
    assert!(line("name").ends_with("arg --name"));
    assert!(line("count").ends_with(&format!("file {}", f.path)));
    assert!(line("mid.size").ends_with("env APP_MID__SIZE"));
    assert!(line("mid.deep.level").ends_with("default"));
    assert!(line("note").contains("<unset>"));
    assert!(line("deployment").ends_with("env DEPLOYMENT_TYPE"));
}

#[test]
fn print_config_does_not_require_the_required_fields() {
    let out = text(&["--print-config"], &[]);
    assert!(out.contains("name"));
    assert!(out.contains("<unset>"));
    assert!(out.contains("required"));
}

#[test]
fn config_path_comes_from_app_config_env() {
    let f = file(11, "count = 9\n");
    let top = ok_in(&[&f], &["--name=x"], &[("APP_CONFIG", f.path.as_str())]);
    assert_eq!(top.count, 9);
}

#[test]
fn config_flag_beats_app_config_env() {
    let from_flag = file(12, "count = 1\n");
    let from_env = file(13, "count = 2\n");
    let top = ok_in(&[&from_flag, &from_env], &["--name=x", &config_arg(&from_flag)], &[("APP_CONFIG", from_env.path.as_str())]);
    assert_eq!(top.count, 1);
}

#[test]
fn missing_config_file_refuses_naming_the_path() {
    let path = "/tmp/common-config-does-not-exist.toml";
    let refusal = err(&["--name=x", &format!("--config={path}")], &[]);
    assert_eq!(refusal.variable, "--config");
    assert_eq!(refusal.value, path);
    assert!(refusal.detail.unwrap().starts_with("cannot read: "));
    let refusal = err(&["--name=x"], &[("APP_CONFIG", path)]);
    assert_eq!(refusal.variable, "APP_CONFIG");
}

#[test]
fn unreadable_config_file_refuses() {
    let refusal = err(&["--name=x", "--config=/tmp"], &[]);
    assert_eq!(refusal.variable, "--config");
    assert!(refusal.detail.unwrap().starts_with("cannot read: "));
}

#[test]
fn malformed_config_file_refuses_with_the_line() {
    let f = file(14, "count = 1\n[mid\nsize = 2\n");
    let refusal = err_in(&[&f], &["--name=x", &config_arg(&f)], &[]);
    assert_eq!(refusal.accepted, "a well-formed TOML file");
    assert!(refusal.detail.unwrap().ends_with("(line 2)"));
}

#[test]
fn array_value_in_config_file_refuses() {
    let f = file(15, "count = [1, 2]\n");
    let refusal = err_in(&[&f], &["--name=x", &config_arg(&f)], &[]);
    assert_eq!(refusal.detail.as_deref(), Some("not a scalar: count"));
}

#[test]
fn toml_scalars_of_any_type_become_text() {
    let f = file(16, "count = 5\nverbose = true\nname = \"from-file\"\n[mid]\nsize = 1\n");
    let top = ok_in(&[&f], &[&config_arg(&f)], &[]);
    assert_eq!((top.count, top.verbose, top.name.as_str()), (5, true, "from-file"));
}

#[test]
fn print_config_names_the_env_var_when_no_file_is_configured() {
    let out = text(&["--name=x", "--print-config"], &[]);
    assert!(out.starts_with("config file: none (--config or APP_CONFIG to set one)"));
}

#[test]
fn classes_are_data_on_the_schema_and_print_in_help() {
    let fields = Top::schema(&Path::root());
    let class_of = |key: &str| fields.iter().find(|f| f.toml() == key).unwrap().class;
    assert_eq!(class_of("upstream"), Class::ProdRequired);
    assert_eq!(class_of("stub_user"), Class::DevOnly);
    assert_eq!(class_of("no_auth"), Class::DevOnly);
    assert_eq!(class_of("name"), Class::Neutral);
    let out = text(&["--help"], &[]);
    let tail = |flag: &str| {
        out.lines()
            .find(|l| l.trim_start().starts_with(flag))
            .unwrap_or_else(|| panic!("no help line for {flag}:\n{out}"))
            .trim_end()
            .to_owned()
    };
    assert!(tail("--upstream").ends_with("prod-required"), "{out}");
    assert!(tail("--stub-user").ends_with("dev-only"), "{out}");
    assert!(tail("--no-auth").ends_with("dev-only"), "{out}");
}

#[test]
fn under_dev_the_classes_do_not_bite() {
    let top = ok(&["--name=x", "--stub-user=alice", "--no-auth"], &[("DEPLOYMENT_TYPE", "dev")]);
    assert_eq!(top.upstream, None);
    assert_eq!(top.stub_user.as_deref(), Some("alice"));
    assert!(top.no_auth);
}

#[test]
fn under_prod_a_prod_required_value_must_be_set() {
    let refusal = err(&["--name=x"], &[("DEPLOYMENT_TYPE", "prod")]);
    assert_eq!(refusal.variable, "APP_UPSTREAM");
    assert_eq!(refusal.value, "unset");
    assert!(refusal.accepted.contains("--upstream"), "{}", refusal.to_string());
    assert_eq!(refusal.detail.as_deref(), Some("prod-required and unset under DEPLOYMENT_TYPE=prod"));
    let top = ok(&["--name=x", "--upstream=https://up"], &[("DEPLOYMENT_TYPE", "prod")]);
    assert_eq!(top.upstream.as_deref(), Some("https://up"));
}

#[test]
fn under_prod_a_dev_only_value_must_not_be_set() {
    let prod = [("DEPLOYMENT_TYPE", "prod"), ("APP_UPSTREAM", "https://up")];
    let refusal = err(&["--name=x", "--stub-user=alice"], &prod);
    assert_eq!(refusal.variable, "APP_STUB_USER");
    assert_eq!(refusal.value, "alice");
    assert_eq!(refusal.detail.as_deref(), Some("dev-only and set under DEPLOYMENT_TYPE=prod"));
    let refusal = err(&["--name=x", "--no-auth"], &prod);
    assert_eq!(refusal.variable, "APP_NO_AUTH");
    assert!(!ok(&["--name=x", "--no-auth=false"], &prod).no_auth);
}

#[test]
fn load_named_reads_under_the_names_given() {
    let files = Files(Vec::new());
    let env = vec![
        ("DEPLOYMENT_TYPE".to_string(), "dev".to_string()),
        ("OTHER_NAME".to_string(), "from-env".to_string()),
    ];
    match load_named::<Top, Files>("OTHER", "other", &strings(&[]), &env, &files) {
        Ok(Outcome::Config(top)) => assert_eq!(top.name, "from-env"),
        _ => panic!("expected a config"),
    }
    match load_named::<Top, Files>("OTHER", "other", &strings(&["--help"]), &env, &files) {
        Ok(Outcome::Help(h)) => assert!(h.contains("OTHER_NAME"), "{h}"),
        _ => panic!("expected help"),
    }
}
