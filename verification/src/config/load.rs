//! The load pipeline: schema → args → merge → typed parse → class check.

use vstd::prelude::*;

use crate::config::args::{parse, parse_spec, ParsedV};
use crate::config::class::{enforce, enforce_result};
use crate::config::deployment::Deployment;
use crate::config::file::{FileRead, FileReadV};
use crate::config::help::{help, help_text, print_config, print_config_text};
use crate::config::layers::{env_view, file_location, locate_file, merge, merge_result};
use crate::text::views;
use crate::config::path::Path;
use crate::config::refusal::Refusal;
use crate::config::schema::Field;
use crate::config::values::{has_path, Values};

verus! {

/// A struct read from config. `schema` registers its leaves under `prefix`;
/// `from_values` reads them back. A nested struct is a call into the inner
/// type's impl with `prefix.child(name)`.
pub trait Config: Sized {
    /// The paths `from_values` reads under `prefix` are all among `fields`;
    /// true of a type that gives no account of what it reads.
    open spec fn covered(fields: Seq<Field>, prefix: Seq<Seq<char>>) -> bool {
        true
    }

    fn schema(prefix: &Path) -> (r: Vec<Field>)
        ensures
            Self::covered(r@, prefix@),
    ;

    fn from_values(values: &Values, prefix: &Path) -> (r: Result<Self, Refusal>)
        requires
            values.wf(),
            Self::covered(values.view().fields, prefix@),
    ;
}

/// The struct that names the application: the env prefix and the binary name
/// shown by `--help`, and the deployment it was loaded under.
pub trait Root: Config {
    /// The env prefix.
    fn app() -> &'static str;

    /// The binary's name in `--help`.
    fn bin() -> &'static str;

    /// The deployment the struct was loaded under.
    fn deployment(&self) -> Deployment;
}

pub open spec fn opt_read_view(o: Option<FileRead>) -> Option<FileReadV> {
    match o {
        Some(x) => Some(x@),
        None => None,
    }
}

/// What the load answers once argv has parsed without `--help`, for the
/// file's read when one is located: the merge's refusal, the dump, or what
/// `from_values` read back at `root` — its refusal, or the struct, held to
/// the class check under the deployment the struct itself reports.
pub open spec fn after_parse<T: Root>(
    app: Seq<char>,
    root: Path,
    fields: Seq<Field>,
    parsed: ParsedV,
    env: Seq<(Seq<char>, Seq<char>)>,
    read: Option<FileReadV>,
    r: Result<Outcome<T>, Refusal>,
) -> bool {
    match merge_result(app, fields, parsed, env, read) {
        Err(e) => r matches Err(x) && x@ == e,
        Ok(v) => exists|values: Values|
            #![trigger values.view()]
            values.wf() && values.view() == v && if parsed.print_config {
                r matches Ok(Outcome::PrintConfig(t)) && t@ == print_config_text(values)
            } else {
                exists|read_back: Result<T, Refusal>|
                    #[trigger] call_ensures(T::from_values, (&values, &root), read_back) && match read_back {
                        Err(e) => r matches Err(x) && x@ == e@,
                        Ok(c) => exists|d: Deployment|
                            #[trigger] call_ensures(T::deployment, (&c,), d) && match enforce_result(values, d) {
                                Some(e) => r matches Err(x) && x@ == e,
                                None => r matches Ok(Outcome::Config(x)) && x == c,
                            },
                    }
            },
    }
}

/// Where the config file's text comes from.
pub trait ConfigFiles {
    fn read(&self, path: &str) -> FileRead;
}

#[derive(Debug)]
pub enum Outcome<T> {
    Config(T),
    Help(String),
    PrintConfig(String),
}

/// What loading answers under the names `app` and `bin`: for the schema
/// `T` registers at the root, argv's refusal, the help text, or, past argv
/// and the file's read where one is located, what `after_parse` says.
pub open spec fn loaded<T: Root>(
    app: Seq<char>,
    bin: Seq<char>,
    args: Seq<Seq<char>>,
    env: Seq<(Seq<char>, Seq<char>)>,
    r: Result<Outcome<T>, Refusal>,
) -> bool {
    exists|root: Path, schema: Vec<Field>|
        #[trigger] call_ensures(T::schema, (&root,), schema) && root@ == Seq::<Seq<char>>::empty()
            && match parse_spec(schema@, args) {
            Err(e) => r matches Err(x) && x@ == e,
            Ok(p) => if p.help {
                r matches Ok(Outcome::Help(h)) && h@ == help_text(app, bin, schema@)
            } else {
                exists|read: Option<FileReadV>|
                    #![trigger opt_some(read)]
                    (read is Some <==> file_location(app, p.config, env) is Some) && after_parse::<
                        T,
                    >(app, root, schema@, p, env, read, r)
            },
        }
}

/// Whether an optional read is there (a name to quantify reads by).
pub open spec fn opt_some(read: Option<FileReadV>) -> bool {
    read is Some
}

/// Loads `T` under the env prefix `app`, with `bin` as the name `--help`
/// shows. `args` is argv without the program name; `env` the process
/// environment; `files` where a named config file is read from.
pub fn load_named<T: Root, F: ConfigFiles>(
    app: &str,
    bin: &str,
    args: &[String],
    env: &[(String, String)],
    files: &F,
) -> (r: Result<Outcome<T>, Refusal>)
    ensures
        loaded::<T>(app@, bin@, views(args@), env_view(env@), r),
{
    let root = Path::root();
    let fields = T::schema(&root);
    let ghost fv = fields@;
    let ghost schema = fields;
    assert(root@ =~= Seq::<Seq<char>>::empty());
    let parsed = match parse(&fields, args) {
        Ok(p) => p,
        Err(e) => {
            return Err(e);
        },
    };
    if parsed.help {
        let text = help(app, bin, &fields);
        return Ok(Outcome::Help(text));
    }
    let ghost pv = parsed@;
    let print = parsed.print_config;
    let read = match locate_file(app, &parsed.config, env) {
        Some((path, _)) => Some(files.read(path.as_str())),
        None => None,
    };
    let ghost rv = opt_read_view(read);
    let ghost ev = env_view(env@);
    assert(opt_some(rv) == (rv is Some));
    let values = match merge(app, fields, parsed, env, read) {
        Ok(v) => v,
        Err(e) => {
            assert(after_parse::<T>(app@, root, fv, pv, ev, rv, Err::<Outcome<T>, Refusal>(e)));
            return Err(e);
        },
    };
    if print {
        let text = print_config(&values);
        let r: Result<Outcome<T>, Refusal> = Ok(Outcome::PrintConfig(text));
        assert(after_parse::<T>(app@, root, fv, pv, ev, rv, r));
        return r;
    }
    let config = match T::from_values(&values, &root) {
        Ok(c) => c,
        Err(e) => {
            assert(after_parse::<T>(app@, root, fv, pv, ev, rv, Err::<Outcome<T>, Refusal>(e)));
            return Err(e);
        },
    };
    let d = config.deployment();
    assert(call_ensures(T::deployment, (&config,), d));
    match enforce(&values, d) {
        Ok(()) => {},
        Err(e) => {
            assert(after_parse::<T>(app@, root, fv, pv, ev, rv, Err::<Outcome<T>, Refusal>(e)));
            return Err(e);
        },
    }
    let r: Result<Outcome<T>, Refusal> = Ok(Outcome::Config(config));
    assert(after_parse::<T>(app@, root, fv, pv, ev, rv, r));
    r
}

/// Loads `T` under the names it gives (`Root::app`, `Root::bin`).
pub fn load_from<T: Root, F: ConfigFiles>(
    args: &[String],
    env: &[(String, String)],
    files: &F,
) -> (r: Result<Outcome<T>, Refusal>)
    ensures
        exists|app: &'static str, bin: &'static str|
            #[trigger] call_ensures(T::app, (), app) && #[trigger] call_ensures(T::bin, (), bin)
                && loaded::<T>(app@, bin@, views(args@), env_view(env@), r),
{
    let app = T::app();
    let bin = T::bin();
    load_named::<T, F>(app, bin, args, env, files)
}

} // verus!
