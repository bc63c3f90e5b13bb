//! The rules a config struct's fields are registered by: what a field's
//! type and attributes make of its presence, class and kind, and its help
//! text from the doc comment.

use vstd::prelude::*;

use crate::config::deployment::{DEPLOYMENT_ACCEPTED, DEPLOYMENT_HELP};
use crate::config::schema::{Class, Kind, Presence};
use crate::text::{chars_of, join, joined, lower, lowercase, opt_view, owned, same, trim, trimmed, views};

verus! {

/// A field's type, as far as the rules care.
#[derive(Debug, Clone, Copy, PartialEq, Eq, Structural)]
pub enum Shape {
    Bool,
    OptBool,
    Opt,
    Plain,
}

pub const BOTH_DEFAULT_AND_REQUIRED: &'static str = "a field is either #[config(default = …)] or #[config(required)], not both";

pub const OPTION_IS_OPTIONAL: &'static str = "an Option<T> field is optional by its type: drop the Option, or drop default/required";

pub const PLAIN_NEEDS_PRESENCE: &'static str = "a field needs #[config(default = \"…\")], #[config(required)], or an Option<T> type";

pub const BOTH_CLASSES: &'static str = "a field is #[config(prod_required)] or #[config(dev_only)], not both";

pub const PROD_REQUIRED_SHAPE: &'static str = "#[config(prod_required)] needs an Option<T> field with no default: unset is legal under dev and refused under prod";

pub const DEV_ONLY_SHAPE: &'static str = "#[config(dev_only)] needs an Option<T> or bool field with no default: set under prod is refused";

pub enum PresenceV {
    Required,
    Default(Seq<char>),
    Optional,
}

pub open spec fn presence_view(p: Presence) -> PresenceV {
    match p {
        Presence::Required => PresenceV::Required,
        Presence::Default(d) => PresenceV::Default(d@),
        Presence::Optional => PresenceV::Optional,
    }
}

/// A field's presence: an `Option` is optional; a `bool` defaults to false
/// unless told otherwise; any other type must be given a default or be
/// required.
pub open spec fn presence_spec(shape: Shape, default: Option<Seq<char>>, required: bool) -> Result<
    PresenceV,
    Seq<char>,
> {
    if default is Some && required {
        Err(BOTH_DEFAULT_AND_REQUIRED@)
    } else {
        match shape {
            Shape::Opt | Shape::OptBool => if default is Some || required {
                Err(OPTION_IS_OPTIONAL@)
            } else {
                Ok(PresenceV::Optional)
            },
            Shape::Bool => match default {
                Some(d) => Ok(PresenceV::Default(d)),
                None => if required {
                    Ok(PresenceV::Required)
                } else {
                    Ok(PresenceV::Default("false"@))
                },
            },
            Shape::Plain => match default {
                Some(d) => Ok(PresenceV::Default(d)),
                None => if required {
                    Ok(PresenceV::Required)
                } else {
                    Err(PLAIN_NEEDS_PRESENCE@)
                },
            },
        }
    }
}

pub fn presence_rule(shape: Shape, default: Option<&str>, required: bool) -> (r: Result<Presence, String>)
    ensures
        match r {
            Ok(p) => presence_spec(shape, crate::config::values::opt_str(default), required) == Ok::<
                PresenceV,
                Seq<char>,
            >(presence_view(p)),
            Err(e) => presence_spec(shape, crate::config::values::opt_str(default), required)
                == Err::<PresenceV, Seq<char>>(e@),
        },
{
    if default.is_some() && required {
        return Err(owned(BOTH_DEFAULT_AND_REQUIRED));
    }
    match shape {
        Shape::Opt | Shape::OptBool => {
            if default.is_some() || required {
                Err(owned(OPTION_IS_OPTIONAL))
            } else {
                Ok(Presence::Optional)
            }
        },
        Shape::Bool => match default {
            Some(d) => Ok(Presence::Default(owned(d))),
            None => {
                if required {
                    Ok(Presence::Required)
                } else {
                    Ok(Presence::Default(owned("false")))
                }
            },
        },
        Shape::Plain => match default {
            Some(d) => Ok(Presence::Default(owned(d))),
            None => {
                if required {
                    Ok(Presence::Required)
                } else {
                    Err(owned(PLAIN_NEEDS_PRESENCE))
                }
            },
        },
    }
}

/// A field's class: prod-required only for an `Option` with no default
/// and not required; dev-only only for an `Option` or `bool` with no
/// default (or a `false` one) and not required.
pub open spec fn class_spec(
    shape: Shape,
    default: Option<Seq<char>>,
    required: bool,
    prod_required: bool,
    dev_only: bool,
) -> Result<Class, Seq<char>> {
    if !prod_required && !dev_only {
        Ok(Class::Neutral)
    } else if prod_required && dev_only {
        Err(BOTH_CLASSES@)
    } else if prod_required {
        if (shape == Shape::Opt || shape == Shape::OptBool) && default is None && !required {
            Ok(Class::ProdRequired)
        } else {
            Err(PROD_REQUIRED_SHAPE@)
        }
    } else if (shape == Shape::Opt || shape == Shape::OptBool || shape == Shape::Bool) && (match default {
        None => true,
        Some(d) => d == "false"@,
    }) && !required {
        Ok(Class::DevOnly)
    } else {
        Err(DEV_ONLY_SHAPE@)
    }
}

pub fn class_rule(
    shape: Shape,
    default: Option<&str>,
    required: bool,
    prod_required: bool,
    dev_only: bool,
) -> (r: Result<Class, String>)
    ensures
        match r {
            Ok(c) => class_spec(shape, crate::config::values::opt_str(default), required, prod_required, dev_only)
                == Ok::<Class, Seq<char>>(c),
            Err(e) => class_spec(
                shape,
                crate::config::values::opt_str(default),
                required,
                prod_required,
                dev_only,
            ) == Err::<Class, Seq<char>>(e@),
        },
{
    if !prod_required && !dev_only {
        return Ok(Class::Neutral);
    }
    if prod_required && dev_only {
        return Err(owned(BOTH_CLASSES));
    }
    if prod_required {
        if (shape == Shape::Opt || shape == Shape::OptBool) && default.is_none() && !required {
            return Ok(Class::ProdRequired);
        }
        return Err(owned(PROD_REQUIRED_SHAPE));
    }
    let default_ok = match default {
        None => true,
        Some(d) => same(d, "false"),
    };
    if (shape == Shape::Opt || shape == Shape::OptBool || shape == Shape::Bool) && default_ok && !required {
        Ok(Class::DevOnly)
    } else {
        Err(owned(DEV_ONLY_SHAPE))
    }
}

/// How a field of a shape is read: a boolean, or text.
pub fn kind_of(shape: Shape) -> (r: Kind)
    ensures
        r == (if shape == Shape::Bool || shape == Shape::OptBool {
            Kind::Bool
        } else {
            Kind::Text
        }),
{
    match shape {
        Shape::Bool | Shape::OptBool => Kind::Bool,
        _ => Kind::Text,
    }
}

/// The doc comment's lines, trimmed, blank ones dropped.
pub open spec fn doc_lines(lines: Seq<Seq<char>>) -> Seq<Seq<char>>
    decreases lines.len(),
{
    if lines.len() == 0 {
        seq![]
    } else {
        let rest = doc_lines(lines.drop_last());
        if trim(lines.last()).len() > 0 {
            rest.push(trim(lines.last()))
        } else {
            rest
        }
    }
}

/// A field's help: its doc comment's non-blank lines, trimmed and joined by
/// a space.
pub fn doc_text(lines: &Vec<String>) -> (r: String)
    ensures
        r@ == join(doc_lines(views(lines@)), " "@),
{
    let mut kept: Vec<String> = Vec::new();
    let mut i: usize = 0;
    assert(views(lines@).take(0) =~= Seq::<Seq<char>>::empty());
    assert(views(kept@) =~= doc_lines(views(lines@).take(0)));
    while i < lines.len()
        invariant
            i <= lines.len(),
            views(kept@) == doc_lines(views(lines@).take(i as int)),
        decreases lines.len() - i,
    {
        let ghost t = views(lines@).take(i + 1);
        assert(t.drop_last() =~= views(lines@).take(i as int));
        assert(t.last() == lines@[i as int]@);
        let line = trimmed(lines[i].as_str());
        if line.as_str().unicode_len() > 0 {
            let ghost before = kept@;
            kept.push(line);
            assert(views(kept@) =~= views(before).push(line@));
        }
        i = i + 1;
    }
    assert(views(lines@).take(i as int) =~= views(lines@));
    joined(&kept, " ")
}

pub const NESTED_ALONE: &'static str = "#[config(nested)] takes no other #[config] key: the inner struct declares its own";

pub const DEPLOYMENT_SPELLED: &'static str = "a root's `deployment` field is spelled by common-config (DEPLOYMENT_TYPE, required): it takes no default, env, flag or accepted";

pub const ROOT_NEEDS_DEPLOYMENT: &'static str = "#[config(app = …)] needs a `deployment: common_config::Deployment` field";

pub const ROOT_NEEDS_LOG: &'static str = "#[config(app = …)] needs a `#[config(nested)] log: …` field: the section common_logging::boot initialises logging from";

pub const BIN_NEEDS_APP: &'static str = "#[config(bin = …)] needs #[config(app = …)] on the same struct";

pub const APP_NAME_SHAPE: &'static str = "#[config(app = …)] is the env prefix: ASCII upper-case letters and digits only, such as \"CRON\"";

pub const FLAG_SHAPE: &'static str = "#[config(flag = …)] is the bare name without the leading dashes, such as \"data-dir\"";

/// A field's `#[config(...)]` keys.
#[derive(Debug, Clone, Default)]
pub struct FieldAttrs {
    pub default: Option<String>,
    pub required: bool,
    pub secret: bool,
    pub nested: bool,
    pub prod_required: bool,
    pub dev_only: bool,
    pub env: Option<String>,
    pub flag: Option<String>,
    pub accepted: Option<String>,
}

/// The refusal of a `#[config]` key a field does not take.
pub const FIELD_KEY_REFUSAL: &'static str = "unknown #[config] key on a field: expected default, required, secret, nested, prod_required, dev_only, env, flag or accepted";

/// The refusal of a `#[config]` key a struct does not take.
pub const ROOT_KEY_REFUSAL: &'static str = "unknown #[config] key on a struct: expected `app` or `bin`";

/// The field keys written `key = "text"`; the others stand alone.
pub open spec fn field_key_valued_spec(key: Seq<char>) -> bool {
    key == "default"@ || key == "env"@ || key == "flag"@ || key == "accepted"@
}

/// What one field key makes of the attributes read so far: a valued key
/// sets its text, a bare key turns its switch on; `None` for a key a field
/// does not take.
pub open spec fn with_field_key(a: FieldAttrs, key: Seq<char>, value: Option<String>) -> Option<FieldAttrs> {
    if key == "default"@ {
        Some(FieldAttrs { default: value, ..a })
    } else if key == "required"@ {
        Some(FieldAttrs { required: true, ..a })
    } else if key == "secret"@ {
        Some(FieldAttrs { secret: true, ..a })
    } else if key == "nested"@ {
        Some(FieldAttrs { nested: true, ..a })
    } else if key == "prod_required"@ {
        Some(FieldAttrs { prod_required: true, ..a })
    } else if key == "dev_only"@ {
        Some(FieldAttrs { dev_only: true, ..a })
    } else if key == "env"@ {
        Some(FieldAttrs { env: value, ..a })
    } else if key == "flag"@ {
        Some(FieldAttrs { flag: value, ..a })
    } else if key == "accepted"@ {
        Some(FieldAttrs { accepted: value, ..a })
    } else {
        None
    }
}

/// Whether a field key is written with a value.
pub fn field_key_valued(key: &str) -> (r: bool)
    ensures
        r == field_key_valued_spec(key@),
{
    same(key, "default") || same(key, "env") || same(key, "flag") || same(key, "accepted")
}

/// Reads one `#[config]` key of a field into `attrs`; `value` is its text
/// where the key is written with one.
pub fn field_key(attrs: &mut FieldAttrs, key: &str, value: Option<String>) -> (r: Result<(), String>)
    ensures
        match with_field_key(*old(attrs), key@, value) {
            Some(a) => r is Ok && *final(attrs) == a,
            None => r matches Err(m) && m@ == FIELD_KEY_REFUSAL@ && *final(attrs) == *old(attrs),
        },
{
    if same(key, "default") {
        attrs.default = value;
    } else if same(key, "required") {
        attrs.required = true;
    } else if same(key, "secret") {
        attrs.secret = true;
    } else if same(key, "nested") {
        attrs.nested = true;
    } else if same(key, "prod_required") {
        attrs.prod_required = true;
    } else if same(key, "dev_only") {
        attrs.dev_only = true;
    } else if same(key, "env") {
        attrs.env = value;
    } else if same(key, "flag") {
        attrs.flag = value;
    } else if same(key, "accepted") {
        attrs.accepted = value;
    } else {
        return Err(owned(FIELD_KEY_REFUSAL));
    }
    Ok(())
}

/// The keys a config root takes.
#[derive(Debug, Clone, Copy, PartialEq, Eq, Structural)]
pub enum RootKey {
    App,
    Bin,
}

/// Which root key `key` is, or the refusal of one a struct does not take.
pub fn root_key(key: &str) -> (r: Result<RootKey, String>)
    ensures
        if key@ == "app"@ {
            r == Ok::<RootKey, String>(RootKey::App)
        } else if key@ == "bin"@ {
            r == Ok::<RootKey, String>(RootKey::Bin)
        } else {
            r matches Err(m) && m@ == ROOT_KEY_REFUSAL@
        },
{
    if same(key, "app") {
        Ok(RootKey::App)
    } else if same(key, "bin") {
        Ok(RootKey::Bin)
    } else {
        Err(owned(ROOT_KEY_REFUSAL))
    }
}

/// What a field registers: a nested struct's own fields, or one leaf.
#[derive(Debug, Clone, PartialEq, Eq)]
pub enum FieldPlan {
    Nested,
    Leaf {
        help: String,
        presence: Presence,
        class: Class,
        secret: bool,
        kind: Kind,
        env: Option<String>,
        flag: Option<String>,
        accepted: Option<String>,
    },
}

pub enum FieldPlanV {
    Nested,
    Leaf {
        help: Seq<char>,
        presence: PresenceV,
        class: Class,
        secret: bool,
        kind: Kind,
        env: Option<Seq<char>>,
        flag: Option<Seq<char>>,
        accepted: Option<Seq<char>>,
    },
}

pub open spec fn plan_view(p: FieldPlan) -> FieldPlanV {
    match p {
        FieldPlan::Nested => FieldPlanV::Nested,
        FieldPlan::Leaf { help, presence, class, secret, kind, env, flag, accepted } => FieldPlanV::Leaf {
            help: help@,
            presence: presence_view(presence),
            class,
            secret,
            kind,
            env: opt_view(env),
            flag: opt_view(flag),
            accepted: opt_view(accepted),
        },
    }
}

/// Whether a nested field carries a key of its own.
pub open spec fn nested_keyed(a: FieldAttrs) -> bool {
    a.default is Some || a.required || a.secret || a.prod_required || a.dev_only || a.env is Some
        || a.flag is Some || a.accepted is Some
}

/// What a field registers, `root` telling whether its struct names the
/// application. A root's `deployment` is spelled by the library: required,
/// under `DEPLOYMENT_TYPE`, with the shared accepted text and, undocumented,
/// the shared help.
pub open spec fn plan_spec(root: bool, name: Seq<char>, shape: Shape, a: FieldAttrs, doc: Seq<char>) -> Result<
    FieldPlanV,
    Seq<char>,
> {
    let deployment = root && name == "deployment"@;
    if a.nested {
        if nested_keyed(a) {
            Err(NESTED_ALONE@)
        } else {
            Ok(FieldPlanV::Nested)
        }
    } else if deployment && (a.default is Some || a.env is Some || a.flag is Some || a.accepted is Some) {
        Err(DEPLOYMENT_SPELLED@)
    } else {
        let required = a.required || deployment;
        match presence_spec(shape, opt_view(a.default), required) {
            Err(e) => Err(e),
            Ok(presence) => match class_spec(shape, opt_view(a.default), required, a.prod_required, a.dev_only) {
                Err(e) => Err(e),
                Ok(class) => Ok(FieldPlanV::Leaf {
                    help: if doc.len() == 0 && deployment {
                        DEPLOYMENT_HELP@
                    } else {
                        doc
                    },
                    presence,
                    class,
                    secret: a.secret,
                    kind: if shape == Shape::Bool || shape == Shape::OptBool {
                        Kind::Bool
                    } else {
                        Kind::Text
                    },
                    env: if deployment {
                        Some("DEPLOYMENT_TYPE"@)
                    } else {
                        opt_view(a.env)
                    },
                    flag: opt_view(a.flag),
                    accepted: if deployment {
                        Some(DEPLOYMENT_ACCEPTED@)
                    } else {
                        opt_view(a.accepted)
                    },
                }),
            },
        }
    }
}

fn opt_text(o: &Option<String>) -> (r: Option<&str>)
    ensures
        crate::config::values::opt_str(r) == opt_view(*o),
{
    match o {
        Some(s) => Some(s.as_str()),
        None => None,
    }
}

/// What the field `name`, of a type of `shape`, with the keys `attrs` and
/// the help `doc`, registers.
pub fn plan_field(root: bool, name: &str, shape: Shape, attrs: &FieldAttrs, doc: &str) -> (r: Result<FieldPlan, String>)
    ensures
        match r {
            Ok(p) => plan_spec(root, name@, shape, *attrs, doc@) == Ok::<FieldPlanV, Seq<char>>(plan_view(p)),
            Err(e) => plan_spec(root, name@, shape, *attrs, doc@) == Err::<FieldPlanV, Seq<char>>(e@),
        },
{
    let deployment = root && same(name, "deployment");
    if attrs.nested {
        if attrs.default.is_some() || attrs.required || attrs.secret || attrs.prod_required || attrs.dev_only
            || attrs.env.is_some() || attrs.flag.is_some() || attrs.accepted.is_some() {
            return Err(owned(NESTED_ALONE));
        }
        return Ok(FieldPlan::Nested);
    }
    if deployment && (attrs.default.is_some() || attrs.env.is_some() || attrs.flag.is_some()
        || attrs.accepted.is_some()) {
        return Err(owned(DEPLOYMENT_SPELLED));
    }
    let required = attrs.required || deployment;
    let default = opt_text(&attrs.default);
    let presence = match presence_rule(shape, default, required) {
        Ok(p) => p,
        Err(e) => {
            return Err(e);
        },
    };
    let class = match class_rule(shape, default, required, attrs.prod_required, attrs.dev_only) {
        Ok(c) => c,
        Err(e) => {
            return Err(e);
        },
    };
    let help = if doc.unicode_len() == 0 && deployment {
        owned(DEPLOYMENT_HELP)
    } else {
        owned(doc)
    };
    let env = if deployment {
        Some(owned("DEPLOYMENT_TYPE"))
    } else {
        attrs.env.clone()
    };
    let accepted = if deployment {
        Some(owned(DEPLOYMENT_ACCEPTED))
    } else {
        attrs.accepted.clone()
    };
    Ok(FieldPlan::Leaf {
        help,
        presence,
        class,
        secret: attrs.secret,
        kind: kind_of(shape),
        env,
        flag: attrs.flag.clone(),
        accepted,
    })
}

/// Whether `c` may stand in an env prefix.
pub open spec fn app_char(c: char) -> bool {
    ('A' <= c && c <= 'Z') || ('0' <= c && c <= '9')
}

/// The refusal of an `app` name that is not an env prefix: empty, or with
/// a character other than an ASCII upper-case letter or digit.
pub fn app_refusal(app: &str) -> (r: Option<String>)
    ensures
        match r {
            None => app@.len() > 0 && forall|i: int| 0 <= i < app@.len() ==> app_char(#[trigger] app@[i]),
            Some(m) => m@ == APP_NAME_SHAPE@ && !(app@.len() > 0 && forall|i: int|
                0 <= i < app@.len() ==> app_char(#[trigger] app@[i])),
        },
{
    let v = chars_of(app);
    if v.len() == 0 {
        return Some(owned(APP_NAME_SHAPE));
    }
    let mut i: usize = 0;
    while i < v.len()
        invariant
            i <= v@.len(),
            v@ == app@,
            forall|j: int| 0 <= j < i ==> app_char(#[trigger] app@[j]),
        decreases v.len() - i,
    {
        let c = v[i];
        if !(('A' <= c && c <= 'Z') || ('0' <= c && c <= '9')) {
            assert(!app_char(app@[i as int]));
            return Some(owned(APP_NAME_SHAPE));
        }
        i = i + 1;
    }
    None
}

/// The refusal of a `flag` name: empty, or written with a leading dash.
pub fn flag_refusal(flag: &str) -> (r: Option<String>)
    ensures
        match r {
            None => flag@.len() > 0 && flag@[0] != '-',
            Some(m) => m@ == FLAG_SHAPE@ && (flag@.len() == 0 || flag@[0] == '-'),
        },
{
    let v = chars_of(flag);
    if v.len() == 0 || v[0] == '-' {
        Some(owned(FLAG_SHAPE))
    } else {
        None
    }
}

/// The name `--help` shows: the given `bin`, else the app name lower-cased.
pub fn bin_name(app: &str, bin: Option<&str>) -> (r: String)
    ensures
        r@ == match crate::config::values::opt_str(bin) {
            Some(b) => b,
            None => lower(app@),
        },
{
    match bin {
        Some(b) => owned(b),
        None => lowercase(app),
    }
}

/// What a struct's own keys and fields refuse, if anything: a `bin` without
/// an `app`, and a root without its `deployment` or its nested `log`.
pub fn root_refusal(app: Option<&str>, bin: Option<&str>, has_deployment: bool, has_log: bool) -> (r: Option<String>)
    ensures
        match r {
            None => (app is Some || bin is None) && (app is Some ==> has_deployment && has_log),
            Some(m) => if app is None {
                bin is Some && m@ == BIN_NEEDS_APP@
            } else if !has_deployment {
                m@ == ROOT_NEEDS_DEPLOYMENT@
            } else {
                !has_log && m@ == ROOT_NEEDS_LOG@
            },
        },
{
    match app {
        None => {
            if bin.is_some() {
                Some(owned(BIN_NEEDS_APP))
            } else {
                None
            }
        },
        Some(_) => {
            if !has_deployment {
                Some(owned(ROOT_NEEDS_DEPLOYMENT))
            } else if !has_log {
                Some(owned(ROOT_NEEDS_LOG))
            } else {
                None
            }
        },
    }
}

} // verus!
