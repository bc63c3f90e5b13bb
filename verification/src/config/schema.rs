//! What a config struct registers per leaf — `Field`, its presence rule, its
//! kind — and the provenance stamps a merged value carries.

use vstd::prelude::*;

use crate::config::path::{dotted_of, flag_of, env_of, Path};
use crate::text::{append, owned, Text};

verus! {

#[derive(Debug, Clone, PartialEq, Eq)]
pub enum Presence {
    Required,
    Default(String),
    Optional,
}

/// What the deployment class demands of an optional value; checked once
/// after the merge against the root's deployment.
#[derive(Debug, Clone, Copy, PartialEq, Eq, Structural)]
pub enum Class {
    Neutral,
    /// Unset under prod refuses; under dev it is simply absent.
    ProdRequired,
    /// Set (a bool: true) under prod refuses.
    DevOnly,
}

#[derive(Debug, Clone, Copy, PartialEq, Eq, Structural)]
pub enum Kind {
    Bool,
    Text,
}

#[derive(Debug, Clone, PartialEq, Eq)]
pub struct Field {
    pub path: Path,
    pub help: String,
    pub presence: Presence,
    pub class: Class,
    pub secret: bool,
    pub kind: Kind,
    /// Bare env name (a fleet-wide spelling) used instead of the generated one.
    pub env: Option<String>,
    /// Bare flag name (no dashes) used instead of the generated one.
    pub flag: Option<String>,
}

/// The flag a field answers to.
pub open spec fn field_flag(f: Field) -> Seq<char> {
    match f.flag {
        Some(name) => "--"@ + name@,
        None => flag_of(f.path@),
    }
}

/// The environment variable a field is read from.
pub open spec fn field_env(f: Field, app: Seq<char>) -> Seq<char> {
    match f.env {
        Some(name) => name@,
        None => env_of(f.path@, app),
    }
}

/// The TOML key of a field.
pub open spec fn field_toml(f: Field) -> Seq<char> {
    dotted_of(f.path@)
}

impl Field {
    pub fn flag(&self) -> (r: String)
        ensures
            r@ == field_flag(*self),
    {
        match &self.flag {
            Some(name) => {
                let mut out = owned("--");
                append(&mut out, name.as_str());
                out
            },
            None => self.path.flag(),
        }
    }

    pub fn env(&self, app: &str) -> (r: String)
        ensures
            r@ == field_env(*self, app@),
    {
        match &self.env {
            Some(name) => name.clone(),
            None => self.path.env(app),
        }
    }

    pub fn toml(&self) -> (r: String)
        ensures
            r@ == field_toml(*self),
    {
        self.path.dotted()
    }
}

/// The spec-side picture of an `Origin`.
pub enum OriginV {
    Default,
    File(Seq<char>),
    Env(Seq<char>),
    Arg(Seq<char>),
}

#[derive(Debug, Clone, PartialEq, Eq)]
pub enum Origin {
    Default,
    /// The config file, by its path as written.
    File(String),
    Env(String),
    Arg(String),
}

impl View for Origin {
    type V = OriginV;

    open spec fn view(&self) -> OriginV {
        match self {
            Origin::Default => OriginV::Default,
            Origin::File(p) => OriginV::File(p@),
            Origin::Env(n) => OriginV::Env(n@),
            Origin::Arg(f) => OriginV::Arg(f@),
        }
    }
}

/// How an origin renders: `default`, `file <path>`, `env <name>`, `arg <flag>`.
pub open spec fn origin_text(o: OriginV) -> Seq<char> {
    match o {
        OriginV::Default => "default"@,
        OriginV::File(p) => "file "@ + p,
        OriginV::Env(n) => "env "@ + n,
        OriginV::Arg(f) => "arg "@ + f,
    }
}

impl Origin {
    /// The rendering `Display` gives.
    pub fn to_string(&self) -> (r: String)
        ensures
            r@ == origin_text(self@),
    {
        match self {
            Origin::Default => owned("default"),
            Origin::File(p) => {
                let mut out = owned("file ");
                append(&mut out, p.as_str());
                out
            },
            Origin::Env(n) => {
                let mut out = owned("env ");
                append(&mut out, n.as_str());
                out
            },
            Origin::Arg(f) => {
                let mut out = owned("arg ");
                append(&mut out, f.as_str());
                out
            },
        }
    }
}

/// The spec-side picture of an `Entry`.
pub struct EntryV {
    pub text: Seq<char>,
    pub origin: OriginV,
}

#[derive(Debug, Clone, PartialEq, Eq)]
pub struct Entry {
    pub text: String,
    pub origin: Origin,
}

impl View for Entry {
    type V = EntryV;

    open spec fn view(&self) -> EntryV {
        EntryV { text: self.text@, origin: self.origin@ }
    }
}

#[derive(Debug, Clone, PartialEq, Eq)]
pub enum FileStatus {
    NotConfigured,
    /// The file read, by its path as written.
    Read(String),
}

pub enum FileStatusV {
    NotConfigured,
    Read(Seq<char>),
}

impl View for FileStatus {
    type V = FileStatusV;

    open spec fn view(&self) -> FileStatusV {
        match self {
            FileStatus::NotConfigured => FileStatusV::NotConfigured,
            FileStatus::Read(p) => FileStatusV::Read(p@),
        }
    }
}

} // verus!
