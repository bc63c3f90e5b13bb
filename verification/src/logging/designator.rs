//! The designator vocabulary and the field it travels in.

use vstd::prelude::*;

use crate::text::{append, owned, same, starts_with, Text};

verus! {

/// The field name events carry their designator in.
pub const FIELD: &'static str = "designator";

pub const CUSTOM_PREFIX: &'static str = "c-";

/// What an event is about. The six unit variants are the stand vocabulary;
/// `Custom` is a project's own and holds its whole column string.
#[derive(Debug, Clone, PartialEq, Eq)]
pub enum Designator {
    Auth,
    Business,
    Upstream,
    Storage,
    Http,
    Startup,
    Custom(String),
}

pub enum DesignatorV {
    Auth,
    Business,
    Upstream,
    Storage,
    Http,
    Startup,
    Custom(Seq<char>),
}

impl View for Designator {
    type V = DesignatorV;

    open spec fn view(&self) -> DesignatorV {
        match self {
            Designator::Auth => DesignatorV::Auth,
            Designator::Business => DesignatorV::Business,
            Designator::Upstream => DesignatorV::Upstream,
            Designator::Storage => DesignatorV::Storage,
            Designator::Http => DesignatorV::Http,
            Designator::Startup => DesignatorV::Startup,
            Designator::Custom(c) => DesignatorV::Custom(c@),
        }
    }
}

/// The string the log column and `LOG_DESIGNATORS` use.
pub open spec fn column_of(d: DesignatorV) -> Seq<char> {
    match d {
        DesignatorV::Auth => "auth"@,
        DesignatorV::Business => "business"@,
        DesignatorV::Upstream => "upstream"@,
        DesignatorV::Storage => "storage"@,
        DesignatorV::Http => "http"@,
        DesignatorV::Startup => "startup"@,
        DesignatorV::Custom(c) => c,
    }
}

/// The stand designator a column names, if any.
pub open spec fn stand_named(column: Seq<char>) -> Option<DesignatorV> {
    if column == "auth"@ {
        Some(DesignatorV::Auth)
    } else if column == "business"@ {
        Some(DesignatorV::Business)
    } else if column == "upstream"@ {
        Some(DesignatorV::Upstream)
    } else if column == "storage"@ {
        Some(DesignatorV::Storage)
    } else if column == "http"@ {
        Some(DesignatorV::Http)
    } else if column == "startup"@ {
        Some(DesignatorV::Startup)
    } else {
        None
    }
}

/// What a column reads back as: a stand name, else a custom designator
/// holding the column as given.
pub open spec fn from_column(column: Seq<char>) -> DesignatorV {
    match stand_named(column) {
        Some(d) => d,
        None => DesignatorV::Custom(column),
    }
}

/// A stand designator, or a custom one that carries the prefix.
pub open spec fn well_formed(d: DesignatorV) -> bool {
    match d {
        DesignatorV::Custom(c) => CUSTOM_PREFIX@.is_prefix_of(c),
        _ => true,
    }
}

/// A well-formed designator reads back from its column as itself.
pub proof fn lemma_column_round_trip(d: DesignatorV)
    requires
        well_formed(d),
    ensures
        from_column(column_of(d)) == d,
{
    reveal_strlit("auth");
    reveal_strlit("business");
    reveal_strlit("upstream");
    reveal_strlit("storage");
    reveal_strlit("http");
    reveal_strlit("startup");
    reveal_strlit("c-");
    match d {
        DesignatorV::Custom(c) => {
            assert(c.take(2) == "c-"@);
            assert(c.take(2)[0] == c[0]);
            assert(c[0] == 'c');
            assert("auth"@[0] != c[0]);
            assert("business"@[0] != c[0]);
            assert("upstream"@[0] != c[0]);
            assert("storage"@[0] != c[0]);
            assert("http"@[0] != c[0]);
            assert("startup"@[0] != c[0]);
            assert(c != "auth"@);
            assert(c != "business"@);
            assert(c != "upstream"@);
            assert(c != "storage"@);
            assert(c != "http"@);
            assert(c != "startup"@);
            assert(stand_named(c) is None);
        },
        _ => {
            assert("auth"@[0] != "business"@[0]);
            assert("auth"@[0] != "upstream"@[0]);
            assert("auth"@[0] != "storage"@[0]);
            assert("auth"@[0] != "http"@[0]);
            assert("auth"@[0] != "startup"@[0]);
            assert("business"@[0] != "upstream"@[0]);
            assert("business"@[0] != "storage"@[0]);
            assert("business"@[0] != "http"@[0]);
            assert("business"@[0] != "startup"@[0]);
            assert("upstream"@[0] != "storage"@[0]);
            assert("upstream"@[0] != "http"@[0]);
            assert("upstream"@[0] != "startup"@[0]);
            assert("storage"@[2] != "startup"@[2]);
            assert("http"@[0] != "storage"@[0]);
            assert("http"@[0] != "startup"@[0]);
        },
    }
}

fn stand_of(column: &str) -> (r: Option<Designator>)
    ensures
        match r {
            Some(d) => stand_named(column@) == Some(d@),
            None => stand_named(column@) is None,
        },
{
    if same(column, "auth") {
        Some(Designator::Auth)
    } else if same(column, "business") {
        Some(Designator::Business)
    } else if same(column, "upstream") {
        Some(Designator::Upstream)
    } else if same(column, "storage") {
        Some(Designator::Storage)
    } else if same(column, "http") {
        Some(Designator::Http)
    } else if same(column, "startup") {
        Some(Designator::Startup)
    } else {
        None
    }
}

impl Designator {
    /// A custom designator: the prefix, then `name`.
    pub fn from<T: Text>(name: T) -> (r: Designator)
        ensures
            r@ == DesignatorV::Custom(CUSTOM_PREFIX@ + name.text()),
    {
        let mut column = owned(CUSTOM_PREFIX);
        let name = name.into_string();
        append(&mut column, name.as_str());
        Designator::Custom(column)
    }

    /// Reads a column back: a stand name, else a custom designator holding
    /// the column as given. Never fails.
    pub fn from_str(column: &str) -> (r: Result<Designator, ()>)
        ensures
            r matches Ok(d) && d@ == from_column(column@),
    {
        match stand_of(column) {
            Some(d) => Ok(d),
            None => Ok(Designator::Custom(owned(column))),
        }
    }

    /// The column string (`Display`).
    pub fn to_string(&self) -> (r: String)
        ensures
            r@ == column_of(self@),
    {
        match self {
            Designator::Custom(c) => c.clone(),
            _ => owned(self.as_ref()),
        }
    }

    /// The variant's name: the column for a stand one, `custom` for every
    /// custom one.
    pub fn as_ref(&self) -> (r: &'static str)
        ensures
            r@ == match self@ {
                DesignatorV::Custom(_) => "custom"@,
                d => column_of(d),
            },
    {
        match self {
            Designator::Auth => "auth",
            Designator::Business => "business",
            Designator::Upstream => "upstream",
            Designator::Storage => "storage",
            Designator::Http => "http",
            Designator::Startup => "startup",
            Designator::Custom(_) => "custom",
        }
    }

    pub fn is_well_formed(&self) -> (r: bool)
        ensures
            r == well_formed(self@),
    {
        match self {
            Designator::Custom(column) => starts_with(column.as_str(), CUSTOM_PREFIX),
            _ => true,
        }
    }
}

pub const AUTH: Designator = Designator::Auth;

pub const BUSINESS: Designator = Designator::Business;

pub const UPSTREAM: Designator = Designator::Upstream;

pub const STORAGE: Designator = Designator::Storage;

pub const HTTP: Designator = Designator::Http;

pub const STARTUP: Designator = Designator::Startup;

/// The stand vocabulary, in order.
pub const STAND: [Designator; 6] = [AUTH, BUSINESS, UPSTREAM, STORAGE, HTTP, STARTUP];

/// The stand vocabulary's column strings, in order.
pub const STAND_NAMES: [&'static str; 6] = ["auth", "business", "upstream", "storage", "http", "startup"];

} // verus!
