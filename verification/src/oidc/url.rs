//! A parsed URL, held as the parts the rules here read.

use vstd::prelude::*;

use crate::config::values::Leaf;
use crate::text::{opt_view, owned};

verus! {

/// A URL as the `url` crate parses it: its serialization and its parts.
#[derive(Debug, Clone, PartialEq, Eq)]
pub struct Url {
    pub text: String,
    pub scheme: String,
    pub host: Option<String>,
    /// The port written in the URL, when it is not the scheme's default.
    pub port: Option<u16>,
    /// The port, the scheme's default filled in.
    pub port_or_default: Option<u16>,
    pub path: String,
    pub query: Option<String>,
    pub fragment: Option<String>,
}

pub struct UrlV {
    pub text: Seq<char>,
    pub scheme: Seq<char>,
    pub host: Option<Seq<char>>,
    pub port: Option<u16>,
    pub port_or_default: Option<u16>,
    pub path: Seq<char>,
    pub query: Option<Seq<char>>,
    pub fragment: Option<Seq<char>>,
}

impl View for Url {
    type V = UrlV;

    open spec fn view(&self) -> UrlV {
        UrlV {
            text: self.text@,
            scheme: self.scheme@,
            host: opt_view(self.host),
            port: self.port,
            port_or_default: self.port_or_default,
            path: self.path@,
            query: opt_view(self.query),
            fragment: opt_view(self.fragment),
        }
    }
}

/// What the `url` crate makes of a text: the URL, or its error's rendering.
pub uninterp spec fn url_parsed(text: Seq<char>) -> Result<UrlV, Seq<char>>;

/// What the `url` crate makes of `input` read against `base`.
pub uninterp spec fn url_joined(base: Seq<char>, input: Seq<char>) -> Result<UrlV, Seq<char>>;

pub open spec fn url_result_view(r: Result<Url, String>) -> Result<UrlV, Seq<char>> {
    match r {
        Ok(u) => Ok(u@),
        Err(e) => Err(e@),
    }
}

/// `url::Url::parse`: the URL `text` spells, taken apart, or the parse
/// error's rendering. The URL grammar is the crate's, named here.
#[verifier::external_body]
fn url_parse(text: &str) -> (r: Result<Url, String>)
    ensures
        url_result_view(r) == url_parsed(text@),
{
    match url::Url::parse(text) {
        Ok(u) => Ok(Url {
            text: u.as_str().to_string(), scheme: u.scheme().to_string(),
            host: u.host_str().map(|h| h.to_string()), port: u.port(),
            port_or_default: u.port_or_known_default(), path: u.path().to_string(),
            query: u.query().map(|q| q.to_string()), fragment: u.fragment().map(|f| f.to_string()),
        }),
        Err(e) => Err(e.to_string()),
    }
}

/// `url::Url::join`: `input` read against the URL `base` spells, taken
/// apart, or the error's rendering.
#[verifier::external_body]
fn url_join(base: &str, input: &str) -> (r: Result<Url, String>)
    ensures
        url_result_view(r) == url_joined(base@, input@),
{
    match url::Url::parse(base).and_then(|b| b.join(input)) {
        Ok(u) => Ok(Url {
            text: u.as_str().to_string(), scheme: u.scheme().to_string(),
            host: u.host_str().map(|h| h.to_string()), port: u.port(),
            port_or_default: u.port_or_known_default(), path: u.path().to_string(),
            query: u.query().map(|q| q.to_string()), fragment: u.fragment().map(|f| f.to_string()),
        }),
        Err(e) => Err(e.to_string()),
    }
}

/// What `url::Url::set_scheme` makes of the URL `url` spells: the new
/// URL's text, or `None` where the text does not parse or the crate refuses
/// the scheme.
pub uninterp spec fn url_scheme_set(url: Seq<char>, scheme: Seq<char>) -> Option<Seq<char>>;

/// What `url::Url::set_host` makes of the URL `url` spells.
pub uninterp spec fn url_host_set(url: Seq<char>, host: Option<Seq<char>>) -> Option<Seq<char>>;

/// What `url::Url::set_port` makes of the URL `url` spells.
pub uninterp spec fn url_port_set(url: Seq<char>, port: Option<u16>) -> Option<Seq<char>>;

/// `url::Url::set_scheme` on the URL `url` spells: the result's text, or
/// `None` where the text does not parse or the setter refuses.
#[verifier::external_body]
fn url_set_scheme(url: &str, scheme: &str) -> (r: Option<String>)
    ensures
        opt_view(r) == url_scheme_set(url@, scheme@),
{
    let mut u = url::Url::parse(url).ok()?;
    u.set_scheme(scheme).ok()?;
    Some(u.as_str().to_string())
}

/// `url::Url::set_host` on the URL `url` spells: the result's text, or
/// `None` where the text does not parse or the setter refuses.
#[verifier::external_body]
fn url_set_host(url: &str, host: Option<&str>) -> (r: Option<String>)
    ensures
        opt_view(r) == url_host_set(url@, crate::config::values::opt_str(host)),
{
    let mut u = url::Url::parse(url).ok()?;
    u.set_host(host).ok()?;
    Some(u.as_str().to_string())
}

/// `url::Url::set_port` on the URL `url` spells: the result's text, or
/// `None` where the text does not parse or the setter refuses.
#[verifier::external_body]
fn url_set_port(url: &str, port: Option<u16>) -> (r: Option<String>)
    ensures
        opt_view(r) == url_port_set(url@, port),
{
    let mut u = url::Url::parse(url).ok()?;
    u.set_port(port).ok()?;
    Some(u.as_str().to_string())
}

/// The text of `url` moved onto the scheme, host and port of `base`: the
/// three setters in turn, `None` where one refuses.
pub open spec fn rehomed(url: UrlV, base: UrlV) -> Option<Seq<char>> {
    match url_scheme_set(url.text, base.scheme) {
        None => None,
        Some(t1) => match url_host_set(t1, base.host) {
            None => None,
            Some(t2) => url_port_set(t2, base.port),
        },
    }
}

/// `url` moved onto the scheme, host and port of `base`, as text.
pub fn with_origin(url: &Url, base: &Url) -> (r: Option<String>)
    ensures
        opt_view(r) == rehomed(url@, base@),
{
    let t1 = match url_set_scheme(url.text.as_str(), base.scheme.as_str()) {
        Some(t) => t,
        None => {
            return None;
        },
    };
    let host = match &base.host {
        Some(h) => Some(h.as_str()),
        None => None,
    };
    let t2 = match url_set_host(t1.as_str(), host) {
        Some(t) => t,
        None => {
            return None;
        },
    };
    url_set_port(t2.as_str(), base.port)
}

impl Url {
    pub fn parse(text: &str) -> (r: Result<Url, String>)
        ensures
            url_result_view(r) == url_parsed(text@),
    {
        url_parse(text)
    }

    /// `input` read against this URL.
    pub fn join(&self, input: &str) -> (r: Result<Url, String>)
        ensures
            url_result_view(r) == url_joined(self@.text, input@),
    {
        url_join(self.text.as_str(), input)
    }

    /// A copy with the same parts.
    pub fn duplicate(&self) -> (r: Url)
        ensures
            r == *self,
    {
        Url {
            text: self.text.clone(),
            scheme: self.scheme.clone(),
            host: match &self.host {
                Some(h) => Some(h.clone()),
                None => None,
            },
            port: self.port,
            port_or_default: self.port_or_default,
            path: self.path.clone(),
            query: match &self.query {
                Some(q) => Some(q.clone()),
                None => None,
            },
            fragment: match &self.fragment {
                Some(f) => Some(f.clone()),
                None => None,
            },
        }
    }

    pub fn as_str(&self) -> (r: &str)
        ensures
            r@ == self@.text,
    {
        self.text.as_str()
    }
}

/// Same scheme, host and port: the tuple origin of a URL.
pub open spec fn same_origin(a: UrlV, b: UrlV) -> bool {
    a.scheme == b.scheme && a.host == b.host && a.port_or_default == b.port_or_default
}

impl Leaf for Url {
    open spec fn parse_error(text: Seq<char>) -> Option<Seq<char>> {
        match url_parsed(text) {
            Ok(_) => None,
            Err(e) => Some(e),
        }
    }

    open spec fn reads_as(text: Seq<char>, v: Url) -> bool {
        url_parsed(text) == Ok::<UrlV, Seq<char>>(v@)
    }

    open spec fn type_path_spec() -> Seq<char> {
        "url::Url"@
    }

    fn parse_leaf(text: &str) -> (r: Result<Url, String>) {
        url_parse(text)
    }

    fn type_path() -> (r: String) {
        owned("url::Url")
    }
}

} // verus!
