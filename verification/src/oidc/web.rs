//! The decisions that shape a response of the OIDC routes: where a login
//! returns to, whether a logout came from this site, what a callback does,
//! and the links and ids handed out. Serving them is the web layer's.

use vstd::prelude::*;

use std::sync::Arc;

use crate::config::deployment::Deployment;
use crate::oidc::config::OidcConfig;
use crate::oidc::error::OidcError;
use crate::oidc::store::FlowState;
use crate::oidc::url::{same_origin, url_joined, url_parsed, Url, UrlV};
use crate::text::{append, contains_str, decimal, decimal_string, has_sub, opt_view, owned, same, starts_with};

verus! {

pub const FLOW_COOKIE: &'static str = "oidc_flow";

pub const REAUTH_HEADER: &'static str = "X-Common-OIDC-Reauth";

/// The base a `next` target is resolved against.
pub const NEXT_BASE: &'static str = "https://next.invalid/";

/// A resolved target rendered as a same-origin reference: path, then
/// `?query`, then `#fragment`.
pub open spec fn reference_of(u: UrlV) -> Seq<char> {
    u.path + (match u.query {
        Some(q) => "?"@ + q,
        None => seq![],
    }) + (match u.fragment {
        Some(f) => "#"@ + f,
        None => seq![],
    })
}

/// Where a login may return to: a target that starts with `/`, resolves on
/// this origin and stays a single-slash path; anything else is refused.
pub open spec fn resolve_next(raw: Seq<char>) -> Option<Seq<char>> {
    if !"/"@.is_prefix_of(raw) {
        None
    } else {
        match url_parsed(NEXT_BASE@) {
            Err(_) => None,
            Ok(base) => match url_joined(base.text, raw) {
                Err(_) => None,
                Ok(r) => if !same_origin(r, base) {
                    None
                } else {
                    let out = reference_of(r);
                    if "/"@.is_prefix_of(out) && !"//"@.is_prefix_of(out) {
                        Some(out)
                    } else {
                        None
                    }
                },
            },
        }
    }
}

pub open spec fn safe_next_spec(raw: Option<Seq<char>>) -> Seq<char> {
    match raw {
        Some(r) => match resolve_next(r) {
            Some(out) => out,
            None => "/"@,
        },
        None => "/"@,
    }
}

fn resolve(raw: &str) -> (r: Option<String>)
    ensures
        opt_view(r) == resolve_next(raw@),
{
    if !starts_with(raw, "/") {
        return None;
    }
    let base = match Url::parse(NEXT_BASE) {
        Ok(b) => b,
        Err(_) => {
            return None;
        },
    };
    let resolved = match base.join(raw) {
        Ok(u) => u,
        Err(_) => {
            return None;
        },
    };
    if !(same(resolved.scheme.as_str(), base.scheme.as_str()) && same_opt(&resolved.host, &base.host)
        && resolved.port_or_default == base.port_or_default) {
        return None;
    }
    let mut out = resolved.path.clone();
    match &resolved.query {
        Some(q) => {
            append(&mut out, "?");
            append(&mut out, q.as_str());
        },
        None => {},
    }
    let ghost with_query = out@;
    match &resolved.fragment {
        Some(f) => {
            append(&mut out, "#");
            append(&mut out, f.as_str());
        },
        None => {},
    }
    proof {
        if resolved.query is None {
            assert(with_query =~= resolved.path@ + Seq::<char>::empty());
        }
        if resolved.fragment is None {
            assert(out@ =~= with_query + Seq::<char>::empty());
        }
        assert(out@ =~= reference_of(resolved@));
    }
    if starts_with(out.as_str(), "/") && !starts_with(out.as_str(), "//") {
        Some(out)
    } else {
        None
    }
}

fn same_opt(a: &Option<String>, b: &Option<String>) -> (r: bool)
    ensures
        r == (opt_view(*a) == opt_view(*b)),
{
    match (a, b) {
        (Some(x), Some(y)) => same(x.as_str(), y.as_str()),
        (None, None) => true,
        _ => false,
    }
}

/// Where a login returns to: `next` when it is a safe same-origin target,
/// else `/`.
pub fn safe_next(raw: Option<&str>) -> (r: String)
    ensures
        r@ == safe_next_spec(crate::config::values::opt_str(raw)),
        "/"@.is_prefix_of(r@) && !"//"@.is_prefix_of(r@),
{
    proof {
        reveal_strlit("/");
        reveal_strlit("//");
    }
    match raw {
        Some(text) => match resolve(text) {
            Some(out) => out,
            None => owned("/"),
        },
        None => owned("/"),
    }
}

/// A URL's origin as a browser sends it: `scheme://host[:port]`.
pub open spec fn origin_text(u: UrlV) -> Seq<char> {
    u.scheme + "://"@ + (match u.host {
        Some(h) => h,
        None => seq![],
    }) + (match u.port {
        Some(p) => ":"@ + decimal(p as nat),
        None => seq![],
    })
}

fn origin_of(u: &Url) -> (r: String)
    ensures
        r@ == origin_text(u@),
{
    let mut out = u.scheme.clone();
    append(&mut out, "://");
    let ghost a = out@;
    match &u.host {
        Some(h) => append(&mut out, h.as_str()),
        None => {},
    }
    let ghost b = out@;
    match u.port {
        Some(p) => {
            append(&mut out, ":");
            let d = decimal_string(p as u64);
            append(&mut out, d.as_str());
        },
        None => {},
    }
    proof {
        if u.host is None {
            assert(b =~= a + Seq::<char>::empty());
        }
        if u.port is None {
            assert(out@ =~= b + Seq::<char>::empty());
        }
    }
    out
}

/// The origin this application is served from: its redirect URL's.
pub fn app_origin(config: &OidcConfig) -> (r: String)
    ensures
        r@ == origin_text(config.redirect_url@),
{
    origin_of(&config.redirect_url)
}

/// The provider's user portal: the issuer's origin, then `/if/user/`.
pub fn user_portal_url(config: &OidcConfig) -> (r: String)
    ensures
        r@ == origin_text(config.issuer@) + "/if/user/"@,
{
    let mut out = origin_of(&config.issuer);
    append(&mut out, "/if/user/");
    out
}

/// Whether a logout request proves it came from this site: the browser's
/// `Sec-Fetch-Site` when it sends one, else an `Origin` equal to the app's.
/// Neither is a refusal.
pub open spec fn from_this_site_spec(
    sec_fetch_site: Option<Seq<char>>,
    origin: Option<Seq<char>>,
    app_origin: Seq<char>,
) -> bool {
    match sec_fetch_site {
        Some(site) => site == "same-origin"@,
        None => origin == Some(app_origin),
    }
}

pub fn from_this_site(sec_fetch_site: Option<&str>, origin: Option<&str>, app_origin: &str) -> (r:
    bool)
    ensures
        r == from_this_site_spec(
            crate::config::values::opt_str(sec_fetch_site),
            crate::config::values::opt_str(origin),
            app_origin@,
        ),
{
    match sec_fetch_site {
        Some(site) => same(site, "same-origin"),
        None => match origin {
            Some(o) => same(o, app_origin),
            None => false,
        },
    }
}

/// Whether a request is a page load: a GET that accepts HTML.
pub fn wants_html(is_get: bool, accept: Option<&str>) -> (r: bool)
    ensures
        r == (is_get && (match crate::config::values::opt_str(accept) {
            Some(a) => has_sub(a, "text/html"@),
            None => false,
        })),
{
    is_get && match accept {
        Some(a) => contains_str(a, "text/html"),
        None => false,
    }
}

/// A login request: where it returns to, whether it may be silent (any
/// `prompt` but `login`), and whether the interactive try is spent.
pub fn login_request(next: Option<&str>, prompt: Option<&str>) -> (r: (String, bool, bool))
    ensures
        r.0@ == safe_next_spec(crate::config::values::opt_str(next)),
        r.1 == (crate::config::values::opt_str(prompt) != Some("login"@)),
        r.2 == !r.1,
{
    let next = safe_next(next);
    let silent = match prompt {
        Some(p) => !same(p, "login"),
        None => true,
    };
    (next, silent, !silent)
}

/// The provider errors that ask for the user's own hand.
pub open spec fn needs_interaction_spec(error: Seq<char>) -> bool {
    error == "login_required"@ || error == "interaction_required"@ || error == "consent_required"@
}

/// What a callback does next.
#[derive(Debug, PartialEq, Eq)]
pub enum CallbackStep {
    /// No login is in flight: start a fresh silent one, back to `/`.
    Restart,
    /// The silent try needs the user: start an interactive one.
    Interactive { next: String },
    /// The provider refused: 401 with this body.
    Failed { body: String },
    /// 400 with this body.
    BadRequest { body: String },
    /// Exchange this code for tokens.
    Exchange { code: String },
}

/// A login to start: where it returns to, whether it asks silently, and
/// whether its flow records the interactive try as spent.
#[derive(Debug, PartialEq, Eq)]
pub struct LoginStart {
    pub next: String,
    pub silent: bool,
    pub interactive_tried: bool,
}

impl CallbackStep {
    /// Whether the flow in flight is forgotten at once: when the provider
    /// refused, or the silent try is given up for an interactive one. An
    /// exchange forgets it once the code has been exchanged.
    pub open spec fn forgets_flow_spec(self) -> bool {
        self is Interactive || self is Failed
    }

    /// Whether the response clears the flow cookie: every step that ends
    /// the flow in flight, the exchange's included.
    pub open spec fn clears_flow_cookie_spec(self) -> bool {
        self is Interactive || self is Failed || self is Exchange
    }

    /// The login the step starts, if any: a fresh silent one back to `/`,
    /// or the interactive one, its try marked as spent.
    pub open spec fn login_spec(self) -> Option<(Seq<char>, bool, bool)> {
        match self {
            CallbackStep::Restart => Some(("/"@, true, false)),
            CallbackStep::Interactive { next } => Some((next@, false, true)),
            _ => None,
        }
    }

    pub fn forgets_flow(&self) -> (r: bool)
        ensures
            r == self.forgets_flow_spec(),
    {
        match self {
            CallbackStep::Interactive { .. } => true,
            CallbackStep::Failed { .. } => true,
            _ => false,
        }
    }

    pub fn clears_flow_cookie(&self) -> (r: bool)
        ensures
            r == self.clears_flow_cookie_spec(),
    {
        match self {
            CallbackStep::Interactive { .. } => true,
            CallbackStep::Failed { .. } => true,
            CallbackStep::Exchange { .. } => true,
            _ => false,
        }
    }

    pub fn login(&self) -> (r: Option<LoginStart>)
        ensures
            match r {
                Some(l) => self.login_spec() == Some((l.next@, l.silent, l.interactive_tried)),
                None => self.login_spec() is None,
            },
    {
        match self {
            CallbackStep::Restart => Some(LoginStart { next: owned("/"), silent: true, interactive_tried: false }),
            CallbackStep::Interactive { next } => Some(
                LoginStart { next: next.clone(), silent: false, interactive_tried: true },
            ),
            _ => None,
        }
    }
}

pub open spec fn failed_body(error: Seq<char>) -> Seq<char> {
    "authentication failed: "@ + error
}

/// The decision of a callback, from the flow in flight and its query.
pub fn callback_step(
    flow: Option<&FlowState>,
    error: Option<&str>,
    code: Option<&str>,
    state: Option<&str>,
) -> (r: CallbackStep)
    ensures
        match flow {
            None => r == CallbackStep::Restart && r.login_spec() == Some(("/"@, true, false))
                && !r.forgets_flow_spec(),
            Some(f) => match crate::config::values::opt_str(error) {
                Some(e) => r.forgets_flow_spec() && r.clears_flow_cookie_spec() && if needs_interaction_spec(
                    e,
                ) && !f.interactive_tried {
                    r matches CallbackStep::Interactive { next } && next@ == safe_next_spec(
                        Some(f.next@),
                    ) && r.login_spec() == Some((next@, false, true))
                } else {
                    r matches CallbackStep::Failed { body } && body@ == failed_body(e)
                        && r.login_spec() is None
                },
                None => match (code, state) {
                    (Some(c), Some(s)) => if s@ != f.state@ {
                        r matches CallbackStep::BadRequest { body } && body@ == "state mismatch"@
                    } else {
                        r matches CallbackStep::Exchange { code } && code@ == c@
                    },
                    _ => r matches CallbackStep::BadRequest { body } && body@
                        == "missing code/state"@,
                },
            },
        },
{
    let flow = match flow {
        None => {
            return CallbackStep::Restart;
        },
        Some(f) => f,
    };
    match error {
        Some(e) => {
            let needs = same(e, "login_required") || same(e, "interaction_required") || same(
                e,
                "consent_required",
            );
            if needs && !flow.interactive_tried {
                return CallbackStep::Interactive { next: safe_next(Some(flow.next.as_str())) };
            }
            let mut body = owned("authentication failed: ");
            append(&mut body, e);
            CallbackStep::Failed { body }
        },
        None => match (code, state) {
            (Some(c), Some(s)) => {
                if !same(s, flow.state.as_str()) {
                    CallbackStep::BadRequest { body: owned("state mismatch") }
                } else {
                    CallbackStep::Exchange { code: owned(c) }
                }
            },
            _ => CallbackStep::BadRequest { body: owned("missing code/state") },
        },
    }
}

/// Whether every character is a lower-case hexadecimal digit.
pub open spec fn lower_hex(s: Seq<char>) -> bool {
    forall|i: int| 0 <= i < s.len() ==> ('0' <= #[trigger] s[i] <= '9' || 'a' <= s[i] <= 'f')
}

/// `Uuid::new_v4().simple()`: a random version-4 UUID written as 32
/// lower-case hex digits without hyphens. Which digits is chance.
#[verifier::external_body]
fn uuid_simple() -> (r: String)
    ensures
        r@.len() == 32,
        lower_hex(r@),
{
    uuid::Uuid::new_v4().simple().to_string()
}

/// A fresh opaque id: two random UUIDs, 64 hex digits, nothing decodable.
pub fn new_flow_id() -> (r: String)
    ensures
        r@.len() == 64,
        lower_hex(r@),
{
    let mut out = uuid_simple();
    let second = uuid_simple();
    let ghost a = out@;
    append(&mut out, second.as_str());
    assert forall|i: int| 0 <= i < out@.len() implies ('0' <= #[trigger] out@[i] <= '9' || 'a'
        <= out@[i] <= 'f') by {
        if i < 32 {
            assert(out@[i] == a[i]);
        } else {
            assert(out@[i] == second@[i - 32]);
        }
    }
    out
}

/// Why discovery refuses a config that switches certificate checks off
/// under prod.
pub const DANGER_REFUSAL: &'static str = "danger_accept_invalid_certs is dev-only and refused under DEPLOYMENT_TYPE=prod";

/// What discovery demands of the config before it reaches the provider:
/// certificate checks may be switched off only outside prod.
pub fn discovery_allowed(config: &OidcConfig) -> (r: Result<(), OidcError>)
    ensures
        match r {
            Ok(()) => !(config.deployment == Deployment::Prod && config.danger_accept_invalid_certs),
            Err(e) => {
                &&& config.deployment == Deployment::Prod && config.danger_accept_invalid_certs
                &&& e matches OidcError::Config(m) && m@ == DANGER_REFUSAL@
            },
        },
{
    if config.deployment == Deployment::Prod && config.danger_accept_invalid_certs {
        Err(OidcError::Config(owned(DANGER_REFUSAL)))
    } else {
        Ok(())
    }
}

/// What the OIDC routes share: the provider's client, the session store
/// and the store of logins in flight.
pub struct OidcState<C, S, F> {
    pub client: Arc<C>,
    pub store: Arc<S>,
    pub flows: Arc<F>,
}

impl<C, S, F> OidcState<C, S, F> {
    /// Replaces the store of logins in flight. The default is per-process,
    /// so a callback landing on another replica than its login sees no
    /// flow; a shared store is how a multi-replica deployment fixes that.
    pub fn with_flow_store<G>(self, flows: G) -> (r: OidcState<C, S, G>)
        ensures
            *r.flows == flows,
            r.client == self.client,
            r.store == self.store,
    {
        OidcState { client: self.client, store: self.store, flows: Arc::new(flows) }
    }
}

} // verus!
