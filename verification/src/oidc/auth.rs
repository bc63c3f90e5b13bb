//! Authorization orchestration: which identity a request carries, whose
//! name the request span records, and what each extractor answers. The
//! identities themselves are resolved elsewhere and only consumed here.

use vstd::prelude::*;

use std::marker::PhantomData;
use std::sync::Arc;

pub use crate::oidc::predicate::{And, Denial, Group, HasGroup, Not, Or, Predicate};
use crate::oidc::principal::Principal;
use crate::text::{append, owned, starts_with, trim, trimmed};

verus! {

#[derive(Debug, Clone, Copy, PartialEq, Eq, Structural)]
pub enum AuthVia {
    Session,
    Bearer,
    Stub,
}

/// What a request was resolved to. The middleware never rejects: an absent
/// or invalid credential becomes `Anonymous`.
#[derive(Debug, Clone)]
pub enum AuthContext {
    Disabled,
    Authenticated { principal: Arc<Principal>, via: AuthVia },
    /// The reason is logged, never returned to the caller.
    Anonymous { reason: String },
}

#[derive(Debug)]
pub struct Authenticated(pub Arc<Principal>);

#[derive(Debug)]
pub struct ServiceAccount(pub Arc<Principal>);

pub struct MaybeAuthenticated(pub Option<Arc<Principal>>);

pub struct GatedBy<P>(pub Arc<Principal>, pub PhantomData<P>);

/// `Arc::clone`: another handle to the same principal.
#[verifier::external_body]
fn share(p: &Arc<Principal>) -> (r: Arc<Principal>)
    ensures
        *r == **p,
{
    Arc::clone(p)
}

/// The bearer token an `Authorization` value carries: after `Bearer ` (or
/// `bearer `), trimmed, and not blank.
pub open spec fn bearer_spec(raw: Seq<char>) -> Option<Seq<char>> {
    let rest = if "Bearer "@.is_prefix_of(raw) {
        Some(raw.skip(7))
    } else if "bearer "@.is_prefix_of(raw) {
        Some(raw.skip(7))
    } else {
        None
    };
    match rest {
        Some(t) => if trim(t).len() > 0 {
            Some(trim(t))
        } else {
            None
        },
        None => None,
    }
}

pub fn bearer_token(authorization: &str) -> (r: Option<String>)
    ensures
        crate::text::opt_view(r) == bearer_spec(authorization@),
{
    proof {
        reveal_strlit("Bearer ");
        reveal_strlit("bearer ");
    }
    let v = crate::text::chars_of(authorization);
    let rest = if starts_with(authorization, "Bearer ") || starts_with(authorization, "bearer ") {
        crate::text::string_of(&v, 7, v.len())
    } else {
        return None;
    };
    assert(rest@ =~= authorization@.skip(7));
    let t = trimmed(rest.as_str());
    if t.as_str().unicode_len() > 0 {
        Some(t)
    } else {
        None
    }
}

/// What the bearer path found.
pub enum BearerOutcome {
    /// No bearer token was presented.
    Absent,
    /// A token was presented but nothing validates tokens.
    NoValidator,
    Valid(Principal),
    Rejected(String),
}

pub open spec fn anonymous_reason(ctx: AuthContext) -> Option<Seq<char>> {
    match ctx {
        AuthContext::Anonymous { reason } => Some(reason@),
        _ => None,
    }
}

/// Resolves a request's identity: a presented bearer token decides alone;
/// else a live browser session; else the dev stub disables auth; else the
/// request is anonymous.
pub fn resolve_context(bearer: BearerOutcome, session: Option<Principal>, has_oidc: bool, has_stub: bool) -> (r:
    AuthContext)
    ensures
        match bearer {
            BearerOutcome::Valid(p) => r matches AuthContext::Authenticated { principal, via } && *principal
                == p && via == AuthVia::Bearer,
            BearerOutcome::Rejected(e) => anonymous_reason(r) == Some("bearer rejected: "@ + e@),
            BearerOutcome::NoValidator => anonymous_reason(r) == Some(
                "bearer presented but no validator is configured"@,
            ),
            BearerOutcome::Absent => match session {
                Some(p) => r matches AuthContext::Authenticated { principal, via } && *principal
                    == p && via == AuthVia::Session,
                None => if has_stub {
                    r is Disabled
                } else if has_oidc {
                    anonymous_reason(r) == Some("no valid session"@)
                } else {
                    anonymous_reason(r) == Some("no credential matched an authenticator"@)
                },
            },
        },
{
    match bearer {
        BearerOutcome::Valid(p) => AuthContext::Authenticated { principal: Arc::new(p), via: AuthVia::Bearer },
        BearerOutcome::Rejected(e) => {
            let mut reason = owned("bearer rejected: ");
            append(&mut reason, e.as_str());
            AuthContext::Anonymous { reason }
        },
        BearerOutcome::NoValidator => AuthContext::Anonymous {
            reason: owned("bearer presented but no validator is configured"),
        },
        BearerOutcome::Absent => match session {
            Some(p) => AuthContext::Authenticated { principal: Arc::new(p), via: AuthVia::Session },
            None => {
                if has_stub {
                    AuthContext::Disabled
                } else if has_oidc {
                    AuthContext::Anonymous { reason: owned("no valid session") }
                } else {
                    AuthContext::Anonymous { reason: owned("no credential matched an authenticator") }
                }
            },
        },
    }
}

/// The name the request span records as the actor.
pub fn actor_of(ctx: &AuthContext, stub: Option<&Principal>) -> (r: String)
    ensures
        r@ == match ctx {
            AuthContext::Disabled => match stub {
                Some(p) => p.username@,
                None => "-"@,
            },
            AuthContext::Authenticated { principal, .. } => principal.username@,
            AuthContext::Anonymous { .. } => "-"@,
        },
{
    match ctx {
        AuthContext::Disabled => match stub {
            Some(p) => p.username.clone(),
            None => owned("-"),
        },
        AuthContext::Authenticated { principal, .. } => principal.username.clone(),
        AuthContext::Anonymous { .. } => owned("-"),
    }
}

/// Who a request runs as while authentication is disabled: the dev stub,
/// else a nameless principal with no groups.
pub fn disabled_principal(stub: Option<&Arc<Principal>>) -> (r: Arc<Principal>)
    ensures
        match stub {
            Some(p) => *r == **p,
            None => r.username@ == "-"@ && r.email is None && r.effective_groups@.len() == 0,
        },
{
    match stub {
        Some(p) => share(p),
        None => Arc::new(Principal { username: owned("-"), email: None, effective_groups: Vec::new() }),
    }
}

/// What an extractor answers.
pub enum Gate<T> {
    /// The handler runs with this.
    Allow(T),
    /// The rule refused: 403 with its denial.
    Deny(Denial),
    /// Nobody is signed in: a login redirect for a page load, else 401.
    Anonymous,
    /// Only a service account may pass: 401.
    Unauthorized,
}

/// `Authenticated`: any identity; with auth disabled, the stub.
pub fn authenticated(ctx: &AuthContext, stub: Option<&Arc<Principal>>) -> (r: Gate<Authenticated>)
    ensures
        match ctx {
            AuthContext::Disabled => r matches Gate::Allow(a) && match stub {
                Some(p) => *a.0 == **p,
                None => a.0.username@ == "-"@,
            },
            AuthContext::Authenticated { principal, .. } => r matches Gate::Allow(a) && *a.0
                == **principal,
            AuthContext::Anonymous { .. } => r is Anonymous,
        },
{
    match ctx {
        AuthContext::Disabled => Gate::Allow(Authenticated(disabled_principal(stub))),
        AuthContext::Authenticated { principal, .. } => Gate::Allow(Authenticated(share(principal))),
        AuthContext::Anonymous { .. } => Gate::Anonymous,
    }
}

/// `ServiceAccount`: only an identity proven by a bearer token.
pub fn service_account(ctx: &AuthContext) -> (r: Gate<ServiceAccount>)
    ensures
        match ctx {
            AuthContext::Authenticated { principal, via: AuthVia::Bearer } => r matches Gate::Allow(
                a,
            ) && *a.0 == **principal,
            _ => r is Unauthorized,
        },
{
    match ctx {
        AuthContext::Authenticated { principal, via } => {
            if *via == AuthVia::Bearer {
                Gate::Allow(ServiceAccount(share(principal)))
            } else {
                Gate::Unauthorized
            }
        },
        _ => Gate::Unauthorized,
    }
}

/// `MaybeAuthenticated`: whoever is there, if anyone; never refuses.
pub fn maybe_authenticated(ctx: Option<&AuthContext>, stub: Option<&Arc<Principal>>) -> (r:
    MaybeAuthenticated)
    ensures
        match ctx {
            Some(AuthContext::Disabled) => r.0 is Some,
            Some(AuthContext::Authenticated { principal, .. }) => r.0 matches Some(p) && *p
                == **principal,
            _ => r.0 is None,
        },
{
    match ctx {
        Some(AuthContext::Disabled) => MaybeAuthenticated(Some(disabled_principal(stub))),
        Some(AuthContext::Authenticated { principal, .. }) => MaybeAuthenticated(Some(share(principal))),
        _ => MaybeAuthenticated(None),
    }
}

/// Lets `principal` through when `outcome` is `Ok`; otherwise refuses with
/// its denial.
pub fn admitted_by<P>(principal: Arc<Principal>, outcome: Result<(), Denial>) -> (r: Gate<GatedBy<P>>)
    ensures
        match outcome {
            Ok(()) => r matches Gate::Allow(g) && *g.0 == *principal,
            Err(d) => r matches Gate::Deny(x) && x == d,
        },
{
    match outcome {
        Ok(()) => Gate::Allow(GatedBy(principal, PhantomData)),
        Err(denial) => Gate::Deny(denial),
    }
}

/// `GatedBy<P>`: an identity the rule `P` admits; with auth disabled, the
/// stub passes unchecked. What `P` decides is its own (see `admitted_by`).
pub fn gated_by<S, P: Predicate<S>>(ctx: &AuthContext, stub: Option<&Arc<Principal>>, state: &S) -> (r:
    Gate<GatedBy<P>>)
    ensures
        match ctx {
            AuthContext::Disabled => r is Allow,
            AuthContext::Authenticated { principal, .. } => match r {
                Gate::Allow(g) => *g.0 == **principal,
                Gate::Deny(_) => true,
                _ => false,
            },
            AuthContext::Anonymous { .. } => r is Anonymous,
        },
{
    match ctx {
        AuthContext::Disabled => Gate::Allow(GatedBy(disabled_principal(stub), PhantomData)),
        AuthContext::Authenticated { principal, .. } => {
            let p = share(principal);
            let outcome = P::check(&*p, state);
            admitted_by(p, outcome)
        },
        AuthContext::Anonymous { .. } => Gate::Anonymous,
    }
}

} // verus!
