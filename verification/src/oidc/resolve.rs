//! Resolving a browser's session to an identity. The provider is asked who
//! holds the session's access token; a rejected token is traded once for
//! fresh ones through the refresh token, and the session is kept, replaced
//! or ended by what the provider answered. Asking, storing and waiting are
//! the web layer's; the decisions are here.

use vstd::prelude::*;

use crate::oidc::error::Upstream;
use crate::oidc::principal::Principal;
use crate::oidc::store::{Session, Stamped};

verus! {

/// Whether a failed call to the provider is tried again: only when it did
/// not answer and the request's budget is not spent.
pub fn retry_again(error: &Upstream, expired: bool) -> (r: bool)
    ensures
        r == (error is Unreachable && !expired),
{
    error.is_retryable() && !expired
}

/// Where a resolution stands.
#[derive(Debug, Clone)]
pub enum Resolving {
    /// The stored session's access token is with the provider.
    Stored(Session),
    /// That token was rejected for `reason`; the refresh token is being
    /// traded.
    Refreshing { session: Session, reason: String },
    /// The refreshed session's token is with the provider; `reason` is why
    /// the first one was rejected.
    Refreshed { session: Session, reason: String },
}

/// What the provider answered.
#[derive(Debug)]
pub enum Answer {
    /// Who holds the access token, or why the provider would not say.
    Identified(Result<Principal, Upstream>),
    /// The fresh access and refresh tokens, or `None` where the trade failed.
    Traded(Option<(String, Option<String>)>),
}

/// What the web layer does next.
#[derive(Debug)]
pub enum Step {
    /// Ask the provider who holds this access token.
    Identify(String, Resolving),
    /// Trade this refresh token for fresh tokens.
    Refresh(String, Resolving),
    /// Store this session under the cookie's id in place of the old one,
    /// then ask who holds its access token.
    Replace(Session, Resolving),
    /// The session stands for this principal.
    Accept(Principal, Session),
    /// Forget the session. `unreachable` tells a provider that never
    /// answered from one that rejected the tokens; `reason` is what it said.
    End { reason: String, unreachable: bool },
}

/// The first step for a session found under the browser's cookie.
pub fn resolve_start(session: Session) -> (r: Step)
    ensures
        r matches Step::Identify(t, Resolving::Stored(s)) && t@ == session.access_token@ && s
            == session,
{
    let token = session.access_token.clone();
    Step::Identify(token, Resolving::Stored(session))
}

/// The step an answer of the right kind is awaited for: a trade while
/// refreshing, an identity otherwise.
pub open spec fn awaits(state: Resolving, answer: Answer) -> bool {
    (state is Refreshing) == (answer is Traded)
}

/// The session the trade's tokens make: the old one's creation time kept.
pub open spec fn traded_session(old: Session, access: String, refresh: Option<String>) -> Session {
    Session { access_token: access, refresh_token: refresh, created: old.created }
}

/// The step after `answer`, from `state`.
pub open spec fn next_step(state: Resolving, answer: Answer, r: Step) -> bool {
    match (state, answer) {
        (Resolving::Stored(s), Answer::Identified(Ok(p))) => r == Step::Accept(p, s),
        (Resolving::Stored(_), Answer::Identified(Err(Upstream::Unreachable(w)))) => r
            == Step::End { reason: w, unreachable: true },
        (Resolving::Stored(s), Answer::Identified(Err(Upstream::Rejected(w)))) => match s.refresh_token {
            Some(t) => r matches Step::Refresh(x, Resolving::Refreshing { session, reason }) && x@
                == t@ && session == s && reason == w,
            None => r == Step::End { reason: w, unreachable: false },
        },
        (Resolving::Refreshing { session, reason }, Answer::Traded(Some((a, t)))) => {
            let fresh = traded_session(session, a, t);
            r == Step::Replace(fresh, Resolving::Refreshed { session: fresh, reason })
        },
        (Resolving::Refreshing { reason, .. }, Answer::Traded(None)) => r == Step::End {
            reason,
            unreachable: false,
        },
        (Resolving::Refreshed { session, .. }, Answer::Identified(Ok(p))) => r == Step::Accept(
            p,
            session,
        ),
        (Resolving::Refreshed { reason, .. }, Answer::Identified(Err(_))) => r == Step::End {
            reason,
            unreachable: false,
        },
        _ => false,
    }
}

/// Moves the resolution on by the provider's answer.
pub fn resolve_step(state: Resolving, answer: Answer) -> (r: Step)
    requires
        awaits(state, answer),
    ensures
        next_step(state, answer, r),
{
    match (state, answer) {
        (Resolving::Stored(s), Answer::Identified(Ok(p))) => Step::Accept(p, s),
        (Resolving::Stored(s), Answer::Identified(Err(Upstream::Unreachable(w)))) => Step::End {
            reason: w,
            unreachable: true,
        },
        (Resolving::Stored(s), Answer::Identified(Err(Upstream::Rejected(w)))) => {
            match &s.refresh_token {
                Some(t) => {
                    let token = t.clone();
                    Step::Refresh(token, Resolving::Refreshing { session: s, reason: w })
                },
                None => Step::End { reason: w, unreachable: false },
            }
        },
        (Resolving::Refreshing { session, reason }, Answer::Traded(Some((a, t)))) => {
            let fresh = Session { access_token: a, refresh_token: t, created: session.created };
            let kept = fresh.duplicate();
            Step::Replace(kept, Resolving::Refreshed { session: fresh, reason })
        },
        (Resolving::Refreshing { reason, .. }, Answer::Traded(None)) => Step::End {
            reason,
            unreachable: false,
        },
        (Resolving::Refreshed { session, .. }, Answer::Identified(Ok(p))) => Step::Accept(
            p,
            session,
        ),
        (Resolving::Refreshed { reason, .. }, Answer::Identified(Err(_))) => Step::End {
            reason,
            unreachable: false,
        },
        (Resolving::Refreshing { .. }, Answer::Identified(_)) | (Resolving::Stored(_), Answer::Traded(_))
        | (Resolving::Refreshed { .. }, Answer::Traded(_)) => vstd::pervasive::unreached(),
    }
}

} // verus!
