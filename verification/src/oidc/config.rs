//! Configuration values and their defaults.

use vstd::prelude::*;

use crate::config::deployment::Deployment;
use crate::oidc::url::{rehomed, url_parsed, with_origin, Url};
use crate::text::{owned, same, views, Text};

verus! {

pub const LOGIN_PATH: &'static str = "/oidc/login";

pub const LOGOUT_PATH: &'static str = "/common-oidc/logout";

pub const OFFLINE_ACCESS: &'static str = "offline_access";

#[derive(Debug, Clone)]
pub struct OidcConfig {
    pub issuer: Url,
    pub backchannel: Option<Url>,
    pub client_id: String,
    pub client_secret: Option<String>,
    pub redirect_url: Url,
    pub scopes: Vec<String>,
    pub login_path: String,
    pub logout_path: String,
    pub cookie_name: String,
    pub cookie_secure: bool,
    pub danger_accept_invalid_certs: bool,
    pub assets_dir: String,
    pub deployment: Deployment,
}

/// The scopes asked for by default: identity and effective groups, no
/// refresh token.
pub open spec fn default_scopes() -> Seq<Seq<char>> {
    seq!["openid"@, "profile"@, "email"@, "effective_groups"@]
}

/// How many times `s` occurs in `scopes`.
pub open spec fn count_of(scopes: Seq<Seq<char>>, s: Seq<char>) -> nat
    decreases scopes.len(),
{
    if scopes.len() == 0 {
        0
    } else {
        count_of(scopes.drop_last(), s) + if scopes.last() == s {
            1nat
        } else {
            0nat
        }
    }
}

proof fn lemma_count_contains(scopes: Seq<Seq<char>>, s: Seq<char>)
    ensures
        (count_of(scopes, s) > 0) == scopes.contains(s),
    decreases scopes.len(),
{
    if scopes.len() > 0 {
        lemma_count_contains(scopes.drop_last(), s);
        if scopes.drop_last().contains(s) {
            let i = choose|i: int| 0 <= i < scopes.drop_last().len() && scopes.drop_last()[i] == s;
            assert(scopes[i] == s);
        }
        if scopes.contains(s) {
            let i = choose|i: int| 0 <= i < scopes.len() && scopes[i] == s;
            if i < scopes.len() - 1 {
                assert(scopes.drop_last()[i] == s);
            }
        }
    }
}

impl OidcConfig {
    /// `cookie_name` is required rather than defaulted: a session cookie is
    /// per-application, so the owning app names it.
    pub fn new<C: Text, N: Text>(issuer: Url, client_id: C, redirect_url: Url, cookie_name: N) -> (r:
        Self)
        ensures
            r.issuer == issuer,
            r.backchannel is None,
            r.client_id@ == client_id.text(),
            r.client_secret is None,
            r.redirect_url == redirect_url,
            views(r.scopes@) == default_scopes(),
            r.login_path@ == LOGIN_PATH@,
            r.logout_path@ == LOGOUT_PATH@,
            r.cookie_name@ == cookie_name.text(),
            r.cookie_secure,
            !r.danger_accept_invalid_certs,
            r.assets_dir@ == "assets"@,
            r.deployment == Deployment::Dev,
    {
        let scopes = vec![owned("openid"), owned("profile"), owned("email"), owned("effective_groups")];
        assert(views(scopes@) =~= default_scopes());
        OidcConfig {
            issuer,
            backchannel: None,
            client_id: client_id.into_string(),
            client_secret: None,
            redirect_url,
            scopes,
            login_path: owned(LOGIN_PATH),
            logout_path: owned(LOGOUT_PATH),
            cookie_name: cookie_name.into_string(),
            cookie_secure: true,
            danger_accept_invalid_certs: false,
            assets_dir: owned("assets"),
            deployment: Deployment::Dev,
        }
    }

    /// `url` moved onto the scheme, host and port of `base`: how a
    /// browser-facing endpoint is reached over the backchannel.
    pub fn swap_origin(url: &Url, base: &Url) -> (r: Option<Url>)
        ensures
            match rehomed(url@, base@) {
                None => r is None,
                Some(t) => match url_parsed(t) {
                    Ok(v) => r matches Some(u) && u@ == v,
                    Err(_) => r is None,
                },
            },
    {
        let text = match with_origin(url, base) {
            Some(t) => t,
            None => {
                return None;
            },
        };
        match Url::parse(text.as_str()) {
            Ok(u) => Some(u),
            Err(_) => None,
        }
    }

    /// Asks for a refresh token as well: `offline_access` joins the scopes,
    /// once however often this is called.
    pub fn request_refresh_tokens(self) -> (r: Self)
        ensures
            views(r.scopes@) == if views(self.scopes@).contains(OFFLINE_ACCESS@) {
                views(self.scopes@)
            } else {
                views(self.scopes@).push(OFFLINE_ACCESS@)
            },
            r.issuer == self.issuer,
            r.backchannel == self.backchannel,
            r.client_secret == self.client_secret,
            r.cookie_secure == self.cookie_secure,
            r.danger_accept_invalid_certs == self.danger_accept_invalid_certs,
            r.assets_dir == self.assets_dir,
            r.client_id == self.client_id,
            r.redirect_url == self.redirect_url,
            r.cookie_name == self.cookie_name,
            r.login_path == self.login_path,
            r.logout_path == self.logout_path,
            r.deployment == self.deployment,
    {
        let mut out = self;
        let mut found = false;
        let mut i: usize = 0;
        while i < out.scopes.len()
            invariant
                i <= out.scopes.len(),
                found == views(out.scopes@).take(i as int).contains(OFFLINE_ACCESS@),
            decreases out.scopes.len() - i,
        {
            proof {
                let t = views(out.scopes@).take(i + 1);
                assert(t =~= views(out.scopes@).take(i as int).push(out.scopes@[i as int]@));
                crate::oidc::config::lemma_contains_push_seq(
                    views(out.scopes@).take(i as int),
                    out.scopes@[i as int]@,
                    OFFLINE_ACCESS@,
                );
            }
            if same(out.scopes[i].as_str(), OFFLINE_ACCESS) {
                found = true;
            }
            i = i + 1;
        }
        assert(views(out.scopes@).take(i as int) =~= views(out.scopes@));
        if !found {
            let ghost before = out.scopes@;
            out.scopes.push(owned(OFFLINE_ACCESS));
            assert(views(out.scopes@) =~= views(before).push(OFFLINE_ACCESS@));
        }
        out
    }
}

proof fn lemma_contains_push_seq(s: Seq<Seq<char>>, x: Seq<char>, n: Seq<char>)
    ensures
        s.push(x).contains(n) <==> (s.contains(n) || n == x),
{
    if s.contains(n) {
        let i = choose|i: int| 0 <= i < s.len() && s[i] == n;
        assert(s.push(x)[i] == n);
    }
    if n == x {
        assert(s.push(x)[s.len() as int] == n);
    }
    if s.push(x).contains(n) {
        let i = choose|i: int| 0 <= i < s.push(x).len() && s.push(x)[i] == n;
        if i < s.len() {
            assert(s[i] == n);
        }
    }
}

/// The default scopes ask for no refresh token.
pub proof fn lemma_defaults_ask_no_refresh()
    ensures
        !default_scopes().contains(OFFLINE_ACCESS@),
{
    reveal_strlit("openid");
    reveal_strlit("profile");
    reveal_strlit("email");
    reveal_strlit("effective_groups");
    reveal_strlit("offline_access");
    let d = default_scopes();
    assert forall|i: int| 0 <= i < d.len() implies d[i] != OFFLINE_ACCESS@ by {
        assert(d[i].len() != OFFLINE_ACCESS@.len());
    }
}

/// Asking twice is asking once: `offline_access` is listed exactly once
/// after any number of requests.
pub proof fn lemma_refresh_once(scopes: Seq<Seq<char>>)
    requires
        !scopes.contains(OFFLINE_ACCESS@),
    ensures
        count_of(scopes.push(OFFLINE_ACCESS@), OFFLINE_ACCESS@) == 1,
{
    lemma_count_contains(scopes, OFFLINE_ACCESS@);
    assert(scopes.push(OFFLINE_ACCESS@).drop_last() =~= scopes);
}

} // verus!
