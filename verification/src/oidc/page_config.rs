//! What a page is told about its world: the block a service serialises into
//! its shell. The paths come off the `OidcConfig` the router was mounted
//! with, so a page cannot carry a literal that drifts from a route.

use vstd::prelude::*;

use crate::oidc::config::{OidcConfig, LOGIN_PATH};
use crate::text::{opt_view, owned};

verus! {

/// Who is looking at the page. `portrait` is `None`, never empty.
#[derive(Debug, Clone, PartialEq, Eq)]
pub struct PageUser {
    pub name: String,
    pub portrait: Option<String>,
}

#[derive(Debug, Clone, PartialEq, Eq)]
pub struct PageConfig {
    pub assets_origin: String,
    pub login_path: String,
    pub launcher_url: String,
    pub logout_path: String,
    /// `None` on an unauthenticated page.
    pub user: Option<PageUser>,
}

/// The block's fields, as given.
pub open spec fn page_is(
    p: PageConfig,
    login_path: Seq<char>,
    logout_path: Seq<char>,
    user: Option<Seq<char>>,
    launcher_url: Seq<char>,
    assets_origin: Seq<char>,
) -> bool {
    &&& p.assets_origin@ == assets_origin
    &&& p.login_path@ == login_path
    &&& p.launcher_url@ == launcher_url
    &&& p.logout_path@ == logout_path
    &&& match user {
        Some(name) => p.user matches Some(u) && u.name@ == name && u.portrait is None,
        None => p.user is None,
    }
}

impl PageConfig {
    /// `user` is the display name resolved for this request, or `None` when
    /// nobody is signed in; no portrait source exists, so none is given.
    pub fn new(cfg: &OidcConfig, user: Option<&str>, launcher_url: &str, assets_origin: &str) -> (r:
        Self)
        ensures
            page_is(
                r,
                cfg.login_path@,
                cfg.logout_path@,
                crate::config::values::opt_str(user),
                launcher_url@,
                assets_origin@,
            ),
    {
        Self::build(cfg.login_path.as_str(), cfg.logout_path.as_str(), user, launcher_url, assets_origin)
    }

    /// For a deployment that mounts no OIDC router: the login path keeps the
    /// default spelling, the logout path is empty (no logout control).
    pub fn without_oidc(user: Option<&str>, launcher_url: &str, assets_origin: &str) -> (r: Self)
        ensures
            page_is(
                r,
                LOGIN_PATH@,
                seq![],
                crate::config::values::opt_str(user),
                launcher_url@,
                assets_origin@,
            ),
    {
        let r = Self::build(LOGIN_PATH, "", user, launcher_url, assets_origin);
        proof {
            reveal_strlit("");
            assert(r.logout_path@ =~= Seq::<char>::empty());
        }
        r
    }

    fn build(
        login_path: &str,
        logout_path: &str,
        user: Option<&str>,
        launcher_url: &str,
        assets_origin: &str,
    ) -> (r: Self)
        ensures
            page_is(
                r,
                login_path@,
                logout_path@,
                crate::config::values::opt_str(user),
                launcher_url@,
                assets_origin@,
            ),
    {
        PageConfig {
            assets_origin: owned(assets_origin),
            login_path: owned(login_path),
            launcher_url: owned(launcher_url),
            logout_path: owned(logout_path),
            user: match user {
                Some(name) => Some(PageUser { name: owned(name), portrait: None }),
                None => None,
            },
        }
    }
}

} // verus!
