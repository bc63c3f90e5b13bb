//! The `[oidc]` section a consumer nests in its config root: every
//! operator-set value an `OidcConfig` needs, spelled once.

use vstd::prelude::*;

use crate::config::deployment::Deployment;
use crate::config::load::Config;
use crate::config::path::Path;
use crate::config::refusal::{Refusal, RefusalV};
use crate::config::schema::{Class, Field, Kind, Presence};
use crate::config::values::{
    bool_read, bool_refusal, first_of, has_path, leaf_gave, leaf_opt_gave, leaf_opt_refusal, leaf_refusal,
    Values,
};
use crate::oidc::config::{OidcConfig, OFFLINE_ACCESS};
use crate::oidc::url::Url;
use crate::text::{owned, views};

verus! {

#[derive(Debug, Clone)]
pub struct OidcSection {
    pub issuer: Url,
    pub backchannel: Option<Url>,
    pub client_id: String,
    pub client_secret: Option<String>,
    pub redirect_url: Url,
    pub cookie_name: String,
    pub cookie_secure: bool,
    pub danger_accept_invalid_certs: bool,
    pub refresh_tokens: bool,
}

pub const ISSUER_HELP: &'static str = "Issuer URL, the provider's `application/o/<slug>/`; discovery appends `.well-known/openid-configuration`.";

pub const BACKCHANNEL_HELP: &'static str = "Issuer origin for server-to-server calls (discovery, token, userinfo) when it differs from the browser-facing one; unset means the issuer's.";

pub const CLIENT_ID_HELP: &'static str = "The client id registered at the provider.";

pub const CLIENT_SECRET_HELP: &'static str = "Confidential-client secret; unset means a public (PKCE-only) client.";

pub const REDIRECT_URL_HELP: &'static str = "The redirect URI registered at the provider; its path is the callback route.";

pub const COOKIE_NAME_HELP: &'static str = "Name of the session cookie.";

pub const COOKIE_SECURE_HELP: &'static str = "Send the session cookie only over https.";

pub const DANGER_HELP: &'static str = "Accept an untrusted TLS certificate on back-channel calls. Dev-only: discovery refuses it under prod.";

pub const REFRESH_HELP: &'static str = "Ask the provider for a refresh token (`offline_access`).";

fn leaf_field(prefix: &Path, name: &str, help: &str, presence: Presence, secret: bool, kind: Kind) -> (r:
    Field)
    ensures
        r.path@ == prefix@.push(name@),
{
    Field {
        path: prefix.child(name),
        help: owned(help),
        presence,
        class: Class::Neutral,
        secret,
        kind,
        env: None,
        flag: None,
    }
}

impl Config for OidcSection {
    open spec fn covered(fields: Seq<Field>, prefix: Seq<Seq<char>>) -> bool {
        &&& has_path(fields, prefix.push("issuer"@))
        &&& has_path(fields, prefix.push("backchannel"@))
        &&& has_path(fields, prefix.push("client_id"@))
        &&& has_path(fields, prefix.push("client_secret"@))
        &&& has_path(fields, prefix.push("redirect_url"@))
        &&& has_path(fields, prefix.push("cookie_name"@))
        &&& has_path(fields, prefix.push("cookie_secure"@))
        &&& has_path(fields, prefix.push("danger_accept_invalid_certs"@))
        &&& has_path(fields, prefix.push("refresh_tokens"@))
    }

    fn schema(prefix: &Path) -> (r: Vec<Field>) {
        let mut out: Vec<Field> = Vec::new();
        out.push(leaf_field(prefix, "issuer", ISSUER_HELP, Presence::Required, false, Kind::Text));
        out.push(leaf_field(prefix, "backchannel", BACKCHANNEL_HELP, Presence::Optional, false, Kind::Text));
        out.push(leaf_field(prefix, "client_id", CLIENT_ID_HELP, Presence::Required, false, Kind::Text));
        out.push(leaf_field(prefix, "client_secret", CLIENT_SECRET_HELP, Presence::Optional, true, Kind::Text));
        out.push(leaf_field(prefix, "redirect_url", REDIRECT_URL_HELP, Presence::Required, false, Kind::Text));
        out.push(leaf_field(prefix, "cookie_name", COOKIE_NAME_HELP, Presence::Required, false, Kind::Text));
        out.push(leaf_field(prefix, "cookie_secure", COOKIE_SECURE_HELP, Presence::Default(owned("true")), false, Kind::Bool));
        out.push(leaf_field(prefix, "danger_accept_invalid_certs", DANGER_HELP, Presence::Default(owned("false")), false, Kind::Bool));
        out.push(leaf_field(prefix, "refresh_tokens", REFRESH_HELP, Presence::Default(owned("false")), false, Kind::Bool));
        assert(out@[0].path@ == prefix@.push("issuer"@));
        assert(out@[1].path@ == prefix@.push("backchannel"@));
        assert(out@[2].path@ == prefix@.push("client_id"@));
        assert(out@[3].path@ == prefix@.push("client_secret"@));
        assert(out@[4].path@ == prefix@.push("redirect_url"@));
        assert(out@[5].path@ == prefix@.push("cookie_name"@));
        assert(out@[6].path@ == prefix@.push("cookie_secure"@));
        assert(out@[7].path@ == prefix@.push("danger_accept_invalid_certs"@));
        assert(out@[8].path@ == prefix@.push("refresh_tokens"@));
        out
    }

    /// The nine leaves read in order; the first refusal is the answer.
    fn from_values(values: &Values, prefix: &Path) -> (r: Result<Self, Refusal>)
        ensures
            ({
                let issuer = prefix@.push("issuer"@);
                let backchannel = prefix@.push("backchannel"@);
                let client_id = prefix@.push("client_id"@);
                let client_secret = prefix@.push("client_secret"@);
                let redirect_url = prefix@.push("redirect_url"@);
                let cookie_name = prefix@.push("cookie_name"@);
                let cookie_secure = prefix@.push("cookie_secure"@);
                let danger = prefix@.push("danger_accept_invalid_certs"@);
                let refresh = prefix@.push("refresh_tokens"@);
                let refused = first_of(
                    leaf_refusal::<Url>(*values, issuer, None),
                    first_of(
                        leaf_opt_refusal::<Url>(*values, backchannel, None),
                        first_of(
                            leaf_refusal::<String>(*values, client_id, None),
                            first_of(
                                leaf_opt_refusal::<String>(*values, client_secret, None),
                                first_of(
                                    leaf_refusal::<Url>(*values, redirect_url, None),
                                    first_of(
                                        leaf_refusal::<String>(*values, cookie_name, None),
                                        first_of(
                                            bool_refusal(*values, cookie_secure),
                                            first_of(
                                                bool_refusal(*values, danger),
                                                bool_refusal(*values, refresh),
                                            ),
                                        ),
                                    ),
                                ),
                            ),
                        ),
                    ),
                );
                match r {
                    Ok(s) => {
                        &&& refused is None
                        &&& leaf_gave(*values, issuer, s.issuer)
                        &&& leaf_opt_gave(*values, backchannel, s.backchannel)
                        &&& leaf_gave(*values, client_id, s.client_id)
                        &&& leaf_opt_gave(*values, client_secret, s.client_secret)
                        &&& leaf_gave(*values, redirect_url, s.redirect_url)
                        &&& leaf_gave(*values, cookie_name, s.cookie_name)
                        &&& bool_read(*values, cookie_secure) == Ok::<bool, RefusalV>(s.cookie_secure)
                        &&& bool_read(*values, danger) == Ok::<bool, RefusalV>(
                            s.danger_accept_invalid_certs,
                        )
                        &&& bool_read(*values, refresh) == Ok::<bool, RefusalV>(s.refresh_tokens)
                    },
                    Err(e) => refused == Some(e@),
                }
            }),
    {
        Ok(OidcSection {
            issuer: values.leaf::<Url>(&prefix.child("issuer"), None)?,
            backchannel: values.leaf_opt::<Url>(&prefix.child("backchannel"), None)?,
            client_id: values.leaf::<String>(&prefix.child("client_id"), None)?,
            client_secret: values.leaf_opt::<String>(&prefix.child("client_secret"), None)?,
            redirect_url: values.leaf::<Url>(&prefix.child("redirect_url"), None)?,
            cookie_name: values.leaf::<String>(&prefix.child("cookie_name"), None)?,
            cookie_secure: values.bool(&prefix.child("cookie_secure"))?,
            danger_accept_invalid_certs: values.bool(&prefix.child("danger_accept_invalid_certs"))?,
            refresh_tokens: values.bool(&prefix.child("refresh_tokens"))?,
        })
    }
}

impl OidcSection {
    /// The client configuration the section describes, under `deployment`.
    pub fn to_config(&self, deployment: Deployment) -> (r: OidcConfig)
        ensures
            r.issuer == self.issuer,
            r.backchannel == self.backchannel,
            r.client_id@ == self.client_id@,
            r.client_secret == self.client_secret,
            r.redirect_url == self.redirect_url,
            r.cookie_name@ == self.cookie_name@,
            r.cookie_secure == self.cookie_secure,
            r.danger_accept_invalid_certs == self.danger_accept_invalid_certs,
            r.deployment == deployment,
            views(r.scopes@) == if self.refresh_tokens {
                crate::oidc::config::default_scopes().push(OFFLINE_ACCESS@)
            } else {
                crate::oidc::config::default_scopes()
            },
    {
        let mut config = OidcConfig::new(
            self.issuer.duplicate(),
            self.client_id.clone(),
            self.redirect_url.duplicate(),
            self.cookie_name.clone(),
        );
        config.backchannel = match &self.backchannel {
            Some(u) => Some(u.duplicate()),
            None => None,
        };
        config.client_secret = match &self.client_secret {
            Some(s) => Some(s.clone()),
            None => None,
        };
        proof {
            crate::oidc::config::lemma_defaults_ask_no_refresh();
        }
        config.cookie_secure = self.cookie_secure;
        config.danger_accept_invalid_certs = self.danger_accept_invalid_certs;
        config.deployment = deployment;
        if self.refresh_tokens {
            config = config.request_refresh_tokens();
        }
        config
    }
}

} // verus!
