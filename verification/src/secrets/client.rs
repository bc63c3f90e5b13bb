//! The HTTP contract with the identity provider and the secret store: the
//! token form, the store's URLs, how each status is judged, when a read is
//! retried with a fresh token, and what a kv-v2 document yields. Sending
//! the requests is the caller's.

use vstd::prelude::*;

use crate::secrets::error::{Error, Stage};
use crate::text::{append, decimal, decimal_string, owned, same, strip_end, strip_start, trim_end_char, trim_start_char};

verus! {

/// The statuses that mean the credentials were refused: the token endpoint
/// and the jwt login answer 400 for bad credentials, as well as 401 and 403.
pub const AUTH_REJECT: [u16; 3] = [400, 401, 403];

/// Seconds a vault token is treated as spent before its lease ends.
pub const LEASE_SKEW_SECS: u64 = 10;

pub open spec fn is_auth_reject(status: u16) -> bool {
    status == 400 || status == 401 || status == 403
}

pub fn auth_rejects(status: u16) -> (r: bool)
    ensures
        r == is_auth_reject(status),
{
    let mut i: usize = 0;
    while i < 3
        invariant
            i <= 3,
            forall|j: int| 0 <= j < i ==> AUTH_REJECT[j] != status,
        decreases 3 - i,
    {
        if AUTH_REJECT[i] == status {
            return true;
        }
        i = i + 1;
    }
    assert(AUTH_REJECT[0] != status);
    assert(AUTH_REJECT[1] != status);
    assert(AUTH_REJECT[2] != status);
    false
}

/// The client-credentials form sent to the token endpoint.
pub fn token_form<'a>(client_id: &'a str, username: &'a str, password: &'a str, scope: &'a str) -> (r:
    [(&'a str, &'a str); 5])
    ensures
        r[0].0@ == "grant_type"@ && r[0].1@ == "client_credentials"@,
        r[1].0@ == "client_id"@ && r[1].1@ == client_id@,
        r[2].0@ == "username"@ && r[2].1@ == username@,
        r[3].0@ == "password"@ && r[3].1@ == password@,
        r[4].0@ == "scope"@ && r[4].1@ == scope@,
{
    [
        ("grant_type", "client_credentials"),
        ("client_id", client_id),
        ("username", username),
        ("password", password),
        ("scope", scope),
    ]
}

/// The jwt login URL: the address, trailing slashes dropped, then the path.
pub fn login_url(bao_addr: &str) -> (r: String)
    ensures
        r@ == strip_end(bao_addr@, '/') + "/v1/auth/jwt/login"@,
{
    let mut out = trim_end_char(bao_addr, '/');
    append(&mut out, "/v1/auth/jwt/login");
    out
}

/// A logical kv path on the data plane: reads and writes.
pub fn data_url(bao_addr: &str, path: &str) -> (r: String)
    ensures
        r@ == strip_end(bao_addr@, '/') + "/v1/kv/data/"@ + strip_start(path@, '/'),
{
    let mut out = trim_end_char(bao_addr, '/');
    append(&mut out, "/v1/kv/data/");
    let p = trim_start_char(path, '/');
    append(&mut out, p.as_str());
    out
}

/// A logical kv path on the metadata plane: deletes.
pub fn metadata_url(bao_addr: &str, path: &str) -> (r: String)
    ensures
        r@ == strip_end(bao_addr@, '/') + "/v1/kv/metadata/"@ + strip_start(path@, '/'),
{
    let mut out = trim_end_char(bao_addr, '/');
    append(&mut out, "/v1/kv/metadata/");
    let p = trim_start_char(path, '/');
    append(&mut out, p.as_str());
    out
}

/// The path a service's key is stored under.
pub fn secret_path(service: &str, key: &str) -> (r: String)
    ensures
        r@ == "services/"@ + service@ + "/"@ + key@,
{
    let mut out = owned("services/");
    append(&mut out, service);
    append(&mut out, "/");
    append(&mut out, key);
    out
}

/// The canonical reason phrase of a status, as the HTTP crate knows it.
pub uninterp spec fn reason_phrase(status: u16) -> Option<Seq<char>>;

/// `StatusCode::canonical_reason`: the standard phrase for `status`, if it
/// names one. The table is the crate's, named here.
#[verifier::external_body]
fn canonical_reason(status: u16) -> (r: Option<String>)
    ensures
        crate::text::opt_view(r) == reason_phrase(status),
{
    reqwest::StatusCode::from_u16(status).ok().and_then(|s| s.canonical_reason()).map(|s| s.to_string())
}

/// How a status is shown: the code, then its phrase.
pub open spec fn status_text(status: u16) -> Seq<char> {
    decimal(status as nat) + " "@ + match reason_phrase(status) {
        Some(p) => p,
        None => "<unknown status code>"@,
    }
}

pub fn status_display(status: u16) -> (r: String)
    ensures
        r@ == status_text(status),
{
    let mut out = decimal_string(status as u64);
    append(&mut out, " ");
    match canonical_reason(status) {
        Some(p) => append(&mut out, p.as_str()),
        None => append(&mut out, "<unknown status code>"),
    }
    out
}

/// The store operation an answer belongs to.
#[derive(Debug, Clone, Copy, PartialEq, Eq, Structural)]
pub enum Op {
    Token,
    Login,
    Read,
    Write,
    Delete,
}

pub open spec fn op_stage(op: Op) -> Stage {
    match op {
        Op::Token => Stage::AuthentikToken,
        Op::Login => Stage::VaultLogin,
        _ => Stage::VaultRead,
    }
}

pub open spec fn op_words(op: Op) -> Seq<char> {
    match op {
        Op::Token => "token endpoint returned "@,
        Op::Login => "jwt login returned "@,
        Op::Read => "kv read returned "@,
        Op::Write => "kv write returned "@,
        Op::Delete => "kv delete returned "@,
    }
}

/// How an answer's status is judged: success (and, for a delete, a 404)
/// goes on; a read's 404 is not-found; a credential refusal is named by
/// stage; anything else is an upstream anomaly naming the status.
pub open spec fn verdict_spec(op: Op, status: u16) -> Option<Error> {
    if 200 <= status <= 299 || (op == Op::Delete && status == 404) {
        None
    } else if op == Op::Read && status == 404 {
        Some(Error::NotFound)
    } else if is_auth_reject(status) {
        Some(Error::AuthRejected(op_stage(op)))
    } else {
        None
    }
}

pub fn verdict(op: Op, status: u16) -> (r: Result<(), Error>)
    ensures
        match verdict_spec(op, status) {
            Some(e) => r matches Err(x) && x == e,
            None => if 200 <= status <= 299 || (op == Op::Delete && status == 404) {
                r is Ok
            } else {
                r matches Err(Error::Upstream { stage, detail }) && stage == op_stage(op)
                    && detail@ == op_words(op) + status_text(status)
            },
        },
{
    if (200 <= status && status <= 299) || (op == Op::Delete && status == 404) {
        return Ok(());
    }
    if op == Op::Read && status == 404 {
        return Err(Error::NotFound);
    }
    let stage = match op {
        Op::Token => Stage::AuthentikToken,
        Op::Login => Stage::VaultLogin,
        _ => Stage::VaultRead,
    };
    if auth_rejects(status) {
        return Err(Error::AuthRejected(stage));
    }
    let mut detail = owned(match op {
        Op::Token => "token endpoint returned ",
        Op::Login => "jwt login returned ",
        Op::Read => "kv read returned ",
        Op::Write => "kv write returned ",
        Op::Delete => "kv delete returned ",
    });
    let shown = status_display(status);
    append(&mut detail, shown.as_str());
    Err(Error::Upstream { stage, detail })
}

/// Whether a kv operation is tried once more with a fresh token: only when
/// the store refused the cached token at the read stage.
pub fn needs_reauth<T>(r: &Result<T, Error>) -> (b: bool)
    ensures
        b == (r matches Err(Error::AuthRejected(Stage::VaultRead))),
{
    match r {
        Err(Error::AuthRejected(Stage::VaultRead)) => true,
        _ => false,
    }
}

/// How long a vault token is used: its lease less the skew, at least zero.
pub fn token_ttl_secs(lease: u64) -> (r: u64)
    ensures
        r == if lease >= LEASE_SKEW_SECS {
            (lease - LEASE_SKEW_SECS) as u64
        } else {
            0u64
        },
{
    if lease >= LEASE_SKEW_SECS {
        lease - LEASE_SKEW_SECS
    } else {
        0
    }
}

/// A fetched value. It is only ever handed out by `expose`.
#[derive(Clone)]
pub struct Secret {
    value: String,
}

impl Secret {
    pub closed spec fn view(&self) -> Seq<char> {
        self.value@
    }

    pub fn new(value: String) -> (r: Self)
        ensures
            r.view() == value@,
    {
        Secret { value }
    }

    pub fn expose(&self) -> (r: &str)
        ensures
            r@ == self.view(),
    {
        self.value.as_str()
    }
}

/// A field of a kv-v2 document: its text, or `None` for a value that is not
/// a string.
pub type KvField = (String, Option<String>);

pub open spec fn fields_view(v: Seq<KvField>) -> Seq<(Seq<char>, Option<Seq<char>>)> {
    v.map_values(|f: KvField| (f.0@, crate::text::opt_view(f.1)))
}

/// The first field named `key`.
pub open spec fn field_named(fields: Seq<(Seq<char>, Option<Seq<char>>)>, key: Seq<char>) -> Option<Option<Seq<char>>>
    decreases fields.len(),
{
    if fields.len() == 0 {
        None
    } else if fields[0].0 == key {
        Some(fields[0].1)
    } else {
        field_named(fields.drop_first(), key)
    }
}

/// The field `key` of a document: its string, not-found when absent, an
/// upstream anomaly when it is not a string.
pub fn extract(fields: &Vec<KvField>, key: &str) -> (r: Result<Secret, Error>)
    ensures
        match field_named(fields_view(fields@), key@) {
            None => r matches Err(Error::NotFound),
            Some(None) => r matches Err(Error::Upstream { stage, detail }) && stage == Stage::VaultRead
                && detail@ == "value at "@ + key@ + " is not a string"@,
            Some(Some(s)) => r matches Ok(x) && x.view() == s,
        },
{
    let ghost fv = fields_view(fields@);
    let mut i: usize = 0;
    assert(fv.skip(0) =~= fv);
    while i < fields.len()
        invariant
            i <= fields.len(),
            fv == fields_view(fields@),
            field_named(fv, key@) == field_named(fv.skip(i as int), key@),
        decreases fields.len() - i,
    {
        assert(fv.skip(i as int)[0] == (fields@[i as int].0@, crate::text::opt_view(fields@[i as int].1)));
        if same(fields[i].0.as_str(), key) {
            return match &fields[i].1 {
                Some(s) => Ok(Secret::new(s.clone())),
                None => {
                    let mut detail = owned("value at ");
                    append(&mut detail, key);
                    append(&mut detail, " is not a string");
                    Err(Error::Upstream { stage: Stage::VaultRead, detail })
                },
            };
        }
        assert(fv.skip(i as int).drop_first() =~= fv.skip(i + 1));
        i = i + 1;
    }
    Err(Error::NotFound)
}

/// Every field of a document as a secret, in order; the first field that is
/// not a string is an upstream anomaly.
pub open spec fn first_non_string(fields: Seq<(Seq<char>, Option<Seq<char>>)>) -> Option<Seq<char>>
    decreases fields.len(),
{
    if fields.len() == 0 {
        None
    } else if fields[0].1 is None {
        Some(fields[0].0)
    } else {
        first_non_string(fields.drop_first())
    }
}

pub fn collect(fields: &Vec<KvField>) -> (r: Result<Vec<(String, Secret)>, Error>)
    ensures
        match first_non_string(fields_view(fields@)) {
            Some(name) => r matches Err(Error::Upstream { stage, detail }) && stage == Stage::VaultRead
                && detail@ == "value at "@ + name + " is not a string"@,
            None => r matches Ok(v) && v@.len() == fields@.len() && forall|i: int|
                0 <= i < v@.len() ==> (#[trigger] v@[i]).0@ == fields@[i].0@ && (fields@[i].1 matches Some(
                    s,
                ) && v@[i].1.view() == s@),
        },
{
    let ghost fv = fields_view(fields@);
    let mut out: Vec<(String, Secret)> = Vec::new();
    let mut i: usize = 0;
    assert(fv.skip(0) =~= fv);
    while i < fields.len()
        invariant
            i <= fields.len(),
            fv == fields_view(fields@),
            first_non_string(fv) == first_non_string(fv.skip(i as int)),
            out@.len() == i,
            forall|j: int|
                0 <= j < i ==> (#[trigger] out@[j]).0@ == fields@[j].0@ && (fields@[j].1 matches Some(
                    s,
                ) && out@[j].1.view() == s@),
        decreases fields.len() - i,
    {
        assert(fv.skip(i as int)[0] == (fields@[i as int].0@, crate::text::opt_view(fields@[i as int].1)));
        match &fields[i].1 {
            Some(s) => {
                out.push((fields[i].0.clone(), Secret::new(s.clone())));
            },
            None => {
                let mut detail = owned("value at ");
                append(&mut detail, fields[i].0.as_str());
                append(&mut detail, " is not a string");
                return Err(Error::Upstream { stage: Stage::VaultRead, detail });
            },
        }
        assert(fv.skip(i as int).drop_first() =~= fv.skip(i + 1));
        i = i + 1;
    }
    Ok(out)
}

/// A kv-v2 read's payload as the caller decoded it: its fields, or the
/// decoder's message turned into the upstream anomaly of an unreadable
/// payload.
pub fn read_fields(decoded: Result<Vec<KvField>, String>) -> (r: Result<Vec<KvField>, Error>)
    ensures
        match decoded {
            Ok(f) => r matches Ok(v) && v == f,
            Err(e) => r matches Err(Error::Upstream { stage, detail }) && stage == Stage::VaultRead
                && detail@ == "invalid kv payload: "@ + e@,
        },
{
    match decoded {
        Ok(v) => Ok(v),
        Err(e) => {
            let mut detail = owned("invalid kv payload: ");
            append(&mut detail, e.as_str());
            Err(Error::Upstream { stage: Stage::VaultRead, detail })
        },
    }
}

} // verus!
