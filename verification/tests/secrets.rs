use common_rust::secrets::client::{
    auth_rejects, collect, data_url, extract, login_url, metadata_url, needs_reauth, read_fields,
    secret_path, token_form, token_ttl_secs, verdict, Op, AUTH_REJECT,
};
use common_rust::secrets::error::{Error, Stage};

/// A kv field as the decoder hands it over: a string, or `None` for any
/// other JSON value.
fn field(name: &str, text: Option<&str>) -> (String, Option<String>) {
    (name.to_string(), text.map(str::to_string))
}

#[test]
fn login_url_trims_a_trailing_slash() {
    assert_eq!(login_url("http://127.0.0.1:8018"), "http://127.0.0.1:8018/v1/auth/jwt/login");
    assert_eq!(login_url("http://127.0.0.1:8018/"), "http://127.0.0.1:8018/v1/auth/jwt/login");
}

#[test]
fn data_and_metadata_urls_trim_addr_slash_and_path_slash() {
    assert_eq!(
        data_url("http://127.0.0.1:8018/", "services/roleui/authentik_token"),
        "http://127.0.0.1:8018/v1/kv/data/services/roleui/authentik_token"
    );
    assert_eq!(
        data_url("http://127.0.0.1:8018", "/tasks/connector-principals"),
        "http://127.0.0.1:8018/v1/kv/data/tasks/connector-principals"
    );
    assert_eq!(
        metadata_url("http://127.0.0.1:8018/", "/tasks/connector-principals"),
        "http://127.0.0.1:8018/v1/kv/metadata/tasks/connector-principals"
    );
}

#[test]
fn token_form_carries_the_client_credentials_grant_and_scope() {
    let form = token_form("cid", "svc-roleui", "pw", "openid effective_groups");
    assert_eq!(form[0], ("grant_type", "client_credentials"));
    assert!(form.contains(&("client_id", "cid")));
    assert!(form.contains(&("username", "svc-roleui")));
    assert!(form.contains(&("password", "pw")));
    assert!(form.contains(&("scope", "openid effective_groups")));
}

#[test]
fn statuses_are_judged_by_stage() {
    assert!(verdict(Op::Read, 200).is_ok());
    assert!(matches!(verdict(Op::Read, 404), Err(Error::NotFound)));
    assert!(verdict(Op::Delete, 404).is_ok());
    assert!(matches!(verdict(Op::Token, 400), Err(Error::AuthRejected(Stage::AuthentikToken))));
    assert!(matches!(verdict(Op::Login, 403), Err(Error::AuthRejected(Stage::VaultLogin))));
    match verdict(Op::Write, 500) {
        Err(Error::Upstream { stage, detail }) => {
            assert_eq!(stage, Stage::VaultRead);
            assert_eq!(detail, "kv write returned 500 Internal Server Error");
        }
        _ => panic!("expected an upstream anomaly"),
    }
    assert!(needs_reauth::<()>(&Err(Error::AuthRejected(Stage::VaultRead))));
    assert!(!needs_reauth::<()>(&Err(Error::AuthRejected(Stage::VaultLogin))));
    assert_eq!(token_ttl_secs(900), 890);
    assert_eq!(token_ttl_secs(3), 0);
    assert_eq!(secret_path("roleui", "authentik_token"), "services/roleui/authentik_token");
    assert_eq!(Error::AuthRejected(Stage::VaultRead).to_string(), "credentials rejected during OpenBao kv read");
}

#[test]
fn documents_yield_strings_only() {
    let fields = vec![("alpha".to_string(), Some("a".to_string())), ("beta".to_string(), Some("b".to_string()))];
    assert_eq!(extract(&fields, "beta").unwrap().expose(), "b");
    assert!(matches!(extract(&fields, "gamma"), Err(Error::NotFound)));
    let all = collect(&fields).unwrap();
    assert_eq!(all.len(), 2);
    assert_eq!(all[0].1.expose(), "a");
    let bad = vec![("alpha".to_string(), None)];
    match collect(&bad) {
        Err(Error::Upstream { detail, .. }) => assert_eq!(detail, "value at alpha is not a string"),
        _ => panic!("expected an upstream anomaly"),
    }
    assert!(collect(&Vec::new()).unwrap().is_empty());
}

#[test]
fn extract_reads_the_named_field_from_kv_v2_nesting() {
    let fields = read_fields(Ok(vec![field("authentik_token", Some("s3cr3t"))])).unwrap();
    let secret = extract(&fields, "authentik_token").unwrap();
    assert_eq!(secret.expose(), "s3cr3t");
}

#[test]
fn extract_missing_field_is_not_found_not_empty() {
    let fields = read_fields(Ok(vec![field("other", Some("x"))])).unwrap();
    assert!(matches!(extract(&fields, "authentik_token"), Err(Error::NotFound)));
}

#[test]
fn extract_non_string_field_is_upstream() {
    let fields = read_fields(Ok(vec![field("authentik_token", None)])).unwrap();
    assert!(matches!(extract(&fields, "authentik_token"), Err(Error::Upstream { .. })));
}

#[test]
fn collect_maps_every_field_to_a_redacting_secret() {
    let fields = read_fields(Ok(vec![field("alpha", Some("a")), field("beta", Some("b"))])).unwrap();
    let map: std::collections::BTreeMap<String, _> = collect(&fields).unwrap().into_iter().collect();
    assert_eq!(map.len(), 2);
    assert_eq!(map.get("alpha").unwrap().expose(), "a");
    assert_eq!(map.get("beta").unwrap().expose(), "b");
}

#[test]
fn collect_of_an_empty_document_is_an_empty_map() {
    let fields = read_fields(Ok(Vec::new())).unwrap();
    assert!(collect(&fields).unwrap().is_empty());
}

#[test]
fn collect_non_string_field_is_upstream() {
    let fields = read_fields(Ok(vec![field("alpha", None)])).unwrap();
    assert!(matches!(collect(&fields), Err(Error::Upstream { .. })));
}

#[test]
fn auth_reject_set_drives_the_reauth_decision() {
    for s in [400u16, 401, 403] {
        assert!(AUTH_REJECT.contains(&s));
        assert!(auth_rejects(s));
    }
    for s in [200u16, 404, 500] {
        assert!(!AUTH_REJECT.contains(&s));
        assert!(!auth_rejects(s));
    }
}

#[test]
fn an_unreadable_kv_payload_is_upstream() {
    match read_fields(Err("expected value at line 1 column 1".to_string())) {
        Err(Error::Upstream { stage: Stage::VaultRead, detail }) => {
            assert_eq!(detail, "invalid kv payload: expected value at line 1 column 1")
        }
        _ => panic!("expected an upstream anomaly"),
    }
}
