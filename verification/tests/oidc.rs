use std::marker::PhantomData;
use std::sync::Arc;

use common_rust::config::deployment::Deployment;
use common_rust::oidc::auth::{
    admitted_by, actor_of, bearer_token, gated_by, resolve_context, service_account, AuthContext, AuthVia,
    BearerOutcome, Gate,
};
use common_rust::oidc::config::OidcConfig;
use common_rust::oidc::page_config::PageConfig;
use common_rust::oidc::predicate::{
    both, either, group_check, negate, And, Denial, Group, HasGroup, Not, Or, Predicate,
};
use common_rust::oidc::error::{OidcError, Upstream};
use common_rust::oidc::resolve::{resolve_start, resolve_step, retry_again, Answer, Resolving, Step};
use common_rust::oidc::principal::Principal;
use common_rust::oidc::source_state::{dirty_source_refusal, SourceState};
use common_rust::oidc::store::{FlowState, FlowStore, MemoryFlowStore, MemoryStore, Session, SessionStore};
use common_rust::oidc::section::OidcSection;
use common_rust::config::file::FileRead;
use common_rust::config::load::{load_from, Config, ConfigFiles, Outcome, Root};
use common_rust::config::path::Path;
use common_rust::config::refusal::Refusal;
use common_rust::config::schema::{Class, Field, Kind, Presence};
use common_rust::config::values::Values;
use common_rust::oidc::url::Url;
use common_rust::oidc::web::{
    discovery_allowed, OidcState, DANGER_REFUSAL,
    callback_step, from_this_site, new_flow_id, safe_next, user_portal_url, wants_html,
    CallbackStep, LoginStart,
};

const GATE: &str = "gate-group";
const INDEX: &str = "index-group";

struct TestState {
    gate: Option<String>,
    index: Option<String>,
}

struct GateGroup;
struct IndexGroup;

impl Group<TestState> for GateGroup {
    fn group(s: &TestState) -> Option<String> {
        s.gate.clone()
    }
}

impl Group<TestState> for IndexGroup {
    fn group(s: &TestState) -> Option<String> {
        s.index.clone()
    }
}

fn state() -> TestState {
    TestState { gate: Some(GATE.into()), index: Some(INDEX.into()) }
}

fn principal(groups: &[&str]) -> Principal {
    Principal {
        username: "t".into(),
        email: None,
        effective_groups: groups.iter().map(|g| (*g).to_owned()).collect(),
    }
}

fn check<P: Predicate<TestState>>(groups: &[&str], state: &TestState) -> bool {
    P::check(&principal(groups), state).is_ok()
}

#[test]
fn predicate_combinator_truth_table() {
    let state = state();
    type G = HasGroup<GateGroup>;
    type I = HasGroup<IndexGroup>;

    assert!(check::<Or<G, I>>(&[GATE], &state));
    assert!(check::<Or<G, I>>(&[INDEX], &state));
    assert!(check::<Or<G, I>>(&[GATE, INDEX], &state));
    assert!(!check::<Or<G, I>>(&["random-group"], &state));

    assert!(check::<And<G, I>>(&[GATE, INDEX], &state));
    assert!(!check::<And<G, I>>(&[GATE], &state));
    assert!(!check::<And<G, I>>(&[INDEX], &state));

    assert!(check::<Not<G>>(&[INDEX], &state));
    assert!(!check::<Not<G>>(&[GATE], &state));
}

#[test]
fn predicate_an_unconfigured_group_never_passes() {
    let state = TestState { gate: None, index: None };
    assert!(!check::<HasGroup<GateGroup>>(&[GATE], &state));
}

#[test]
fn predicate_or_denial_names_both_required_groups() {
    let denial = <Or<HasGroup<GateGroup>, HasGroup<IndexGroup>>>::check(&principal(&[]), &state())
        .expect_err("no group -> denied");
    assert_eq!(denial.gate, "gate-group (effective membership) or index-group (effective membership)");
    let denial = <HasGroup<GateGroup>>::check(&principal(&[]), &TestState { gate: None, index: None })
        .expect_err("denied");
    assert_eq!(denial.gate, "-");
}

fn flow(created: u64) -> FlowState {
    FlowState {
        state: "csrf".into(),
        verifier: "pkce".into(),
        next: "/somewhere".into(),
        interactive_tried: false,
        created,
    }
}

#[test]
fn debug_redacts_the_secrets_but_keeps_the_diagnostics() {
    let rendered = flow(1).debug_text();
    assert!(
        !rendered.contains("csrf") && !rendered.contains("pkce"),
        "FlowState Debug leaked a secret: {rendered}"
    );
    assert!(rendered.contains("/somewhere"), "redaction must not blind the useful fields: {rendered}");
}

fn session(created: u64) -> Session {
    Session { access_token: "at".into(), refresh_token: Some("rt".into()), created }
}

#[test]
fn sessions_round_trip_expire_and_are_swept() {
    let mut s = MemoryStore::with_max_age(60);
    s.put("a".into(), session(100), 100);
    assert!(s.get("a", 150).is_some());
    assert!(s.get("a", 161).is_none(), "past its age a session is gone without a sweep");
    assert!(s.get("a", 50).is_some(), "a clock that stepped back keeps it");
    s.remove("a");
    assert!(s.get("a", 100).is_none());
    s.put("old".into(), session(0), 0);
    s.put("new".into(), session(200), 200);
    assert!(s.get("old", 0).is_none(), "the put at 200 swept the expired session");
    assert!(s.get("new", 200).is_some());
}

#[test]
fn next_targets_that_change_origin_are_refused() {
    for hostile in [
        "//evil.example/x",
        "/\\evil.example/x",
        "/\t/evil.example/x",
        "/\r/evil.example/x",
        "/\n/evil.example/x",
        "/..//evil.example",
        "https://evil.example",
        "http://evil.example",
        "\\/evil.example/x",
    ] {
        assert_eq!(safe_next(Some(hostile)), "/", "next={hostile:?} must not survive the guard");
    }
    assert_eq!(safe_next(Some("/me")), "/me");
    assert_eq!(safe_next(Some("/a/b?x=1&y=2")), "/a/b?x=1&y=2");
    assert_eq!(safe_next(Some("/a#frag")), "/a#frag");
    assert_eq!(safe_next(None), "/");
    assert_eq!(safe_next(Some("")), "/");
    assert_eq!(safe_next(Some("relative/no/slash")), "/");
}

fn oidc() -> OidcConfig {
    OidcConfig::new(
        Url::parse("https://auth.dev.local:8443/application/o/x/").unwrap(),
        "x",
        Url::parse("https://x.dev.local/oidc/callback").unwrap(),
        "test_session",
    )
}

#[test]
fn config_defaults_and_the_refresh_opt_in() {
    let c = oidc();
    assert!(!c.scopes.iter().any(|s| s == "offline_access"));
    assert!(c.scopes.iter().any(|s| s == "effective_groups"));
    assert!(c.cookie_secure);
    assert!(!c.danger_accept_invalid_certs);
    let c = c.request_refresh_tokens().request_refresh_tokens();
    assert_eq!(c.scopes.iter().filter(|s| *s == "offline_access").count(), 1);
    assert_eq!(user_portal_url(&oidc()), "https://auth.dev.local:8443/if/user/");
}

#[test]
fn a_logout_must_prove_it_came_from_this_site() {
    assert!(from_this_site(Some("same-origin"), None, "https://x.dev.local"));
    assert!(!from_this_site(Some("cross-site"), Some("https://x.dev.local"), "https://x.dev.local"));
    assert!(from_this_site(None, Some("https://x.dev.local"), "https://x.dev.local"));
    assert!(!from_this_site(None, None, "https://x.dev.local"));
    assert!(wants_html(true, Some("text/html,application/xhtml+xml")));
    assert!(!wants_html(false, Some("text/html")));
}

#[test]
fn the_page_block_takes_its_paths_off_the_config() {
    let p = PageConfig::new(&oidc(), Some("Alice Ackroyd"), "https://launcher", "https://assets");
    assert_eq!(p.login_path, "/oidc/login");
    assert_eq!(p.logout_path, "/common-oidc/logout");
    assert_eq!(p.user.as_ref().unwrap().name, "Alice Ackroyd");
    assert!(p.user.as_ref().unwrap().portrait.is_none());
    let p = PageConfig::without_oidc(None, "", "");
    assert_eq!(p.login_path, "/oidc/login");
    assert_eq!(p.logout_path, "");
    assert!(p.user.is_none());
}

#[test]
fn prod_refuses_a_dirty_source_and_names_the_count_and_paths() {
    let msg = dirty_source_refusal(Deployment::Prod, SourceState::Dirty { uncommitted: 7 }).unwrap();
    assert!(msg.contains('7'));
    assert!(msg.contains("src, Cargo.toml, build.rs"));
    assert!(dirty_source_refusal(Deployment::Dev, SourceState::Dirty { uncommitted: 3 }).is_none());
    assert!(dirty_source_refusal(Deployment::Prod, SourceState::Clean).is_none());
    assert!(dirty_source_refusal(Deployment::Prod, SourceState::Unknown).is_none());
}

#[test]
fn the_callback_decides_from_the_flow_and_the_query() {
    let f = flow(1);
    assert_eq!(callback_step(None, None, None, None), CallbackStep::Restart);
    assert_eq!(
        callback_step(Some(&f), Some("login_required"), None, None),
        CallbackStep::Interactive { next: "/somewhere".into() }
    );
    assert_eq!(
        callback_step(Some(&f), Some("access_denied"), None, None),
        CallbackStep::Failed { body: "authentication failed: access_denied".into() }
    );
    assert_eq!(
        callback_step(Some(&f), None, Some("c"), Some("other")),
        CallbackStep::BadRequest { body: "state mismatch".into() }
    );
    assert_eq!(
        callback_step(Some(&f), None, Some("c"), Some("csrf")),
        CallbackStep::Exchange { code: "c".into() }
    );
    let id = new_flow_id();
    assert_eq!(id.len(), 64);
    assert!(id.chars().all(|c| c.is_ascii_hexdigit()));
    assert_ne!(new_flow_id(), new_flow_id());
}

#[test]
fn identity_resolution_and_the_gates() {
    assert_eq!(bearer_token("Bearer  tok "), Some("tok".to_string()));
    assert_eq!(bearer_token("bearer x"), Some("x".to_string()));
    assert_eq!(bearer_token("Basic x"), None);
    assert_eq!(bearer_token("Bearer   "), None);
    let ctx = resolve_context(BearerOutcome::Valid(principal(&[GATE])), None, true, false);
    assert!(matches!(ctx, AuthContext::Authenticated { via: AuthVia::Bearer, .. }));
    assert!(matches!(service_account(&ctx), Gate::Allow(_)));
    assert_eq!(actor_of(&ctx, None), "t");
    let ctx = resolve_context(BearerOutcome::Absent, None, true, false);
    match &ctx {
        AuthContext::Anonymous { reason } => assert_eq!(reason, "no valid session"),
        _ => panic!("expected anonymous"),
    }
    let ctx = resolve_context(BearerOutcome::Absent, Some(principal(&[INDEX])), true, false);
    assert!(matches!(service_account(&ctx), Gate::Unauthorized));
    match gated_by::<TestState, HasGroup<GateGroup>>(&ctx, None, &state()) {
        Gate::Deny(d) => assert_eq!(d.gate, "gate-group (effective membership)"),
        _ => panic!("expected a denial"),
    }
    let stub = Arc::new(principal(&[]));
    assert!(matches!(
        gated_by::<TestState, HasGroup<GateGroup>>(&AuthContext::Disabled, Some(&stub), &state()),
        Gate::Allow(_)
    ));
    let _ = PhantomData::<u8>;
}

fn denial(gate: &str) -> Result<(), Denial> {
    Err(Denial { gate: gate.to_string() })
}

#[test]
fn group_check_passes_members_of_a_configured_group_only() {
    assert!(group_check(&principal(&[GATE]), Some(GATE.to_string())).is_ok());
    assert_eq!(
        group_check(&principal(&[INDEX]), Some(GATE.to_string())),
        denial("gate-group (effective membership)")
    );
    assert_eq!(group_check(&principal(&[GATE]), None), denial("-"));
}

#[test]
fn the_combinators_on_decided_results() {
    assert_eq!(either(denial("a"), denial("b")), denial("a or b"));
    assert_eq!(either(Ok(()), denial("b")), Ok(()));
    assert_eq!(either(denial("a"), Ok(())), Ok(()));
    assert_eq!(both(denial("a"), denial("b")), denial("a"));
    assert_eq!(both(Ok(()), denial("b")), denial("b"));
    assert_eq!(both(Ok(()), Ok(())), Ok(()));
    assert_eq!(negate(Ok(())), denial("must not satisfy the excluded rule"));
    assert_eq!(negate(denial("a")), Ok(()));
}

#[test]
fn de_morgan_and_double_negation_on_groups() {
    type G = HasGroup<GateGroup>;
    type I = HasGroup<IndexGroup>;
    let state = state();
    for groups in [&[][..], &[GATE][..], &[INDEX][..], &[GATE, INDEX][..]] {
        assert_eq!(
            check::<Not<Or<G, I>>>(groups, &state),
            check::<And<Not<G>, Not<I>>>(groups, &state)
        );
        assert_eq!(check::<Not<Not<G>>>(groups, &state), check::<G>(groups, &state));
    }
}

#[test]
fn admitted_by_lets_through_or_refuses_with_the_denial() {
    let p = Arc::new(principal(&[GATE]));
    match admitted_by::<HasGroup<GateGroup>>(p.clone(), Ok(())) {
        Gate::Allow(g) => assert_eq!(g.0.username, "t"),
        _ => panic!("expected to pass"),
    }
    match admitted_by::<HasGroup<GateGroup>>(p, denial("x")) {
        Gate::Deny(d) => assert_eq!(d.gate, "x"),
        _ => panic!("expected a denial"),
    }
}

#[test]
fn discovery_refuses_unchecked_certificates_under_prod_only() {
    let mut c = oidc();
    c.danger_accept_invalid_certs = true;
    c.deployment = Deployment::Dev;
    assert!(discovery_allowed(&c).is_ok());
    c.deployment = Deployment::Prod;
    match discovery_allowed(&c) {
        Err(OidcError::Config(m)) => assert_eq!(m, DANGER_REFUSAL),
        _ => panic!("expected a config refusal"),
    }
    c.danger_accept_invalid_certs = false;
    assert!(discovery_allowed(&c).is_ok());
}

#[test]
fn a_flow_store_replaces_only_the_flows() {
    let state = OidcState { client: Arc::new(1u8), store: Arc::new(2u16), flows: Arc::new(3u32) };
    let state = state.with_flow_store("shared");
    assert_eq!(*state.client, 1);
    assert_eq!(*state.store, 2);
    assert_eq!(*state.flows, "shared");
}

#[test]
fn retries_only_an_unanswered_call_within_budget() {
    assert!(retry_again(&Upstream::Unreachable("timeout".into()), false));
    assert!(!retry_again(&Upstream::Unreachable("timeout".into()), true));
    assert!(!retry_again(&Upstream::Rejected("no".into()), false));
}

#[test]
fn a_session_resolves_refreshes_or_ends() {
    let stored = Session { access_token: "at".into(), refresh_token: Some("rt".into()), created: 5 };
    let state = match resolve_start(stored.clone()) {
        Step::Identify(t, s) => {
            assert_eq!(t, "at");
            s
        },
        _ => panic!("expected to identify"),
    };
    match resolve_step(state.clone(), Answer::Identified(Ok(principal(&[])))) {
        Step::Accept(p, s) => {
            assert_eq!(p.username, "t");
            assert_eq!(s.access_token, "at");
        },
        _ => panic!("expected to accept"),
    }
    match resolve_step(state.clone(), Answer::Identified(Err(Upstream::Unreachable("down".into())))) {
        Step::End { reason, unreachable } => {
            assert_eq!(reason, "down");
            assert!(unreachable);
        },
        _ => panic!("expected to end"),
    }
    let refreshing = match resolve_step(state, Answer::Identified(Err(Upstream::Rejected("expired".into())))) {
        Step::Refresh(t, s) => {
            assert_eq!(t, "rt");
            s
        },
        _ => panic!("expected to refresh"),
    };
    match resolve_step(refreshing.clone(), Answer::Traded(None)) {
        Step::End { reason, unreachable } => {
            assert_eq!(reason, "expired");
            assert!(!unreachable);
        },
        _ => panic!("expected to end"),
    }
    let refreshed = match resolve_step(refreshing, Answer::Traded(Some(("at2".into(), None)))) {
        Step::Replace(s, next) => {
            assert_eq!(s.access_token, "at2");
            assert_eq!(s.refresh_token, None);
            assert_eq!(s.created, 5);
            next
        },
        _ => panic!("expected to replace"),
    };
    match resolve_step(refreshed.clone(), Answer::Identified(Err(Upstream::Unreachable("down".into())))) {
        Step::End { reason, unreachable } => {
            assert_eq!(reason, "expired");
            assert!(!unreachable);
        },
        _ => panic!("expected to end"),
    }
    assert!(matches!(
        resolve_step(refreshed, Answer::Identified(Ok(principal(&[])))),
        Step::Accept(_, Session { created: 5, .. })
    ));
    let no_refresh = Resolving::Stored(Session { access_token: "a".into(), refresh_token: None, created: 0 });
    assert!(matches!(
        resolve_step(no_refresh, Answer::Identified(Err(Upstream::Rejected("r".into())))),
        Step::End { unreachable: false, .. }
    ));
}

#[test]
fn auth_combinator_truth_table() {
    let state = state();
    type G = HasGroup<GateGroup>;
    type I = HasGroup<IndexGroup>;
    assert!(check::<Or<G, I>>(&[GATE], &state));
    assert!(check::<Or<G, I>>(&[INDEX], &state));
    assert!(check::<Or<G, I>>(&[GATE, INDEX], &state));
    assert!(!check::<Or<G, I>>(&["some-other-group"], &state));
    assert!(check::<And<G, I>>(&[GATE, INDEX], &state));
    assert!(!check::<And<G, I>>(&[GATE], &state));
    assert!(!check::<And<G, I>>(&[INDEX], &state));
    assert!(check::<Not<G>>(&[INDEX], &state));
    assert!(!check::<Not<G>>(&[GATE], &state));
}

#[test]
fn auth_or_denial_names_both_required_groups() {
    let denial = <Or<HasGroup<GateGroup>, HasGroup<IndexGroup>>>::check(&principal(&[]), &state())
        .expect_err("no group -> denied");
    assert!(denial.gate.contains(GATE), "{}", denial.gate);
    assert!(denial.gate.contains(INDEX), "{}", denial.gate);
    assert!(denial.gate.contains(" or "), "{}", denial.gate);
}

#[test]
fn defaults_are_safe_no_refresh_but_request_effective_groups() {
    let c = OidcConfig::new(
        Url::parse("https://auth.dev.local/application/o/x/").unwrap(),
        "x",
        Url::parse("https://x.dev.local/oidc/callback").unwrap(),
        "test_session",
    );
    assert!(!c.scopes.iter().any(|s| s == "offline_access"));
    assert!(c.scopes.iter().any(|s| s == "effective_groups"));
    assert!(c.cookie_secure);
    assert!(!c.danger_accept_invalid_certs);
}

#[test]
fn request_refresh_tokens_opt_in_adds_offline_access_once() {
    let c = OidcConfig::new(
        Url::parse("https://auth.dev.local/application/o/x/").unwrap(),
        "x",
        Url::parse("https://x.dev.local/oidc/callback").unwrap(),
        "test_session",
    )
    .request_refresh_tokens()
    .request_refresh_tokens();
    assert_eq!(c.scopes.iter().filter(|s| *s == "offline_access").count(), 1);
}

#[test]
fn gate_passes_on_membership_and_denies_otherwise() {
    let gate = "editors";
    assert!(principal(&["viewers", gate]).in_group(gate));
    assert!(principal(&[gate]).require_group(gate).is_ok());
    assert!(principal(&["viewers"]).require_group(gate).is_err());
    assert!(principal(&[]).require_group(gate).is_err());
}

#[test]
fn prod_refuses_a_dirty_crate_source_and_dev_does_not() {
    assert!(dirty_source_refusal(Deployment::Prod, SourceState::Dirty { uncommitted: 3 }).is_some());
    assert!(dirty_source_refusal(Deployment::Dev, SourceState::Dirty { uncommitted: 3 }).is_none());
}

#[test]
fn clean_and_unknown_both_boot_but_mean_different_things() {
    assert!(dirty_source_refusal(Deployment::Prod, SourceState::Clean).is_none());
    assert!(dirty_source_refusal(Deployment::Prod, SourceState::Unknown).is_none());
}

#[test]
fn the_refusal_reports_how_many_files_are_uncommitted() {
    let msg = dirty_source_refusal(Deployment::Prod, SourceState::Dirty { uncommitted: 7 }).expect("refusal");
    assert!(msg.contains('7'), "refusal must name the count: {msg}");
}

#[test]
fn the_refusal_names_every_path_that_was_actually_checked() {
    let msg = dirty_source_refusal(Deployment::Prod, SourceState::Dirty { uncommitted: 1 }).expect("refusal");
    assert!(msg.contains("src, Cargo.toml, build.rs"), "refusal must name exactly the checked paths: {msg}");
}

#[test]
fn values_that_look_relative_but_change_origin_are_refused() {
    for hostile in [
        "//evil.example/x",
        "/\\evil.example/x",
        "/\t/evil.example/x",
        "/\r/evil.example/x",
        "/\n/evil.example/x",
        "/..//evil.example",
        "https://evil.example",
        "http://evil.example",
        "\\/evil.example/x",
    ] {
        assert_eq!(safe_next(Some(hostile)), "/", "next={hostile:?} must not survive the guard");
    }
}

#[test]
fn ordinary_same_origin_targets_survive_intact() {
    assert_eq!(safe_next(Some("/me")), "/me");
    assert_eq!(safe_next(Some("/a/b?x=1&y=2")), "/a/b?x=1&y=2");
    assert_eq!(safe_next(Some("/a#frag")), "/a#frag");
    assert_eq!(safe_next(None), "/");
    assert_eq!(safe_next(Some("")), "/");
    assert_eq!(safe_next(Some("relative/no/slash")), "/");
}

#[test]
fn the_cookie_value_is_opaque_and_reveals_no_flow_data() {
    let id = new_flow_id();
    assert_eq!(id.len(), 64, "two v4 UUIDs, simple form: {id}");
    assert!(id.chars().all(|c| c.is_ascii_hexdigit()), "id must be opaque hex, nothing decodable: {id}");
    assert_ne!(new_flow_id(), new_flow_id(), "ids must not repeat");
}

const NOW: u64 = 1_000_000_000_000_000_000;
const SECOND: u64 = 1_000_000_000;

#[test]
fn roundtrip_and_remove() {
    let mut s = MemoryStore::default();
    s.put("a".into(), session(NOW), NOW);
    assert!(s.get("a", NOW).is_some());
    s.remove("a");
    assert!(s.get("a", NOW).is_none());
}

#[test]
fn flow_roundtrip_and_remove() {
    let mut s = MemoryFlowStore::default();
    s.put("f".into(), flow(NOW), NOW);
    assert_eq!(s.get("f", NOW).expect("stored").next, "/somewhere");
    s.remove("f");
    assert!(s.get("f", NOW).is_none(), "a consumed flow must not be reusable");
}

#[test]
fn abandoned_flows_expire() {
    let mut s = MemoryFlowStore::with_max_age(600 * SECOND);
    s.put("stale".into(), flow(NOW - 1200 * SECOND), NOW);
    s.put("live".into(), flow(NOW), NOW);
    assert!(s.get("stale", NOW).is_none(), "an abandoned login must not stay resumable forever");
    assert!(s.get("live", NOW).is_some());
}

#[test]
fn sweep_drops_sessions_older_than_max_age() {
    let mut s = MemoryStore::with_max_age(60 * SECOND);
    s.put("old".into(), session(NOW - 120 * SECOND), NOW);
    s.put("new".into(), session(NOW), NOW);
    assert!(s.get("old", NOW).is_none(), "expired session must be swept");
    assert!(s.get("new", NOW).is_some());
}

#[test]
fn an_entry_that_expires_between_put_and_get_is_gone_without_a_sweep() {
    let mut s = MemoryStore::with_max_age(1_000_000);
    s.put("a".into(), session(NOW), NOW);
    assert!(s.get("a", NOW + 5_000_000).is_none());
}

struct NoFiles;

impl ConfigFiles for NoFiles {
    fn read(&self, _path: &str) -> FileRead {
        FileRead::Failed("No such file or directory (os error 2)".to_string())
    }
}

#[derive(Debug)]
struct Demo {
    oidc: OidcSection,
    deployment: Deployment,
}

impl Config for Demo {
    fn schema(prefix: &Path) -> Vec<Field> {
        let mut out = OidcSection::schema(&prefix.child("oidc"));
        out.push(Field {
            path: prefix.child("deployment"),
            help: common_rust::config::deployment::DEPLOYMENT_HELP.to_string(),
            presence: Presence::Required,
            class: Class::Neutral,
            secret: false,
            kind: Kind::Text,
            env: Some("DEPLOYMENT_TYPE".to_string()),
            flag: None,
        });
        out
    }

    fn from_values(values: &Values, prefix: &Path) -> Result<Self, Refusal> {
        Ok(Demo {
            oidc: OidcSection::from_values(values, &prefix.child("oidc"))?,
            deployment: values.leaf::<Deployment>(
                &prefix.child("deployment"),
                Some(common_rust::config::deployment::DEPLOYMENT_ACCEPTED),
            )?,
        })
    }
}

impl Root for Demo {
    fn app() -> &'static str {
        "DEMO"
    }

    fn bin() -> &'static str {
        "demo"
    }

    fn deployment(&self) -> Deployment {
        self.deployment
    }
}

fn owned_env(env: &[(&str, &str)]) -> Vec<(String, String)> {
    env.iter().map(|(k, v)| (k.to_string(), v.to_string())).collect()
}

fn load_demo(env: &[(&str, &str)]) -> Result<Demo, Refusal> {
    match load_from::<Demo, NoFiles>(&[], &owned_env(env), &NoFiles)? {
        Outcome::Config(demo) => Ok(demo),
        _ => panic!("expected a config"),
    }
}

const REQUIRED: [(&str, &str); 5] = [
    ("DEPLOYMENT_TYPE", "dev"),
    ("DEMO_OIDC__ISSUER", "https://auth.dev.local/application/o/x/"),
    ("DEMO_OIDC__CLIENT_ID", "x"),
    ("DEMO_OIDC__REDIRECT_URL", "https://x.dev.local/oidc/callback"),
    ("DEMO_OIDC__COOKIE_NAME", "x_session"),
];

#[test]
fn the_section_spells_every_value_under_the_oidc_table() {
    let spelled: Vec<(String, String)> =
        OidcSection::schema(&Path::root().child("oidc")).iter().map(|f| (f.env("DEMO"), f.toml())).collect();
    assert_eq!(
        spelled,
        [
            ("DEMO_OIDC__ISSUER", "oidc.issuer"),
            ("DEMO_OIDC__BACKCHANNEL", "oidc.backchannel"),
            ("DEMO_OIDC__CLIENT_ID", "oidc.client_id"),
            ("DEMO_OIDC__CLIENT_SECRET", "oidc.client_secret"),
            ("DEMO_OIDC__REDIRECT_URL", "oidc.redirect_url"),
            ("DEMO_OIDC__COOKIE_NAME", "oidc.cookie_name"),
            ("DEMO_OIDC__COOKIE_SECURE", "oidc.cookie_secure"),
            ("DEMO_OIDC__DANGER_ACCEPT_INVALID_CERTS", "oidc.danger_accept_invalid_certs"),
            ("DEMO_OIDC__REFRESH_TOKENS", "oidc.refresh_tokens"),
        ]
        .map(|(a, b)| (a.to_string(), b.to_string()))
    );
}

#[test]
fn the_minimal_section_is_a_public_pkce_client_with_the_crate_defaults() {
    let demo = load_demo(&REQUIRED).unwrap();
    let config = demo.oidc.to_config(Deployment::Prod);
    assert_eq!(config.client_id, "x");
    assert_eq!(config.cookie_name, "x_session");
    assert!(config.backchannel.is_none());
    assert_eq!(config.client_secret, None);
    assert!(config.cookie_secure);
    assert!(!config.danger_accept_invalid_certs);
    assert!(!config.scopes.iter().any(|s| s == "offline_access"));
    assert_eq!(config.deployment, Deployment::Prod);
    assert_eq!(config.login_path, "/oidc/login");
}

#[test]
fn every_optional_value_reaches_the_config() {
    let mut env = REQUIRED.to_vec();
    env.extend([
        ("DEMO_OIDC__BACKCHANNEL", "http://127.0.0.1:8000"),
        ("DEMO_OIDC__CLIENT_SECRET", "s3cret"),
        ("DEMO_OIDC__COOKIE_SECURE", "false"),
        ("DEMO_OIDC__DANGER_ACCEPT_INVALID_CERTS", "1"),
        ("DEMO_OIDC__REFRESH_TOKENS", "yes"),
    ]);
    let config = load_demo(&env).unwrap().oidc.to_config(Deployment::Dev);
    assert_eq!(config.backchannel.as_ref().map(Url::as_str), Some("http://127.0.0.1:8000/"));
    assert_eq!(config.client_secret.as_deref(), Some("s3cret"));
    assert!(!config.cookie_secure);
    assert!(config.danger_accept_invalid_certs);
    assert!(config.scopes.iter().any(|s| s == "offline_access"));
}

#[test]
fn a_malformed_issuer_refuses_naming_the_variable() {
    let mut env = REQUIRED.to_vec();
    env[1] = ("DEMO_OIDC__ISSUER", "not a url");
    let refusal = load_demo(&env).unwrap_err();
    assert_eq!(refusal.variable, "DEMO_OIDC__ISSUER");
    assert_eq!(refusal.value, "not a url");
}

#[test]
fn the_secret_is_masked_in_a_wrong_type_refusal_and_print_config() {
    let mut env = REQUIRED.to_vec();
    env.push(("DEMO_OIDC__CLIENT_SECRET", "hunter2"));
    let out = match load_from::<Demo, NoFiles>(&["--print-config".to_string()], &owned_env(&env), &NoFiles) {
        Ok(Outcome::PrintConfig(text)) => text,
        _ => panic!("expected print-config text"),
    };
    assert!(!out.contains("hunter2"), "{out}");
    assert!(out.contains("oidc.client_secret"), "{out}");
}

#[test]
fn swap_origin_keeps_path_and_query() {
    let u = Url::parse("https://auth.dev.local/application/o/token/?a=1").unwrap();
    let b = Url::parse("http://server:9000").unwrap();
    assert_eq!(
        OidcConfig::swap_origin(&u, &b).expect("both are http(s) URLs").as_str(),
        "http://server:9000/application/o/token/?a=1"
    );
}

#[test]
fn an_escalated_callback_forgets_the_flow_and_marks_the_new_login_interactive() {
    let f = flow(1);
    let step = callback_step(Some(&f), Some("login_required"), None, None);
    assert!(step.forgets_flow());
    assert!(step.clears_flow_cookie());
    assert_eq!(
        step.login(),
        Some(LoginStart { next: "/somewhere".into(), silent: false, interactive_tried: true })
    );
    let restart = callback_step(None, None, None, None);
    assert!(!restart.forgets_flow());
    assert!(!restart.clears_flow_cookie());
    assert_eq!(restart.login(), Some(LoginStart { next: "/".into(), silent: true, interactive_tried: false }));
    let failed = callback_step(Some(&f), Some("access_denied"), None, None);
    assert!(failed.forgets_flow() && failed.clears_flow_cookie());
    assert_eq!(failed.login(), None);
    let exchange = callback_step(Some(&f), None, Some("c"), Some("csrf"));
    assert!(!exchange.forgets_flow() && exchange.clears_flow_cookie());
    let mismatch = callback_step(Some(&f), None, Some("c"), Some("other"));
    assert!(!mismatch.forgets_flow() && !mismatch.clears_flow_cookie());
}
