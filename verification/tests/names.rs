use common_rust::names::apply::{rename_failure, rename_statements};
use common_rust::names::feed::{NameDeltas, NameFeed, Rename};
use common_rust::names::sync::{overlapped, since_for};
use common_rust::names::target::{name_targets_of, NameColumns, NameKind, NameTarget};

struct FormRow;

impl NameColumns for FormRow {
    fn name_targets() -> Vec<NameTarget> {
        name_targets_of("forms", &[("owner", Some(NameKind::User)), ("source_json", None)])
    }
}

struct AclRow;

impl NameColumns for AclRow {
    fn name_targets() -> Vec<NameTarget> {
        name_targets_of("acl", &[("member", Some(NameKind::User)), ("team", Some(NameKind::Group))])
    }
}

#[test]
fn derive_emits_only_marked_columns_with_the_table_and_kind() {
    assert_eq!(
        FormRow::name_targets(),
        &[NameTarget { table: "forms", column: "owner", kind: NameKind::User }]
    );
    assert_eq!(
        AclRow::name_targets(),
        &[
            NameTarget { table: "acl", column: "member", kind: NameKind::User },
            NameTarget { table: "acl", column: "team", kind: NameKind::Group },
        ]
    );
}

fn deltas(users: &[(&str, &str)], groups: &[(&str, &str)]) -> NameDeltas {
    let map = |pairs: &[(&str, &str)]| {
        pairs.iter().map(|(o, c)| Rename { old: (*o).into(), current: (*c).into() }).collect()
    };
    NameDeltas { now: "cursor".into(), users: map(users), groups: map(groups) }
}

#[test]
fn each_target_is_rewritten_against_its_own_kind() {
    let d = deltas(&[("bob", "bob2")], &[("dev", "devs")]);
    let st = rename_statements(&AclRow::name_targets(), &d);
    assert_eq!(st.len(), 2);
    assert_eq!(st[0].sql, "UPDATE acl SET member = ? WHERE member = ?");
    assert_eq!((st[0].current.as_str(), st[0].old.as_str()), ("bob2", "bob"));
    assert_eq!(st[1].sql, "UPDATE acl SET team = ? WHERE team = ?");
    assert_eq!((st[1].current.as_str(), st[1].old.as_str()), ("devs", "dev"));
    assert!(rename_statements(&FormRow::name_targets(), &deltas(&[], &[])).is_empty());
    assert!(deltas(&[], &[]).is_empty());
    assert_eq!(rename_failure(&st[0], "locked"), "renaming acl.member bob -> bob2: locked");
}

#[test]
fn the_feed_request_trims_the_base_and_carries_the_cursor() {
    let feed = NameFeed::new("http://127.0.0.1:8000//", "tok");
    let req = feed.request(Some("c1"));
    assert_eq!(req.url, "http://127.0.0.1:8000/api/v3/forest_school/name_changes/");
    assert_eq!(req.authorization, "Bearer tok");
    assert_eq!(req.since.as_deref(), Some("c1"));
    assert_eq!(feed.request(None).since, None);
}

#[test]
fn overlap_moves_the_cursor_back_and_keeps_rfc3339() {
    assert_eq!(overlapped("2026-09-24T12:05:00Z").as_deref(), Some("2026-09-24T12:00:00Z"));
    assert_eq!(
        overlapped("2026-09-24T00:02:30.123456Z").as_deref(),
        Some("2026-09-23T23:57:30.123456Z")
    );
    assert_eq!(overlapped("not a timestamp"), None);
    assert_eq!(overlapped(""), None);
    assert_eq!(since_for(Some("not a timestamp")).as_deref(), Some("not a timestamp"));
    assert_eq!(since_for(None), None);
}
