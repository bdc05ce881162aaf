use sidecar_core::config::{decide, merge, sync, ConfigDocument, Entry, ExtraField, Origin, SyncAction};
use sidecar_core::version::SemVer;

fn entry(name: &str, origin: Origin, body: &str) -> Entry {
    Entry { name: name.to_string(), origin, body: body.to_string() }
}

fn doc(sync: Option<&str>, version: Option<&str>, entries: Vec<Entry>) -> ConfigDocument {
    ConfigDocument {
        format_version: version.map(|s| s.to_string()),
        sync_version: sync.map(|s| s.to_string()),
        entries,
        extra: Vec::new(),
    }
}

fn names(d: &ConfigDocument) -> Vec<(String, Origin, String)> {
    d.entries.iter().map(|e| (e.name.clone(), e.origin, e.body.clone())).collect()
}

#[test]
fn newer_format_version_merges_system_entries() {
    let template = doc(
        Some("1.0.0"),
        Some("2.0.0"),
        vec![entry("a", Origin::System, r#"{"id":"a","origin":"system"}"#)],
    );
    let user = doc(
        Some("1.0.0"),
        Some("1.0.0"),
        vec![
            entry("a", Origin::System, r#"{"id":"a","origin":"system","edited":true}"#),
            entry("b", Origin::User, r#"{"id":"b","origin":"user"}"#),
        ],
    );
    let (action, out) = sync(&template, &user);
    assert_eq!(action, SyncAction::Merge);
    assert_eq!(
        names(&out),
        vec![
            ("a".to_string(), Origin::System, r#"{"id":"a","origin":"system"}"#.to_string()),
            ("b".to_string(), Origin::User, r#"{"id":"b","origin":"user"}"#.to_string()),
        ]
    );
    assert_eq!(out.format_version.as_deref(), Some("2.0.0"));
    assert_eq!(out.sync_version.as_deref(), Some("1.0.0"));
}

#[test]
fn newer_sync_version_replaces_user_document() {
    for (tv, uv) in [("1.0.0", "3.0.0"), ("3.0.0", "1.0.0"), ("1.0.0", "1.0.0")] {
        let mut template = doc(
            Some("2.0.0"),
            Some(tv),
            vec![entry("t", Origin::System, "{}"), entry("s", Origin::User, "{\"k\":1}")],
        );
        template.extra.push(ExtraField { key: "a2aServers".to_string(), value: "{}".to_string() });
        let user = doc(
            Some("1.0.0"),
            Some(uv),
            vec![entry("u", Origin::User, "{\"mine\":true}")],
        );
        let (action, out) = sync(&template, &user);
        assert_eq!(action, SyncAction::ResetToTemplate);
        assert_eq!(names(&out), names(&template));
        assert_eq!(out.format_version, template.format_version);
        assert_eq!(out.sync_version, template.sync_version);
        assert_eq!(out.extra.len(), 1);
        assert_eq!(out.extra[0].key, "a2aServers");
    }
}

#[test]
fn no_newer_version_keeps_user_document() {
    let template = doc(Some("1.0.0"), Some("1.0.0"), vec![entry("t", Origin::System, "{}")]);
    let user = doc(
        Some("1.0.0"),
        Some("1.2.0"),
        vec![entry("x", Origin::System, "{\"old\":1}"), entry("y", Origin::User, "{}")],
    );
    let (action, out) = sync(&template, &user);
    assert_eq!(action, SyncAction::Keep);
    assert_eq!(names(&out), names(&user));
    assert_eq!(out.format_version, user.format_version);
}

#[test]
fn sync_twice_equals_sync_once() {
    let template = doc(Some("1.0.0"), Some("2.1.0"), vec![entry("a", Origin::System, "{}")]);
    let user = doc(
        None,
        Some("garbage"),
        vec![entry("z", Origin::User, "{}"), entry("a", Origin::System, "{\"x\":2}")],
    );
    let (first_action, once) = sync(&template, &user);
    assert_eq!(first_action, SyncAction::ResetToTemplate);
    let (second_action, twice) = sync(&template, &once);
    assert_eq!(second_action, SyncAction::Keep);
    assert_eq!(names(&twice), names(&once));
    assert_eq!(twice.format_version, once.format_version);

    let template = doc(None, Some("2.1.0"), vec![entry("a", Origin::System, "{}")]);
    let (a1, merged) = sync(&template, &user);
    assert_eq!(a1, SyncAction::Merge);
    let (a2, again) = sync(&template, &merged);
    assert_eq!(a2, SyncAction::Keep);
    assert_eq!(names(&again), names(&merged));
}

#[test]
fn missing_or_malformed_versions_read_as_zero() {
    assert_eq!(SemVer::read(None).text(), "0.0.0");
    assert_eq!(SemVer::read(Some("not a version")).text(), "0.0.0");
    assert_eq!(SemVer::read(Some("")).text(), "0.0.0");
    assert_eq!(SemVer::read(Some("1.2")).text(), "0.0.0");
    assert_eq!(SemVer::read(Some("1.2.3")).text(), "1.2.3");
    let template = doc(Some("bad"), None, vec![entry("a", Origin::System, "{}")]);
    let user = doc(None, Some("also bad"), vec![]);
    let (action, _) = sync(&template, &user);
    assert_eq!(action, SyncAction::Keep);
}

#[test]
fn version_order_follows_semver() {
    let v = |s: &str| SemVer::read(Some(s));
    assert!(v("1.10.0").is_newer_than(&v("1.9.0")));
    assert!(!v("1.9.0").is_newer_than(&v("1.10.0")));
    assert!(v("1.0.0").is_newer_than(&v("1.0.0-alpha")));
    assert!(!v("2.0.0").is_newer_than(&v("2.0.0")));
    assert!(v("0.0.1").is_newer_than(&SemVer::read(None)));
}

#[test]
fn malformed_template_version_merges_as_zero() {
    let template = doc(None, Some("0.0.0"), vec![entry("s", Origin::System, "{}")]);
    let user = doc(None, Some("0.0.0-rc.1"), vec![entry("u", Origin::User, "{}")]);
    let (action, out) = sync(&template, &user);
    assert_eq!(action, SyncAction::Merge);
    assert_eq!(out.format_version.as_deref(), Some("0.0.0"));
    assert_eq!(out.entries.len(), 2);
}

#[test]
fn merge_takes_extra_fields_from_template() {
    let mut template = doc(None, Some("2.0.0"), vec![]);
    template.extra.push(ExtraField { key: "a2aServers".to_string(), value: "{\"n\":1}".to_string() });
    let mut user = doc(Some("5.0.0"), Some("1.0.0"), vec![entry("u", Origin::User, "{}")]);
    user.extra.push(ExtraField { key: "a2aServers".to_string(), value: "{\"n\":0}".to_string() });
    let out = merge(&template, &user);
    assert_eq!(out.extra.len(), 1);
    assert_eq!(out.extra[0].value, "{\"n\":1}");
    assert_eq!(out.sync_version.as_deref(), Some("5.0.0"));
    assert_eq!(names(&out), vec![("u".to_string(), Origin::User, "{}".to_string())]);
}

#[test]
fn decide_orders_reset_before_merge() {
    assert_eq!(decide(true, true), SyncAction::ResetToTemplate);
    assert_eq!(decide(true, false), SyncAction::ResetToTemplate);
    assert_eq!(decide(false, true), SyncAction::Merge);
    assert_eq!(decide(false, false), SyncAction::Keep);
}

#[test]
fn origin_follows_system_tag() {
    assert_eq!(Origin::from_tag(Some("builtIn"), "builtIn"), Origin::System);
    assert_eq!(Origin::from_tag(Some("builtin"), "builtIn"), Origin::User);
    assert_eq!(Origin::from_tag(None, "default"), Origin::User);
    assert_eq!(Origin::from_tag(Some("default"), "default"), Origin::System);
}
