use supabase_realtime::presence::{
    Presence, PresenceMeta, RawPresenceDiff, RawPresenceEntries, RawPresenceMeta, RawPresenceState,
};

fn has_key(state: &[(String, Vec<PresenceMeta>)], key: &str) -> bool {
    state.iter().any(|(k, _)| k == key)
}

fn metas_of<'a>(state: &'a [(String, Vec<PresenceMeta>)], key: &str) -> Vec<&'a str> {
    state
        .iter()
        .filter(|(k, _)| k == key)
        .flat_map(|(_, m)| m.iter().map(|x| x.presence_ref.as_str()))
        .collect()
}

fn raw(key: &str, refs: &[&str]) -> (String, RawPresenceEntries) {
    (
        key.to_string(),
        RawPresenceEntries {
            metas: refs
                .iter()
                .map(|r| RawPresenceMeta {
                    phx_ref: Some(r.to_string()),
                    phx_ref_prev: None,
                    data: Vec::new(),
                })
                .collect(),
        },
    )
}

#[test]
fn test_new_presence_is_empty() {
    let presence = Presence::default();
    assert!(presence.state().is_empty());
    assert!(presence.list().is_empty());
}

#[test]
fn test_sync_state_detects_new_user() {
    let mut presence = Presence::new();

    let new_state: RawPresenceState = vec![(
        "user-1".to_string(),
        RawPresenceEntries {
            metas: vec![RawPresenceMeta {
                phx_ref: Some("join-ref".to_string()),
                phx_ref_prev: None,
                data: Vec::new(),
            }],
        },
    )];

    let changes = presence.sync_state(new_state, "join-ref".to_string());

    assert_eq!(changes.joins.len(), 1);
    assert!(has_key(&changes.joins, "user-1"));
    assert_eq!(changes.leaves.len(), 0);

    assert_eq!(presence.state().len(), 1);
    assert!(has_key(presence.state(), "user-1"));
}

#[test]
fn test_pending_sync_state() {
    let mut presence = Presence::new();

    assert!(presence.in_pending_sync_state(Some("ref1")));

    let raw_state = Vec::new();
    presence.sync_state(raw_state, "ref1".to_string());

    assert!(!presence.in_pending_sync_state(Some("ref1")));
    assert!(presence.in_pending_sync_state(Some("ref2")));
}

#[test]
fn test_sync_diff() {
    let mut presence = Presence::new();

    let new_state: RawPresenceState = vec![(
        "user-1".to_string(),
        RawPresenceEntries {
            metas: vec![RawPresenceMeta {
                phx_ref: Some("join-ref".to_string()),
                phx_ref_prev: None,
                data: Vec::new(),
            }],
        },
    )];

    let diff = RawPresenceDiff {
        joins: new_state.clone(),
        leaves: Vec::new(),
    };

    let changes = presence.sync_diff(diff);

    assert_eq!(changes.joins.len(), 1);
    assert!(has_key(&changes.joins, "user-1"));
    assert_eq!(changes.leaves.len(), 0);
}

#[test]
fn test_add_pending_diff() {
    let mut presence = Presence::new();
    let diff = RawPresenceDiff {
        joins: Vec::new(),
        leaves: Vec::new(),
    };
    presence.add_pending_diff(diff);
    assert_eq!(presence.pending_diffs().len(), 1);
}

#[test]
fn resync_to_same_state_reports_nothing() {
    let mut presence = Presence::new();
    let state = vec![raw("a", &["1", "2"]), raw("b", &["3"])];
    let first = presence.sync_state(state.clone(), "j".to_string());
    assert_eq!(first.joins.len(), 2);
    let second = presence.sync_state(state, "j".to_string());
    assert!(second.joins.is_empty());
    assert!(second.leaves.is_empty());
}

#[test]
fn sync_state_reports_joins_and_leaves_by_reference() {
    let mut presence = Presence::new();
    presence.sync_state(vec![raw("a", &["1", "2"]), raw("b", &["3"])], "j".to_string());
    let changes = presence.sync_state(vec![raw("a", &["2", "4"]), raw("c", &["5"])], "j".to_string());
    assert_eq!(metas_of(&changes.joins, "a"), vec!["4"]);
    assert_eq!(metas_of(&changes.joins, "c"), vec!["5"]);
    assert!(!has_key(&changes.joins, "b"));
    assert_eq!(metas_of(&changes.leaves, "a"), vec!["1"]);
    assert_eq!(metas_of(&changes.leaves, "b"), vec!["3"]);
    assert_eq!(presence.list().len(), 2);
}

#[test]
fn missing_phx_ref_becomes_empty_reference() {
    let mut presence = Presence::new();
    let state = vec![(
        "u".to_string(),
        RawPresenceEntries {
            metas: vec![RawPresenceMeta {
                phx_ref: None,
                phx_ref_prev: Some("p".to_string()),
                data: vec![("name".to_string(), j(r#""Alice""#))],
            }],
        },
    )];
    presence.sync_state(state, "j".to_string());
    let list = presence.list();
    assert_eq!(list[0].1[0].presence_ref, "");
    assert_eq!(list[0].1[0].data[0].1, j(r#""Alice""#));
}

#[test]
fn join_then_leave_in_one_diff_leaves_no_trace() {
    let mut presence = Presence::new();
    presence.sync_state(vec![raw("a", &["1"])], "j".to_string());
    presence.sync_diff(RawPresenceDiff {
        joins: vec![raw("b", &["2", "3"])],
        leaves: vec![raw("b", &["2", "3"])],
    });
    let list = presence.list();
    assert_eq!(list.len(), 1);
    assert!(has_key(&list, "a"));
}

#[test]
fn diff_replaces_rejoined_reference_and_removes_emptied_key() {
    let mut presence = Presence::new();
    presence.sync_state(vec![raw("a", &["1", "2"]), raw("b", &["3"])], "j".to_string());
    presence.sync_diff(RawPresenceDiff {
        joins: vec![raw("a", &["2", "4"])],
        leaves: vec![raw("b", &["3"]), raw("z", &["9"])],
    });
    let list = presence.list();
    assert_eq!(metas_of(&list, "a"), vec!["1", "2", "4"]);
    assert!(!has_key(&list, "b"));
    assert!(!has_key(&list, "z"));
}

#[test]
fn flush_applies_pending_diffs_in_order() {
    let mut presence = Presence::new();
    presence.add_pending_diff(RawPresenceDiff { joins: vec![raw("a", &["1"])], leaves: Vec::new() });
    presence.add_pending_diff(RawPresenceDiff { joins: Vec::new(), leaves: vec![raw("a", &["1"])] });
    presence.add_pending_diff(RawPresenceDiff { joins: vec![raw("b", &["2"])], leaves: Vec::new() });
    let changes = presence.flush_pending_diffs();
    assert_eq!(changes.len(), 3);
    assert!(presence.pending_diffs().is_empty());
    let list = presence.list();
    assert_eq!(list.len(), 1);
    assert_eq!(metas_of(&list, "b"), vec!["2"]);
}

#[test]
fn later_duplicate_key_wins_when_reading_raw_state() {
    let mut presence = Presence::new();
    presence.sync_state(vec![raw("a", &["1"]), raw("a", &["2"])], "j".to_string());
    let list = presence.list();
    assert_eq!(list.len(), 1);
    assert_eq!(metas_of(&list, "a"), vec!["2"]);
}

fn j(text: &str) -> serde_json::Value {
    serde_json::from_str(text).unwrap()
}
