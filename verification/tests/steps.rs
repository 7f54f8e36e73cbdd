use qtools::agent::types::StreamEvent;
use qtools::commands::agent::chat::{error_event, require_conversation, tool_call_events};
use qtools::commands::canvas::commands::collect_assignments;
use qtools::commands::canvas::types::CanvasAssignment;
use qtools::error::AppError;
use qtools::memory::alias::alias_edge;
use qtools::memory::boot::{glossary_rows_from, index_rows_from, recent_rows_from};
use qtools::memory::db::{init_db, Db, SqlValue};
use qtools::memory::glossary::split_by_changes;
use qtools::memory::models::Memory;
use qtools::memory::read::{active_or_missing, read_memory};
use qtools::memory::search::{search_limit, search_results_from};
use qtools::memory::tools::tool_call_record;
use qtools::memory::write::{
    create_memory, deletion_refusal, edge_update, next_version, subtree_prefix,
};
use rusqlite::Connection;

fn t(s: &str) -> SqlValue {
    SqlValue::Text(s.to_string())
}

fn memory(id: i64, content: &str) -> Memory {
    Memory {
        id,
        node_uuid: Some("n".to_string()),
        content: content.to_string(),
        deprecated: false,
        migrated_to: None,
        created_at: "now".to_string(),
    }
}

#[test]
fn deletion_is_refused_only_for_an_only_route_with_children() {
    match deletion_refusal("core://a", 2, 1) {
        Some(AppError::Internal(m)) => {
            assert_eq!(m, "Cannot delete core://a: has 2 children that would become orphaned")
        }
        other => panic!("unexpected {other:?}"),
    }
    assert!(deletion_refusal("core://a", 2, 0).is_some());
    assert!(deletion_refusal("core://a", 2, 2).is_none());
    assert!(deletion_refusal("core://a", 0, 1).is_none());
    assert_eq!(subtree_prefix("a/b"), "a/b/");
}

#[test]
fn edge_updates_follow_the_given_metadata() {
    let (sql, params, ctx) = edge_update(Some(3), Some("when"), 7).unwrap();
    assert_eq!(sql, "UPDATE edges SET priority = ?1, disclosure = ?2 WHERE id = ?3");
    assert_eq!(params, vec![SqlValue::Integer(3), t("when"), SqlValue::Integer(7)]);
    assert_eq!(ctx, "Failed to update edge");
    let (sql, params, ctx) = edge_update(None, Some("when"), 7).unwrap();
    assert_eq!(sql, "UPDATE edges SET disclosure = ?1 WHERE id = ?2");
    assert_eq!(params, vec![t("when"), SqlValue::Integer(7)]);
    assert_eq!(ctx, "Failed to update disclosure");
    assert!(edge_update(None, None, 7).is_none());
}

#[test]
fn next_version_edits_the_active_memory() {
    let (c, id) = next_version("core://a", Some(memory(4, "one two")), Some("two"), Some("2"), None)
        .unwrap();
    assert_eq!(c, "one 2");
    assert_eq!(id, 4);
    let (c, _) = next_version("core://a", Some(memory(4, "one")), None, None, Some("more")).unwrap();
    assert_eq!(c, "one\nmore");
    match next_version("core://a", None, None, None, Some("x")) {
        Err(AppError::Internal(m)) => assert_eq!(m, "No active memory for core://a"),
        other => panic!("unexpected {other:?}"),
    }
    assert!(next_version("core://a", Some(memory(4, "x x")), Some("x"), Some("y"), None).is_err());
    match active_or_missing("core://b", None) {
        Err(AppError::Internal(m)) => assert_eq!(m, "No active memory for core://b"),
        other => panic!("unexpected {other:?}"),
    }
    assert_eq!(active_or_missing("core://b", Some(memory(1, "c"))).unwrap().id, 1);
}

#[test]
fn keywords_are_split_by_changed_rows() {
    let kws = vec!["a".to_string(), "b".to_string(), "c".to_string()];
    let (changed, unchanged) = split_by_changes(&kws, &vec![1, 0, 1]);
    assert_eq!(changed, vec!["a".to_string(), "c".to_string()]);
    assert_eq!(unchanged, vec!["b".to_string()]);
}

#[test]
fn alias_edges_are_refused_on_cycles() {
    let (p, t, name) = alias_edge("parent", "target", "x/y/leaf", false).unwrap();
    assert_eq!((p.as_str(), t.as_str(), name.as_str()), ("parent", "target", "leaf"));
    match alias_edge("parent", "target", "x", true) {
        Err(AppError::Internal(m)) => assert_eq!(m, "Cannot create alias: would create a cycle"),
        other => panic!("unexpected {other:?}"),
    }
    assert!(require_conversation(true, "c").is_ok());
    assert_eq!(
        require_conversation(false, "c"),
        Err(AppError::ConversationNotFound("c".to_string()))
    );
}

#[test]
fn listings_keep_the_filter_and_the_limit() {
    let row = |d: &str| vec![t(d), t("p"), t("n"), SqlValue::Integer(0), SqlValue::Null];
    let rows = vec![row("core"), row("notes"), row("core")];
    assert_eq!(index_rows_from(&rows, Some("core")).len(), 2);
    assert_eq!(index_rows_from(&rows, None).len(), 3);

    let recent = |p: &str| vec![t("core"), t(p), SqlValue::Integer(1), SqlValue::Null, t("now")];
    let entries = recent_rows_from(&vec![recent("a"), recent("b"), recent("c")], 2);
    assert_eq!(entries.len(), 2);
    assert_eq!(entries[1].path, "b");

    let search = |u: &str| vec![t(u), SqlValue::Integer(0), SqlValue::Null, t("snip")];
    assert_eq!(search_results_from(&vec![search("a"), search("b")], 1).len(), 1);
    assert_eq!(search_limit(Some(-5)), 0);
    assert_eq!(search_limit(Some(500)), 100);
    assert_eq!(search_limit(None), 10);

    let g = glossary_rows_from(&vec![vec![t("kw"), t("core"), t("a")]]);
    assert_eq!(g[0].keyword, "kw");
}

#[test]
fn index_filter_is_bound_not_pasted() {
    let raw = Connection::open_in_memory().unwrap();
    let conn = &mut Db::new(&raw);
    init_db(conn).unwrap();
    create_memory(conn, "core://", "x", 0, Some("a"), None).unwrap();
    let out = read_memory(conn, "system://index/x' OR '1'='1").unwrap();
    assert!(!out.contains("core://a"));
    let out = read_memory(conn, "system://index/core").unwrap();
    assert!(out.contains("core://a"));
}

#[test]
fn turn_events_report_calls_and_errors() {
    let calls = vec![tool_call_record("read_memory", "core://a", "ok")];
    let events = tool_call_events(&calls);
    assert_eq!(
        events,
        vec![StreamEvent::ToolCall {
            name: "read_memory".to_string(),
            args: "core://a".to_string(),
            result: "ok".to_string(),
        }]
    );
    assert_eq!(
        error_event(&AppError::Provider("down".to_string())),
        StreamEvent::Error { message: "Provider error: down".to_string() }
    );
}

fn assignment(id: i64) -> CanvasAssignment {
    CanvasAssignment {
        id,
        course_id: 1,
        course_name: "c".to_string(),
        name: "a".to_string(),
        due_at: None,
        points_possible_bits: None,
        html_url: String::new(),
        submission_types: vec![],
        has_submitted_submissions: false,
        is_quiz: false,
        manually_completed: false,
    }
}

#[test]
fn failed_courses_contribute_no_assignments() {
    let all = collect_assignments(vec![
        Ok(vec![assignment(1), assignment(2)]),
        Err(AppError::Canvas("x".to_string())),
        Ok(vec![assignment(3)]),
    ]);
    let ids: Vec<i64> = all.iter().map(|a| a.id).collect();
    assert_eq!(ids, vec![1, 2, 3]);
}

#[test]
fn ancestry_follows_every_parent() {
    let raw = Connection::open_in_memory().unwrap();
    let conn = &mut Db::new(&raw);
    init_db(conn).unwrap();
    create_memory(conn, "core://", "a", 0, Some("a"), None).unwrap();
    create_memory(conn, "core://", "b", 0, Some("b"), None).unwrap();
    qtools::memory::alias::add_alias(conn, "core://b/x", "core://a", 0, None).unwrap();
    let (_, a) = qtools::memory::graph::resolve_path(conn, "core", "a").unwrap();
    let (_, b) = qtools::memory::graph::resolve_path(conn, "core", "b").unwrap();
    assert!(qtools::memory::graph::is_ancestor(conn, &a, &b).unwrap());
    assert!(!qtools::memory::graph::is_ancestor(conn, &b, &a).unwrap());
    match qtools::memory::alias::add_alias(conn, "core://a/y", "core://b", 0, None) {
        Err(AppError::Internal(m)) => assert_eq!(m, "Cannot create alias: would create a cycle"),
        other => panic!("unexpected {other:?}"),
    }
}
