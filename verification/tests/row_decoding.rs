use qtools::agent::types::MessageRole;
use qtools::commands::agent::chat::message_contents;
use qtools::commands::canvas::commands::completed_ids_from_rows;
use qtools::memory::chat_store::{conversations_from_rows, messages_from_rows};
use qtools::memory::db::SqlValue;
use qtools::memory::graph::{children_from_rows, edge_from_row, memory_from_columns, visit_parents};

fn t(s: &str) -> SqlValue {
    SqlValue::Text(s.to_string())
}

fn edge_columns() -> Vec<SqlValue> {
    vec![
        SqlValue::Integer(7),
        t("parent"),
        t("child"),
        t("name"),
        SqlValue::Integer(-3),
        SqlValue::Null,
        t("2024-01-01"),
    ]
}

#[test]
fn edge_row_is_decoded_column_by_column() {
    let e = edge_from_row(&edge_columns());
    assert_eq!(e.id, 7);
    assert_eq!(e.parent_uuid, "parent");
    assert_eq!(e.child_uuid, "child");
    assert_eq!(e.name, "name");
    assert_eq!(e.priority, -3);
    assert_eq!(e.disclosure, None);
    assert_eq!(e.created_at, "2024-01-01");
}

#[test]
fn memory_columns_are_read_from_an_offset() {
    let row = vec![
        t("ignored"),
        SqlValue::Integer(11),
        t("node"),
        t("content"),
        SqlValue::Integer(1),
        SqlValue::Integer(12),
        t("then"),
    ];
    let m = memory_from_columns(&row, 1);
    assert_eq!(m.id, 11);
    assert_eq!(m.node_uuid, Some("node".to_string()));
    assert_eq!(m.content, "content");
    assert!(m.deprecated);
    assert_eq!(m.migrated_to, Some(12));
    assert_eq!(m.created_at, "then");
}

#[test]
fn children_without_memory_get_none() {
    let mut with_memory = edge_columns();
    with_memory.extend(vec![
        SqlValue::Integer(5),
        t("child"),
        t("hello"),
        SqlValue::Integer(0),
        SqlValue::Null,
        t("now"),
    ]);
    let mut without_memory = edge_columns();
    without_memory.extend(vec![
        SqlValue::Null,
        SqlValue::Null,
        SqlValue::Null,
        SqlValue::Null,
        SqlValue::Null,
        SqlValue::Null,
    ]);
    let children = children_from_rows(&vec![with_memory, without_memory], "parent");
    assert_eq!(children.len(), 2);
    let m = children[0].1.as_ref().unwrap();
    assert_eq!(m.id, 5);
    assert_eq!(m.content, "hello");
    assert!(!m.deprecated);
    assert_eq!(m.migrated_to, None);
    assert!(children[1].1.is_none());
    assert_eq!(children[1].0.name, "name");
}

#[test]
fn conversation_and_message_rows_are_decoded() {
    let convs = conversations_from_rows(&vec![vec![t("c1"), t("Title"), t("a"), t("b")]]);
    assert_eq!(convs.len(), 1);
    assert_eq!(convs[0].id, "c1");
    assert_eq!(convs[0].title, "Title");
    assert_eq!(convs[0].created_at, "a");
    assert_eq!(convs[0].updated_at, "b");

    let msgs = messages_from_rows(&vec![
        vec![t("m1"), t("c1"), t("user"), t("hi"), t("t1")],
        vec![t("m2"), t("c1"), t("assistant"), t("hello"), t("t2")],
    ]);
    assert_eq!(msgs.len(), 2);
    assert_eq!(msgs[0].role, MessageRole::User);
    assert_eq!(msgs[1].role, MessageRole::Assistant);
    assert_eq!(msgs[1].content, "hello");
    assert_eq!(message_contents(&msgs), vec!["hi".to_string(), "hello".to_string()]);
}

#[test]
fn children_of_another_parent_are_left_out() {
    let mut row = edge_columns();
    row.extend(vec![SqlValue::Null, SqlValue::Null, SqlValue::Null, SqlValue::Null, SqlValue::Null, SqlValue::Null]);
    assert!(children_from_rows(&vec![row.clone()], "someone else").is_empty());
    assert_eq!(children_from_rows(&vec![row], "parent").len(), 1);
}

#[test]
fn walk_step_finds_target_or_queues_new_parents() {
    let root = "00000000-0000-0000-0000-000000000000";
    let mut seen = vec!["start".to_string()];
    let rows = vec![vec![t("p1")], vec![t(root)], vec![t("start")], vec![t("p2")]];
    assert!(!visit_parents(&mut seen, &rows, "target"));
    assert_eq!(seen, vec!["start".to_string(), "p1".to_string(), "p2".to_string()]);
    let mut seen = vec!["start".to_string()];
    let rows = vec![vec![t("p1")], vec![t("target")], vec![t("p2")]];
    assert!(visit_parents(&mut seen, &rows, "target"));
    assert_eq!(seen, vec!["start".to_string(), "p1".to_string()]);
}

#[test]
fn unreadable_completion_rows_are_skipped() {
    let rows = vec![Some(vec![SqlValue::Integer(3)]), None, Some(vec![SqlValue::Integer(9)])];
    assert_eq!(completed_ids_from_rows(&rows), vec![3, 9]);
}
