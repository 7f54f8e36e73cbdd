use qtools::memory::db::Db;
use qtools::error::AppError;
use qtools::memory::alias::add_alias;
use qtools::memory::boot::{handle_system_uri, route_system_path, SystemRoute};
use qtools::memory::db::init_db;
use qtools::memory::glossary::manage_triggers;
use qtools::memory::graph::{count_aliases, get_children, is_ancestor, resolve_path};
use qtools::memory::models::ROOT_NODE_UUID;
use qtools::memory::read::read_memory;
use qtools::memory::search::{search_memory, upsert_search_document};
use qtools::memory::write::{compute_new_content, create_memory, delete_memory, update_memory};
use rusqlite::Connection;

fn db() -> Connection {
    let conn = Connection::open_in_memory().unwrap();
    init_db(&mut Db::new(&conn)).unwrap();
    conn
}

fn internal(e: AppError) -> String {
    match e {
        AppError::Internal(m) => m,
        other => panic!("unexpected error {other:?}"),
    }
}

#[test]
fn create_then_read_gives_content_back() {
    let raw = db();
    let conn = &mut Db::new(&raw);
    let uri = create_memory(conn, "core://", "I am the agent.", 0, Some("agent"), None).unwrap();
    assert_eq!(uri, "core://agent");
    let view = read_memory(conn, "core://agent").unwrap();
    assert!(view.starts_with("MEMORY: core://agent\nMemory ID: 1 | Aliases: 1\n"));
    assert!(view.contains("\nI am the agent.\n"));
    assert!(!view.contains("--- CHILDREN ---"));
}

#[test]
fn create_without_title_uses_node_uuid() {
    let raw = db();
    let conn = &mut Db::new(&raw);
    let uri = create_memory(conn, "notes://", "x", 0, None, None).unwrap();
    assert!(uri.starts_with("notes://"));
    assert_eq!(uri.len(), "notes://".len() + 36);
}

#[test]
fn create_under_parent_and_list_children() {
    let raw = db();
    let conn = &mut Db::new(&raw);
    create_memory(conn, "core://", "parent text", 0, Some("agent"), None).unwrap();
    let child = create_memory(conn, "core://agent", "child text", 2, Some("style"), Some("when writing")).unwrap();
    assert_eq!(child, "core://agent/style");
    let view = read_memory(conn, "core://agent").unwrap();
    assert!(view.ends_with("\n--- CHILDREN ---\n- style [★2]: child text\n  disclosure: when writing\n"));
    let child_view = read_memory(conn, "core://agent/style").unwrap();
    assert!(child_view.contains("Priority: 2\nWhen to recall: when writing\n"));
}

#[test]
fn create_rejects_invalid_domain() {
    let raw = db();
    let conn = &mut Db::new(&raw);
    let e = create_memory(conn, "bogus://", "x", 0, Some("t"), None).unwrap_err();
    assert_eq!(internal(e), "Invalid domain: bogus");
}

#[test]
fn create_under_missing_parent_fails() {
    let raw = db();
    let conn = &mut Db::new(&raw);
    let e = create_memory(conn, "core://nowhere", "x", 0, Some("t"), None).unwrap_err();
    assert_eq!(internal(e), "Path not found: Error(\"Query returned no rows\")");
}

#[test]
fn child_preview_is_cut_at_eighty_chars() {
    let raw = db();
    let conn = &mut Db::new(&raw);
    create_memory(conn, "core://", "p", 0, Some("a"), None).unwrap();
    let long = "x".repeat(81);
    create_memory(conn, "core://a", &long, 0, Some("b"), None).unwrap();
    let view = read_memory(conn, "core://a").unwrap();
    assert!(view.contains(&format!("- b: {}...\n", "x".repeat(80))));
}

#[test]
fn update_patch_append_and_metadata() {
    let raw = db();
    let conn = &mut Db::new(&raw);
    create_memory(conn, "core://", "hello world", 0, Some("m"), None).unwrap();
    assert_eq!(
        update_memory(conn, "core://m", Some("world"), Some("there"), None, None, None).unwrap(),
        "Updated core://m"
    );
    assert!(read_memory(conn, "core://m").unwrap().contains("\nhello there\n"));
    update_memory(conn, "core://m", None, None, Some("more"), None, None).unwrap();
    let view = read_memory(conn, "core://m").unwrap();
    assert!(view.contains("\nhello there\nmore\n"));
    assert!(view.contains("Memory ID: 3 |"));
    assert_eq!(
        update_memory(conn, "core://m", None, None, None, Some(5), Some("d")).unwrap(),
        "Updated metadata for core://m"
    );
    assert!(read_memory(conn, "core://m").unwrap().contains("Priority: 5\nWhen to recall: d\n"));
}

#[test]
fn update_patch_errors() {
    let raw = db();
    let conn = &mut Db::new(&raw);
    create_memory(conn, "core://", "a b a", 0, Some("m"), None).unwrap();
    let e = update_memory(conn, "core://m", Some("zzz"), Some("y"), None, None, None).unwrap_err();
    assert_eq!(internal(e), "old_string not found in memory content");
    let e = update_memory(conn, "core://m", Some("a"), Some("y"), None, None, None).unwrap_err();
    assert_eq!(internal(e), "old_string found 2 times, must be unique");
}

#[test]
fn compute_new_content_cases() {
    assert_eq!(compute_new_content("abc", Some("b"), Some("XY"), None).unwrap(), Some("aXYc".to_string()));
    assert_eq!(compute_new_content("abc", None, None, Some("d")).unwrap(), Some("abc\nd".to_string()));
    assert_eq!(compute_new_content("abc", Some("b"), None, Some("d")).unwrap(), Some("abc\nd".to_string()));
    assert_eq!(compute_new_content("abc", None, None, None).unwrap(), None);
    assert_eq!(compute_new_content("", Some(""), Some("n"), None).unwrap(), Some("n".to_string()));
    let e = compute_new_content("ab", Some(""), Some("n"), None).unwrap_err();
    assert_eq!(e.message(), "old_string found 3 times, must be unique");
    let e = compute_new_content("aaa", Some("aa"), Some("n"), None);
    assert_eq!(e.unwrap(), Some("na".to_string()));
}

#[test]
fn delete_refuses_orphans_then_deletes() {
    let raw = db();
    let conn = &mut Db::new(&raw);
    create_memory(conn, "core://", "p", 0, Some("a"), None).unwrap();
    create_memory(conn, "core://a", "c", 0, Some("b"), None).unwrap();
    let e = delete_memory(conn, "core://a").unwrap_err();
    assert_eq!(internal(e), "Cannot delete core://a: has 1 children that would become orphaned");
    assert_eq!(delete_memory(conn, "core://a/b").unwrap(), "Deleted core://a/b");
    assert!(read_memory(conn, "core://a/b").is_err());
    assert_eq!(delete_memory(conn, "core://a").unwrap(), "Deleted core://a");
    let e = read_memory(conn, "core://a").unwrap_err();
    assert_eq!(internal(e), "Edge not found: Error(\"Query returned no rows\")");
}

#[test]
fn alias_shares_node_and_prevents_cycles() {
    let raw = db();
    let conn = &mut Db::new(&raw);
    create_memory(conn, "core://", "p", 0, Some("a"), None).unwrap();
    create_memory(conn, "core://a", "c", 0, Some("b"), None).unwrap();
    assert_eq!(
        add_alias(conn, "writer://b2", "core://a/b", 1, None).unwrap(),
        "Alias created: writer://b2 -> core://a/b"
    );
    let (_, uuid) = resolve_path(conn, "core", "a/b").unwrap();
    let (_, uuid2) = resolve_path(conn, "writer", "b2").unwrap();
    assert_eq!(uuid, uuid2);
    assert_eq!(count_aliases(conn, &uuid).unwrap(), 2);
    let e = add_alias(conn, "core://a/b/loop", "core://a", 0, None).unwrap_err();
    assert_eq!(internal(e), "Cannot create alias: would create a cycle");
    let e = add_alias(conn, "other://x", "core://a", 0, None).unwrap_err();
    assert_eq!(internal(e), "Invalid domain: other");
    // An edge from the same parent to the same child exists only once.
    let e = add_alias(conn, "notes://a2", "core://a", 0, None).unwrap_err();
    assert!(internal(e).starts_with("Failed to create edge: "));
    // With two paths the parent can be deleted through one of them.
    create_memory(conn, "core://", "other", 0, Some("c"), None).unwrap();
    add_alias(conn, "core://c/a2", "core://a", 0, None).unwrap();
    assert_eq!(delete_memory(conn, "core://c/a2").unwrap(), "Deleted core://c/a2");
    assert!(read_memory(conn, "core://a").is_ok());
}

#[test]
fn ancestry_checks() {
    let raw = db();
    let conn = &mut Db::new(&raw);
    create_memory(conn, "core://", "p", 0, Some("a"), None).unwrap();
    create_memory(conn, "core://a", "c", 0, Some("b"), None).unwrap();
    let (_, a) = resolve_path(conn, "core", "a").unwrap();
    let (_, b) = resolve_path(conn, "core", "a/b").unwrap();
    assert!(is_ancestor(conn, &b, &a).unwrap());
    assert!(!is_ancestor(conn, &a, &b).unwrap());
    assert!(is_ancestor(conn, &a, &a).unwrap());
    assert!(!is_ancestor(conn, ROOT_NODE_UUID, &a).unwrap());
    assert_eq!(get_children(conn, &a).unwrap().len(), 1);
}

#[test]
fn triggers_are_added_skipped_and_removed() {
    let raw = db();
    let conn = &mut Db::new(&raw);
    create_memory(conn, "core://", "p", 0, Some("a"), None).unwrap();
    let out = manage_triggers(conn, "core://a", vec!["x".into(), "y".into()], vec![]).unwrap();
    assert_eq!(out, "Triggers for core://a:\n  Added: x, y\n  Current: x, y\n");
    let out = manage_triggers(conn, "core://a", vec!["x".into()], vec!["y".into(), "z".into()]).unwrap();
    assert_eq!(out, "Triggers for core://a:\n  Already existed: x\n  Removed: y\n  Current: x\n");
    let glossary = handle_system_uri(conn, "glossary").unwrap();
    assert_eq!(glossary, "# Glossary Keywords\n\n- @x -> core://a\n");
}

#[test]
fn system_index_and_recent() {
    let raw = db();
    let conn = &mut Db::new(&raw);
    assert_eq!(handle_system_uri(conn, "index").unwrap(), "# Memory Index\n\n(no memories yet)\n");
    create_memory(conn, "core://", "p", 3, Some("a"), Some("always")).unwrap();
    create_memory(conn, "notes://", "q", 0, Some("n"), None).unwrap();
    let index = read_memory(conn, "system://index").unwrap();
    assert_eq!(
        index,
        "# Memory Index\n\n\n## core://\n- core://a [★3]  (always)\n\n## notes://\n- notes://n\n"
    );
    let only_notes = read_memory(conn, "system://index/notes").unwrap();
    assert_eq!(only_notes, "# Memory Index\n\n\n## notes://\n- notes://n\n");
    let recent = read_memory(conn, "system://recent/1").unwrap();
    assert!(recent.starts_with("# Recently Modified Memories (top 1)\n\n1. "));
    let e = read_memory(conn, "system://nothing").unwrap_err();
    assert_eq!(internal(e), "Unknown system URI: system://nothing");
}

#[test]
fn boot_reports_missing_core_memories() {
    let raw = db();
    let conn = &mut Db::new(&raw);
    let boot = read_memory(conn, "system://boot").unwrap();
    assert!(boot.starts_with("# Loaded: 0/2 memories\n\n## Failed to load:\n- core://agent: Edge not found"));
    assert!(boot.ends_with("# Core Memories\n\n---\n\n# Recently Modified Memories (top 5)\n\n(no memories yet)\n"));
    create_memory(conn, "core://", "agent text", 0, Some("agent"), None).unwrap();
    create_memory(conn, "core://", "user text", 0, Some("user"), None).unwrap();
    let boot = read_memory(conn, "system://boot").unwrap();
    assert!(boot.starts_with("# Loaded: 2/2 memories\n\n# Core Memories\n\n====="));
    assert!(boot.contains("agent text"));
    assert!(boot.contains("user text"));
}

#[test]
fn system_routes() {
    assert_eq!(route_system_path("boot"), SystemRoute::Boot);
    assert_eq!(route_system_path("index"), SystemRoute::Index);
    assert_eq!(route_system_path("index/core"), SystemRoute::IndexOf("core".to_string()));
    assert_eq!(route_system_path("glossary"), SystemRoute::Glossary);
    assert_eq!(route_system_path("recent"), SystemRoute::Recent(10));
    assert_eq!(route_system_path("recent/3"), SystemRoute::Recent(3));
    assert_eq!(route_system_path("recent/+7"), SystemRoute::Recent(7));
    assert_eq!(route_system_path("recent/500"), SystemRoute::Recent(100));
    assert_eq!(route_system_path("recent/x"), SystemRoute::Recent(10));
    assert_eq!(route_system_path("recent/99999999999999999999999"), SystemRoute::Recent(10));
    assert_eq!(route_system_path("recently"), SystemRoute::Recent(10));
    assert_eq!(route_system_path("other"), SystemRoute::Unknown);
}

#[test]
fn search_finds_indexed_documents() {
    let raw = db();
    let conn = &mut Db::new(&raw);
    let out = search_memory(conn, "apple", None, None).unwrap();
    assert_eq!(out, "# Search results for \"apple\"\n\nNo results found.\n");
    upsert_search_document(conn, "core", "fruit", "n1", 1, "an apple a day", Some("food"), 2).unwrap();
    let out = search_memory(conn, "apple", Some("core"), Some(5)).unwrap();
    assert!(out.starts_with("# Search results for \"apple\"\n\n1. core://fruit [★2]\n   disclosure: food\n   "));
    assert!(out.contains(">>>apple<<<"));
    let none = search_memory(conn, "apple", Some("notes"), None).unwrap();
    assert!(none.ends_with("No results found.\n"));
}

#[test]
fn update_links_old_version_to_new() {
    let raw = db();
    let conn = &mut Db::new(&raw);
    create_memory(conn, "core://", "first", 0, Some("m"), None).unwrap();
    update_memory(conn, "core://m", None, None, Some("second"), None, None).unwrap();
    let rows: Vec<(i64, bool, Option<i64>, String)> = raw
        .prepare("SELECT id, deprecated, migrated_to, content FROM memories ORDER BY id")
        .unwrap()
        .query_map([], |r| Ok((r.get(0)?, r.get(1)?, r.get(2)?, r.get(3)?)))
        .unwrap()
        .map(|r| r.unwrap())
        .collect();
    assert_eq!(rows.len(), 2);
    let (old_id, old_dep, old_next, old_content) = rows[0].clone();
    let (new_id, new_dep, new_next, new_content) = rows[1].clone();
    assert!(old_dep);
    assert_eq!(old_next, Some(new_id));
    assert_eq!(old_content, "first");
    assert!(!new_dep);
    assert_eq!(new_next, None);
    assert_eq!(new_content, "first\nsecond");
    assert_ne!(old_id, new_id);
    let active: i64 = raw
        .query_row("SELECT COUNT(*) FROM memories WHERE deprecated = 0", [], |r| r.get(0))
        .unwrap();
    assert_eq!(active, 1);
}

#[test]
fn created_memory_without_title_is_named_by_its_node() {
    let raw = db();
    let conn = &mut Db::new(&raw);
    let uri = create_memory(conn, "notes://", "x", 0, None, None).unwrap();
    let name = uri.strip_prefix("notes://").unwrap().to_string();
    let (_, node) = resolve_path(conn, "notes", &name).unwrap();
    assert_eq!(node, name);
}
