//! Core graph operations on nodes, edges, and paths: creation primitives,
//! lookups and cycle detection for the memory graph.
use vstd::prelude::*;

use crate::memory::db::{extends, lemma_extends_trans, lemma_push_extends, query_ok, Db};

use crate::error::AppError;
use crate::memory::db::{
    extends_by, has_row, inserted, params_of, ran, rows_answer, rows_of, sent, DbCall, Param, db_execute, db_last_insert_rowid, db_query, get_i32, get_int, get_opt_int, get_opt_text,
    get_text, int_of, is_db_err, map_db_err, opt_int_of, opt_text_is, opt_text_param, query_first,
    no_rows_error, query_one, row_fits, text_of, text_param, ColumnKind, SqlValue,
};
use crate::memory::models::{Edge, Memory, ROOT_NODE_UUID};
use crate::memory::format::views;
use crate::text::str_eq;

verus! {

/// A fresh random (version 4) UUID in its hyphenated text form
/// (`uuid::Uuid::new_v4`, then `to_string`).
///
/// Trusted: nothing is claimed of the value, which is random.
#[verifier::external_body]
fn new_uuid() -> String {
    uuid::Uuid::new_v4().to_string()
}

/// Column kinds of an edge record: id, parent, child, name, priority,
/// disclosure, creation time.
pub open spec fn edge_kind_seq() -> Seq<ColumnKind> {
    seq![
        ColumnKind::Int,
        ColumnKind::Text,
        ColumnKind::Text,
        ColumnKind::Text,
        ColumnKind::Int32,
        ColumnKind::OptText,
        ColumnKind::Text,
    ]
}

/// Column kinds of a memory record: id, node, content, deprecated flag,
/// successor, creation time.
pub open spec fn memory_kind_seq() -> Seq<ColumnKind> {
    seq![
        ColumnKind::Int,
        ColumnKind::OptText,
        ColumnKind::Text,
        ColumnKind::Int32,
        ColumnKind::OptInt,
        ColumnKind::Text,
    ]
}

/// Column kinds of a child row: the edge, then its active memory's columns,
/// all of which may be absent (a left join).
pub open spec fn child_kind_seq() -> Seq<ColumnKind> {
    edge_kind_seq() + seq![
        ColumnKind::OptInt,
        ColumnKind::OptText,
        ColumnKind::OptText,
        ColumnKind::OptInt,
        ColumnKind::OptInt,
        ColumnKind::OptText,
    ]
}

/// `e` is the edge held by the first seven columns of `row`.
pub open spec fn edge_row(e: Edge, row: Seq<SqlValue>) -> bool {
    &&& e.id == int_of(row[0])
    &&& e.parent_uuid@ == text_of(row[1])
    &&& e.child_uuid@ == text_of(row[2])
    &&& e.name@ == text_of(row[3])
    &&& e.priority == int_of(row[4])
    &&& opt_text_is(e.disclosure, row[5])
    &&& e.created_at@ == text_of(row[6])
}

/// `m` is the memory held by the six columns of `row` from `at` on; the
/// memory is deprecated when its flag is not 0.
pub open spec fn memory_row(m: Memory, row: Seq<SqlValue>, at: int) -> bool {
    &&& m.id == int_of(row[at])
    &&& opt_text_is(m.node_uuid, row[at + 1])
    &&& m.content@ == text_of(row[at + 2])
    &&& m.deprecated == (int_of(row[at + 3]) != 0)
    &&& m.migrated_to == opt_int_of(row[at + 4])
    &&& m.created_at@ == text_of(row[at + 5])
}

/// `c` is the child held by a child row: its edge, and its memory when the
/// memory's id is present.
pub open spec fn child_row(c: (Edge, Option<Memory>), row: Seq<SqlValue>) -> bool {
    &&& edge_row(c.0, row)
    &&& match opt_int_of(row[7]) {
        Some(_) => c.1 matches Some(m) && memory_row(m, row, 7),
        None => c.1 is None,
    }
}

/// `v` are the children held by `rows`, one per row and in order.
pub open spec fn children_of_rows(v: Seq<(Edge, Option<Memory>)>, rows: Seq<Seq<SqlValue>>) -> bool {
    &&& rows.len() == v.len()
    &&& forall|i: int| 0 <= i < rows.len() ==> child_row(#[trigger] v[i], rows[i])
}

fn edge_kinds() -> (k: Vec<ColumnKind>)
    ensures
        k@ == edge_kind_seq(),
{
    vec![
        ColumnKind::Int,
        ColumnKind::Text,
        ColumnKind::Text,
        ColumnKind::Text,
        ColumnKind::Int32,
        ColumnKind::OptText,
        ColumnKind::Text,
    ]
}

/// The edge held by the first seven columns of a row read with `edge_kinds`.
pub fn edge_from_row(row: &Vec<SqlValue>) -> (r: Edge)
    requires
        row@.len() >= 7,
        row@[4] matches SqlValue::Integer(i) ==> i32::MIN <= i <= i32::MAX,
    ensures
        edge_row(r, row@),
{
    Edge {
        id: get_int(row, 0),
        parent_uuid: get_text(row, 1),
        child_uuid: get_text(row, 2),
        name: get_text(row, 3),
        priority: get_i32(row, 4),
        disclosure: get_opt_text(row, 5),
        created_at: get_text(row, 6),
    }
}

/// The memory held by the six columns of a row from `at` on.
pub fn memory_from_columns(row: &Vec<SqlValue>, at: usize) -> (m: Memory)
    requires
        at + 6 <= row@.len(),
    ensures
        memory_row(m, row@, at as int),
{
    let _n = row.len();
    Memory {
        id: get_int(row, at),
        node_uuid: get_opt_text(row, at + 1),
        content: get_text(row, at + 2),
        deprecated: get_int(row, at + 3) != 0,
        migrated_to: get_opt_int(row, at + 4),
        created_at: get_text(row, at + 5),
    }
}

/// The child rows whose edge's parent (column 1) is `parent`, in order.
pub open spec fn parent_rows(rows: Seq<Seq<SqlValue>>, parent: Seq<char>) -> Seq<Seq<SqlValue>>
    decreases rows.len(),
{
    if rows.len() == 0 {
        Seq::<Seq<SqlValue>>::empty()
    } else {
        let rest = parent_rows(rows.drop_last(), parent);
        if text_of(rows.last()[1]) == parent {
            rest.push(rows.last())
        } else {
            rest
        }
    }
}

/// The children held by the child rows of edges from `parent`, in order;
/// rows of other parents are left out.
pub fn children_from_rows(rows: &Vec<Vec<SqlValue>>, parent: &str) -> (r: Vec<(Edge, Option<Memory>)>)
    requires
        forall|j: int| 0 <= j < rows@.len() ==> row_fits(#[trigger] rows@[j]@, child_kind_seq()),
    ensures
        children_of_rows(r@, parent_rows(rows_of(rows@), parent@)),
        forall|i: int| 0 <= i < r@.len() ==> (#[trigger] r@[i]).0.parent_uuid@ == parent@,
{
    let ghost all = rows_of(rows@);
    let mut out: Vec<(Edge, Option<Memory>)> = Vec::new();
    let mut i: usize = 0;
    while i < rows.len()
        invariant
            i <= rows@.len(),
            all == rows_of(rows@),
            forall|j: int| 0 <= j < rows@.len() ==> row_fits(#[trigger] rows@[j]@, child_kind_seq()),
            children_of_rows(out@, parent_rows(all.take(i as int), parent@)),
            forall|k: int| 0 <= k < out@.len() ==> (#[trigger] out@[k]).0.parent_uuid@ == parent@,
        decreases rows@.len() - i,
    {
        let row = &rows[i];
        assert(row_fits(rows@[i as int]@, child_kind_seq()));
        assert(child_kind_seq()[4] == ColumnKind::Int32);
        assert(child_kind_seq().len() == 13);
        assert(all.take(i + 1).drop_last() =~= all.take(i as int));
        assert(all.take(i + 1).last() == rows@[i as int]@);
        let ghost before = parent_rows(all.take(i as int), parent@);
        let ghost old_out = out@;
        let edge = edge_from_row(row);
        if str_eq(edge.parent_uuid.as_str(), parent) {
            let memory = match get_opt_int(row, 7) {
                Some(_) => Some(memory_from_columns(row, 7)),
                None => None,
            };
            out.push((edge, memory));
            let ghost after = parent_rows(all.take(i + 1), parent@);
            assert(after == before.push(rows@[i as int]@));
            assert forall|k: int| 0 <= k < after.len() implies child_row(#[trigger] out@[k], after[k]) by {
                if k < before.len() {
                    assert(out@[k] == old_out[k]);
                }
            }
            assert(before.len() == old_out.len());
            assert(after.len() == out@.len());
            assert(children_of_rows(out@, after));
        } else {
            assert(parent_rows(all.take(i + 1), parent@) == before);
            assert(children_of_rows(out@, before));
        }
        i = i + 1;
    }
    assert(all.take(rows@.len() as int) =~= all);
    out
}

/// Column kinds of a route row: the edge's id and child node, then the
/// route's domain and path.
pub open spec fn path_kind_seq() -> Seq<ColumnKind> {
    seq![ColumnKind::Int, ColumnKind::Text, ColumnKind::Text, ColumnKind::Text]
}

/// `(id, child)` is the edge id and child node of a route row for
/// `domain://path`.
pub open spec fn routed_path_row(
    id: i64,
    child: Seq<char>,
    row: Seq<SqlValue>,
    domain: Seq<char>,
    path: Seq<char>,
) -> bool {
    &&& row_fits(row, path_kind_seq())
    &&& id == int_of(row[0])
    &&& child == text_of(row[1])
    &&& text_of(row[2]) == domain
    &&& text_of(row[3]) == path
}

/// The query that finds the edge and child node routed at a domain and path.
pub const RESOLVE_PATH_SQL: &'static str = "SELECT e.id, e.child_uuid, p.domain, p.path FROM paths p JOIN edges e ON p.edge_id = e.id WHERE p.domain = ?1 AND p.path = ?2";

/// The parameters of a route lookup.
pub open spec fn route_params(domain: Seq<char>, path: Seq<char>) -> Seq<Param> {
    seq![Param::Text(domain), Param::Text(path)]
}

/// The node that route lookup `i` of `calls` found (column 1 of its first
/// row).
pub open spec fn route_node(calls: Seq<DbCall>, i: int) -> Seq<char> {
    text_of(rows_answer(calls, i)[0][1])
}

/// Resolve a `(domain, path)` to its edge id and child node UUID: one query,
/// whose first row must name that domain and path.
///
/// Returns `AppError::Internal` if the path does not exist.
pub fn resolve_path(conn: &mut Db, domain: &str, path: &str) -> (r: Result<
    (i64, String),
    AppError,
>)
    ensures
        extends_by(final(conn).calls(), old(conn).calls(), 1),
        sent(final(conn).calls(), old(conn).calls().len() as int, RESOLVE_PATH_SQL@, route_params(domain@, path@)),
        r matches Err(e) ==> is_db_err(e, "Path not found"@),
        r matches Ok((id, child)) ==> has_row(final(conn).calls(), old(conn).calls().len() as int)
            && routed_path_row(
            id,
            child@,
            rows_answer(final(conn).calls(), old(conn).calls().len() as int)[0],
            domain@,
            path@,
        ),
{
    let params = vec![text_param(domain), text_param(path)];
    assert(params_of(params@) =~= route_params(domain@, path@));
    let kinds = vec![ColumnKind::Int, ColumnKind::Text, ColumnKind::Text, ColumnKind::Text];
    assert(kinds@ == path_kind_seq());
    match query_one(conn, RESOLVE_PATH_SQL, &params, &kinds) {
        Ok(row) => {
            let d = get_text(&row, 2);
            let p = get_text(&row, 3);
            if !(str_eq(d.as_str(), domain) && str_eq(p.as_str(), path)) {
                return Err(map_db_err("Path not found", &no_rows_error()));
            }
            let id = get_int(&row, 0);
            let child = get_text(&row, 1);
            assert(routed_path_row(id, child@, row@, domain@, path@));
            Ok((id, child))
        },
        Err(e) => Err(map_db_err("Path not found", &e)),
    }
}

/// Column kinds of an edge row followed by its route's domain and path.
pub open spec fn route_kind_seq() -> Seq<ColumnKind> {
    edge_kind_seq() + seq![ColumnKind::Text, ColumnKind::Text]
}

/// `e` is the edge of a route row for `domain://path`.
pub open spec fn routed_edge_row(e: Edge, row: Seq<SqlValue>, domain: Seq<char>, path: Seq<char>) -> bool {
    &&& row_fits(row, route_kind_seq())
    &&& edge_row(e, row)
    &&& text_of(row[7]) == domain
    &&& text_of(row[8]) == path
}

/// The query that finds the edge routed at a domain and path.
pub const RESOLVE_EDGE_SQL: &'static str = "SELECT e.id, e.parent_uuid, e.child_uuid, e.name, e.priority, e.disclosure, e.created_at, p.domain, p.path FROM paths p JOIN edges e ON p.edge_id = e.id WHERE p.domain = ?1 AND p.path = ?2";

/// Statement `i` of `calls` looked up the route `domain://path` and found
/// edge `e` in the first row.
pub open spec fn edge_found(calls: Seq<DbCall>, i: int, domain: Seq<char>, path: Seq<char>, e: Edge) -> bool {
    &&& sent(calls, i, RESOLVE_EDGE_SQL@, route_params(domain, path))
    &&& has_row(calls, i)
    &&& routed_edge_row(e, rows_answer(calls, i)[0], domain, path)
}

/// Resolve a `(domain, path)` to the full edge record: one query, whose first
/// row must name that domain and path.
pub fn resolve_edge(conn: &mut Db, domain: &str, path: &str) -> (r: Result<Edge, AppError>)
    ensures
        extends_by(final(conn).calls(), old(conn).calls(), 1),
        sent(final(conn).calls(), old(conn).calls().len() as int, RESOLVE_EDGE_SQL@, route_params(domain@, path@)),
        r matches Err(e) ==> is_db_err(e, "Edge not found"@),
        r matches Ok(edge) ==> edge_found(final(conn).calls(), old(conn).calls().len() as int, domain@, path@, edge),
{
    let params = vec![text_param(domain), text_param(path)];
    assert(params_of(params@) =~= route_params(domain@, path@));
    let mut kinds = edge_kinds();
    kinds.push(ColumnKind::Text);
    kinds.push(ColumnKind::Text);
    assert(kinds@ =~= route_kind_seq());
    match query_one(conn, RESOLVE_EDGE_SQL, &params, &kinds) {
        Ok(row) => {
            let d = get_text(&row, 7);
            let p = get_text(&row, 8);
            if !(str_eq(d.as_str(), domain) && str_eq(p.as_str(), path)) {
                return Err(map_db_err("Edge not found", &no_rows_error()));
            }
            assert(route_kind_seq()[4] == ColumnKind::Int32);
            let edge = edge_from_row(&row);
            assert(routed_edge_row(edge, row@, domain@, path@));
            Ok(edge)
        },
        Err(e) => Err(map_db_err("Edge not found", &e)),
    }
}

/// `m` is an active memory of node `node`, held by a memory row.
pub open spec fn active_memory_row(m: Memory, row: Seq<SqlValue>, node: Seq<char>) -> bool {
    &&& row_fits(row, memory_kind_seq())
    &&& memory_row(m, row, 0)
    &&& m.node_uuid matches Some(u) && u@ == node
    &&& !m.deprecated
}

/// The query that finds the active memory of a node.
pub const ACTIVE_MEMORY_SQL: &'static str = "SELECT id, node_uuid, content, deprecated, migrated_to, created_at FROM memories WHERE node_uuid = ?1 AND deprecated = 0 LIMIT 1";

/// Statement `i` of `calls` looked up the active memory of `node` and found
/// `m` in the first row.
pub open spec fn memory_found(calls: Seq<DbCall>, i: int, node: Seq<char>, m: Memory) -> bool {
    &&& sent(calls, i, ACTIVE_MEMORY_SQL@, seq![Param::Text(node)])
    &&& has_row(calls, i)
    &&& active_memory_row(m, rows_answer(calls, i)[0], node)
}

/// Get the active (non-deprecated) memory for a node: one query.
pub fn get_active_memory(conn: &mut Db, node_uuid: &str) -> (r: Result<
    Option<Memory>,
    AppError,
>)
    ensures
        extends_by(final(conn).calls(), old(conn).calls(), 1),
        sent(final(conn).calls(), old(conn).calls().len() as int, ACTIVE_MEMORY_SQL@, seq![Param::Text(node_uuid@)]),
        r matches Err(e) ==> is_db_err(e, "Failed to get memory"@),
        r matches Ok(Some(m)) ==> memory_found(final(conn).calls(), old(conn).calls().len() as int, node_uuid@, m),
{
    let params = vec![text_param(node_uuid)];
    assert(params_of(params@) =~= seq![Param::Text(node_uuid@)]);
    let kinds = vec![
        ColumnKind::Int,
        ColumnKind::OptText,
        ColumnKind::Text,
        ColumnKind::Int32,
        ColumnKind::OptInt,
        ColumnKind::Text,
    ];
    assert(kinds@ == memory_kind_seq());
    match query_first(conn, ACTIVE_MEMORY_SQL, &params, &kinds) {
        Ok(Some(row)) => {
            let m = memory_from_columns(&row, 0);
            let of_node = match &m.node_uuid {
                Some(u) => str_eq(u.as_str(), node_uuid),
                None => false,
            };
            if !of_node || m.deprecated {
                return Ok(None);
            }
            assert(active_memory_row(m, row@, node_uuid@));
            Ok(Some(m))
        },
        Ok(None) => Ok(None),
        Err(e) => Err(map_db_err("Failed to get memory", &e)),
    }
}

/// The statement that creates a node.
pub const CREATE_NODE_SQL: &'static str = "INSERT INTO nodes (uuid) VALUES (?1)";

/// Create a new node with a fresh UUID and return the UUID: one statement.
pub fn create_node(conn: &mut Db) -> (r: Result<String, AppError>)
    ensures
        extends_by(final(conn).calls(), old(conn).calls(), 1),
        r matches Err(e) ==> is_db_err(e, "Failed to create node"@),
        r matches Ok(u) ==> ran(final(conn).calls(), old(conn).calls().len() as int, CREATE_NODE_SQL@, seq![Param::Text(u@)]),
{
    let uuid = new_uuid();
    let params = vec![text_param(uuid.as_str())];
    assert(params_of(params@) =~= seq![Param::Text(uuid@)]);
    match db_execute(conn, CREATE_NODE_SQL, &params) {
        Ok(_) => Ok(uuid),
        Err(e) => Err(map_db_err("Failed to create node", &e)),
    }
}

/// The statement that inserts a memory version.
pub const INSERT_MEMORY_SQL: &'static str = "INSERT INTO memories (node_uuid, content) VALUES (?1, ?2)";

/// Insert a memory record for a node and return its id (the rowid read back
/// right after the insert).
pub fn insert_memory(conn: &mut Db, node_uuid: &str, content: &str) -> (r: Result<
    i64,
    AppError,
>)
    ensures
        extends(final(conn).calls(), old(conn).calls()),
        r matches Err(e) ==> is_db_err(e, "Failed to insert memory"@) && extends_by(
            final(conn).calls(),
            old(conn).calls(),
            1,
        ),
        r matches Ok(id) ==> extends_by(final(conn).calls(), old(conn).calls(), 2) && inserted(
            final(conn).calls(),
            old(conn).calls().len() as int,
            INSERT_MEMORY_SQL@,
            seq![Param::Text(node_uuid@), Param::Text(content@)],
            id,
        ),
{
    let params = vec![text_param(node_uuid), text_param(content)];
    assert(params_of(params@) =~= seq![Param::Text(node_uuid@), Param::Text(content@)]);
    match db_execute(conn, INSERT_MEMORY_SQL, &params) {
        Ok(_) => Ok(db_last_insert_rowid(conn)),
        Err(e) => Err(map_db_err("Failed to insert memory", &e)),
    }
}

/// The statement that creates an edge.
pub const CREATE_EDGE_SQL: &'static str = "INSERT INTO edges (parent_uuid, child_uuid, name, priority, disclosure) VALUES (?1, ?2, ?3, ?4, ?5)";

/// The record of an optional text parameter.
pub open spec fn opt_param(s: Option<&str>) -> Param {
    match s {
        Some(t) => Param::Text(t@),
        None => Param::Null,
    }
}

/// The parameters of an edge creation.
pub open spec fn edge_params(
    parent: Seq<char>,
    child: Seq<char>,
    name: Seq<char>,
    priority: i32,
    disclosure: Option<&str>,
) -> Seq<Param> {
    seq![
        Param::Text(parent),
        Param::Text(child),
        Param::Text(name),
        Param::Int(priority as i64),
        opt_param(disclosure),
    ]
}

/// Create an edge between two nodes and return its id (the rowid read back
/// right after the insert).
pub fn create_edge(
    conn: &mut Db,
    parent_uuid: &str,
    child_uuid: &str,
    name: &str,
    priority: i32,
    disclosure: Option<&str>,
) -> (r: Result<i64, AppError>)
    ensures
        extends(final(conn).calls(), old(conn).calls()),
        r matches Err(e) ==> is_db_err(e, "Failed to create edge"@),
        r matches Ok(id) ==> extends_by(final(conn).calls(), old(conn).calls(), 2) && inserted(
            final(conn).calls(),
            old(conn).calls().len() as int,
            CREATE_EDGE_SQL@,
            edge_params(parent_uuid@, child_uuid@, name@, priority, disclosure),
            id,
        ),
{
    let params = vec![
        text_param(parent_uuid),
        text_param(child_uuid),
        text_param(name),
        SqlValue::Integer(priority as i64),
        opt_text_param(disclosure),
    ];
    assert(params_of(params@) =~= edge_params(parent_uuid@, child_uuid@, name@, priority, disclosure));
    match db_execute(conn, CREATE_EDGE_SQL, &params) {
        Ok(_) => Ok(db_last_insert_rowid(conn)),
        Err(e) => Err(map_db_err("Failed to create edge", &e)),
    }
}

/// The statement that creates a route.
pub const CREATE_PATH_SQL: &'static str = "INSERT INTO paths (domain, path, edge_id) VALUES (?1, ?2, ?3)";

/// Create a path entry linking a URI to an edge: one statement.
pub fn create_path(conn: &mut Db, domain: &str, path: &str, edge_id: i64) -> (r: Result<
    (),
    AppError,
>)
    ensures
        extends_by(final(conn).calls(), old(conn).calls(), 1),
        r matches Err(e) ==> is_db_err(e, "Failed to create path"@),
        r is Ok ==> ran(
            final(conn).calls(),
            old(conn).calls().len() as int,
            CREATE_PATH_SQL@,
            seq![Param::Text(domain@), Param::Text(path@), Param::Int(edge_id)],
        ),
{
    let params = vec![text_param(domain), text_param(path), SqlValue::Integer(edge_id)];
    assert(params_of(params@) =~= seq![Param::Text(domain@), Param::Text(path@), Param::Int(edge_id)]);
    match db_execute(conn, CREATE_PATH_SQL, &params) {
        Ok(_) => Ok(()),
        Err(e) => Err(map_db_err("Failed to create path", &e)),
    }
}

/// The query that lists the child edges of a node with their active
/// memories.
pub const CHILDREN_SQL: &'static str = "SELECT e.id, e.parent_uuid, e.child_uuid, e.name, e.priority, e.disclosure, e.created_at, m.id, m.node_uuid, m.content, m.deprecated, m.migrated_to, m.created_at FROM edges e LEFT JOIN memories m ON m.node_uuid = e.child_uuid AND m.deprecated = 0 WHERE e.parent_uuid = ?1 ORDER BY e.priority ASC, e.name ASC";

/// Statement `i` of `calls` listed the children of `node`, and `v` are the
/// children it answered whose edges leave `node`.
pub open spec fn children_found(calls: Seq<DbCall>, i: int, node: Seq<char>, v: Seq<(Edge, Option<Memory>)>) -> bool {
    &&& sent(calls, i, CHILDREN_SQL@, seq![Param::Text(node)])
    &&& calls[i].answer is Rows && calls[i].answer->Rows_0 is Some
    &&& children_of_rows(v, parent_rows(rows_answer(calls, i), node))
    &&& forall|k: int| 0 <= k < v.len() ==> (#[trigger] v[k]).0.parent_uuid@ == node
}

/// Get children of a node with their active memories, ordered by priority
/// and then by name: one query.
pub fn get_children(conn: &mut Db, node_uuid: &str) -> (r: Result<
    Vec<(Edge, Option<Memory>)>,
    AppError,
>)
    ensures
        extends_by(final(conn).calls(), old(conn).calls(), 1),
        sent(final(conn).calls(), old(conn).calls().len() as int, CHILDREN_SQL@, seq![Param::Text(node_uuid@)]),
        r matches Err(e) ==> is_db_err(e, "Failed to get children"@),
        r matches Ok(v) ==> children_found(final(conn).calls(), old(conn).calls().len() as int, node_uuid@, v@),
{
    let params = vec![text_param(node_uuid)];
    assert(params_of(params@) =~= seq![Param::Text(node_uuid@)]);
    let mut kinds = edge_kinds();
    kinds.push(ColumnKind::OptInt);
    kinds.push(ColumnKind::OptText);
    kinds.push(ColumnKind::OptText);
    kinds.push(ColumnKind::OptInt);
    kinds.push(ColumnKind::OptInt);
    kinds.push(ColumnKind::OptText);
    assert(kinds@ =~= child_kind_seq());
    let rows = match db_query(conn, CHILDREN_SQL, &params, &kinds) {
        Ok(rows) => rows,
        Err(e) => return Err(map_db_err("Failed to get children", &e)),
    };
    let out = children_from_rows(&rows, node_uuid);
    Ok(out)
}

/// Whether `v` holds a string equal to `s`.
fn holds(v: &Vec<String>, s: &str) -> (r: bool)
    ensures
        r == views(v@).contains(s@),
{
    let mut i: usize = 0;
    while i < v.len()
        invariant
            i <= v@.len(),
            forall|j: int| 0 <= j < i ==> (#[trigger] v@[j])@ != s@,
        decreases v@.len() - i,
    {
        if str_eq(v[i].as_str(), s) {
            assert(views(v@)[i as int] == s@);
            return true;
        }
        i = i + 1;
    }
    assert forall|j: int| 0 <= j < views(v@).len() implies views(v@)[j] != s@ by {
        assert(views(v@)[j] == v@[j]@);
    }
    false
}

/// The parents (column 0) of parent rows.
pub open spec fn parents_of(rows: Seq<Seq<SqlValue>>) -> Seq<Seq<char>> {
    Seq::new(rows.len(), |i: int| text_of(rows[i][0]))
}

/// One step of the ancestry walk: go through the parents of a node in order;
/// the walk has found the target when one of them is the target; otherwise
/// each parent not seen yet, other than the root, joins the nodes to visit.
pub open spec fn walk_step(seen: Seq<Seq<char>>, parents: Seq<Seq<char>>, target: Seq<char>) -> (
    bool,
    Seq<Seq<char>>,
)
    decreases parents.len(),
{
    if parents.len() == 0 {
        (false, seen)
    } else {
        let p = parents[0];
        if p == target {
            (true, seen)
        } else {
            let next = if p != ROOT_NODE_UUID@ && !seen.contains(p) {
                seen.push(p)
            } else {
                seen
            };
            walk_step(next, parents.drop_first(), target)
        }
    }
}

/// Take one step of the ancestry walk over the parent rows that a node's
/// query answered: whether the target is among the parents, and the nodes
/// seen so far extended by the new parents (`walk_step`).
pub fn visit_parents(seen: &mut Vec<String>, rows: &Vec<Vec<SqlValue>>, target: &str) -> (found: bool)
    requires
        forall|j: int| 0 <= j < rows@.len() ==> (#[trigger] rows@[j])@.len() >= 1,
    ensures
        (found, views(final(seen)@)) == walk_step(views(old(seen)@), parents_of(rows_of(rows@)), target@),
{
    let ghost parents = parents_of(rows_of(rows@));
    assert(parents.skip(0) =~= parents);
    let mut k: usize = 0;
    while k < rows.len()
        invariant
            k <= rows@.len(),
            parents == parents_of(rows_of(rows@)),
            forall|j: int| 0 <= j < rows@.len() ==> (#[trigger] rows@[j])@.len() >= 1,
            walk_step(views(old(seen)@), parents, target@) == walk_step(views(seen@), parents.skip(k as int), target@),
        decreases rows@.len() - k,
    {
        assert(rows@[k as int]@.len() >= 1);
        let parent = get_text(&rows[k], 0);
        let ghost rest = parents.skip(k as int);
        assert(rest[0] == parent@);
        assert(rest.drop_first() =~= parents.skip(k + 1));
        if str_eq(parent.as_str(), target) {
            return true;
        }
        if !str_eq(parent.as_str(), ROOT_NODE_UUID) && !holds(seen, parent.as_str()) {
            let ghost vs = views(seen@);
            let ghost pv = parent@;
            seen.push(parent);
            assert(views(seen@) =~= vs.push(pv));
        }
        k = k + 1;
    }
    assert(parents.skip(rows@.len() as int) =~= Seq::<Seq<char>>::empty());
    false
}

/// The most nodes that an ancestry check visits before it gives up.
pub const ANCESTRY_LIMIT: usize = 1000;

/// The query that lists the parents of a node.
pub const PARENTS_SQL: &'static str = "SELECT parent_uuid FROM edges WHERE child_uuid = ?1";

/// The ancestry walk over the parent queries recorded from statement `o`
/// on: visit `seen[next]` (its parents being the rows that query `o + next`
/// answered) with one step of the walk; stop with the target found, or with
/// no node left to visit or `ANCESTRY_LIMIT` nodes visited.
pub open spec fn ancestry_walk(calls: Seq<DbCall>, o: int, target: Seq<char>, seen: Seq<Seq<char>>, next: int) -> bool
    decreases ANCESTRY_LIMIT - next,
{
    if next < 0 || next >= seen.len() || next >= ANCESTRY_LIMIT {
        false
    } else {
        let step = walk_step(seen, parents_of(rows_answer(calls, o + next)), target);
        step.0 || ancestry_walk(calls, o, target, step.1, next + 1)
    }
}

/// The queries of the ancestry walk: the visit of `seen[next]` is query
/// `o + next`, of that node's parents, and it answered; then the next visit,
/// unless the walk stops there.
pub open spec fn ancestry_queries(calls: Seq<DbCall>, o: int, target: Seq<char>, seen: Seq<Seq<char>>, next: int) -> bool
    decreases ANCESTRY_LIMIT - next,
{
    if next < 0 || next >= seen.len() || next >= ANCESTRY_LIMIT {
        true
    } else {
        let step = walk_step(seen, parents_of(rows_answer(calls, o + next)), target);
        &&& sent(calls, o + next, PARENTS_SQL@, seq![Param::Text(seen[next])])
        &&& query_ok(calls, o + next)
        &&& (step.0 || ancestry_queries(calls, o, target, step.1, next + 1))
    }
}

/// Check whether `target_uuid` is an ancestor of `node_uuid` (or the node
/// itself): whether it is reached by going up from the node through the
/// parents of its edges, any of them, visiting each node once and at most
/// `ANCESTRY_LIMIT` nodes. Each visit queries the node's parents and takes
/// one step of the walk (`visit_parents`).
///
/// Used to prevent cycles when adding aliases.
pub fn is_ancestor(conn: &mut Db, node_uuid: &str, target_uuid: &str) -> (r: Result<
    bool,
    AppError,
>)
    ensures
        extends(final(conn).calls(), old(conn).calls()),
        node_uuid@ == target_uuid@ ==> r matches Ok(true),
        node_uuid@ != target_uuid@ && node_uuid@ == ROOT_NODE_UUID@ ==> r matches Ok(false),
        r matches Err(e) ==> is_db_err(e, "Cycle check failed"@),
        node_uuid@ != target_uuid@ && node_uuid@ != ROOT_NODE_UUID@ ==> (r matches Ok(b) ==> b
            == ancestry_walk(final(conn).calls(), old(conn).calls().len() as int, target_uuid@, seq![node_uuid@], 0)
            && ancestry_queries(final(conn).calls(), old(conn).calls().len() as int, target_uuid@, seq![node_uuid@], 0)),
        node_uuid@ != target_uuid@ && node_uuid@ != ROOT_NODE_UUID@ ==> (r matches Ok(b) ==> forall|
            c2: Seq<DbCall>,
        |
            #[trigger] extends(c2, final(conn).calls()) ==> b == ancestry_walk(
                c2,
                old(conn).calls().len() as int,
                target_uuid@,
                seq![node_uuid@],
                0,
            ) && ancestry_queries(c2, old(conn).calls().len() as int, target_uuid@, seq![node_uuid@], 0)),
{
    let ghost o = conn.calls().len() as int;
    if str_eq(node_uuid, target_uuid) {
        return Ok(true);
    }
    if str_eq(node_uuid, ROOT_NODE_UUID) {
        return Ok(false);
    }
    let kinds = vec![ColumnKind::Text];
    let mut seen: Vec<String> = vec![String::from_str(node_uuid)];
    let ghost start = seq![node_uuid@];
    assert(views(seen@) =~= start);
    let mut next: usize = 0;
    while next < seen.len() && next < ANCESTRY_LIMIT
        invariant
            next <= ANCESTRY_LIMIT,
            kinds@ == seq![ColumnKind::Text],
            extends(conn.calls(), old(conn).calls()),
            o == old(conn).calls().len(),
            conn.calls().len() == o + next,
            node_uuid@ != target_uuid@,
            node_uuid@ != ROOT_NODE_UUID@,
            start == seq![node_uuid@],
            forall|c2: Seq<DbCall>|
                #[trigger] extends(c2, conn.calls()) ==> ancestry_walk(c2, o, target_uuid@, start, 0)
                    == ancestry_walk(c2, o, target_uuid@, views(seen@), next as int) && (ancestry_queries(
                    c2,
                    o,
                    target_uuid@,
                    start,
                    0,
                ) <== ancestry_queries(c2, o, target_uuid@, views(seen@), next as int)),
        decreases ANCESTRY_LIMIT - next,
    {
        let ghost c = conn.calls();
        let ghost before = views(seen@);
        let params = vec![text_param(seen[next].as_str())];
        assert(params_of(params@) =~= seq![Param::Text(before[next as int])]);
        let res = db_query(conn, PARENTS_SQL, &params, &kinds);
        let ghost c1 = conn.calls();
        proof {
            lemma_push_extends(c, c1.last());
            assert(c1 =~= c.push(c1.last()));
            lemma_extends_trans(c1, c, old(conn).calls());
        }
        let rows = match res {
            Ok(rows) => rows,
            Err(e) => return Err(map_db_err("Cycle check failed", &e)),
        };
        assert forall|j: int| 0 <= j < rows@.len() implies (#[trigger] rows@[j])@.len() >= 1 by {
            assert(row_fits(rows@[j]@, kinds@));
        }
        let found = visit_parents(&mut seen, &rows, target_uuid);
        let ghost after = views(seen@);
        assert forall|c2: Seq<DbCall>| #[trigger] extends(c2, c1) implies ancestry_walk(c2, o, target_uuid@, start, 0)
            == (found || ancestry_walk(c2, o, target_uuid@, after, next + 1)) && (ancestry_queries(
            c2,
            o,
            target_uuid@,
            start,
            0,
        ) <== (sent(c2, o + next, PARENTS_SQL@, seq![Param::Text(before[next as int])]) && query_ok(
            c2,
            o + next,
        ) && (found || ancestry_queries(c2, o, target_uuid@, after, next + 1)))) by {
            lemma_extends_trans(c2, c1, c);
            assert(c2[o + next] == c1[o + next]);
            assert(rows_answer(c2, o + next) == rows_of(rows@));
            assert(walk_step(before, parents_of(rows_answer(c2, o + next)), target_uuid@) == (found, after));
        }
        if found {
            assert(extends(c1, c1));
            assert(sent(c1, o + next, PARENTS_SQL@, seq![Param::Text(before[next as int])]));
            return Ok(true);
        }
        next = next + 1;
    }
    assert(extends(conn.calls(), conn.calls()));
    Ok(false)
}

/// The query that counts the routes to a node.
pub const COUNT_ALIASES_SQL: &'static str = "SELECT COUNT(*) FROM paths p JOIN edges e ON p.edge_id = e.id WHERE e.child_uuid = ?1";

/// Count how many paths point to a given node: one query, whose first row
/// holds the count.
pub fn count_aliases(conn: &mut Db, node_uuid: &str) -> (r: Result<i64, AppError>)
    ensures
        extends_by(final(conn).calls(), old(conn).calls(), 1),
        sent(final(conn).calls(), old(conn).calls().len() as int, COUNT_ALIASES_SQL@, seq![Param::Text(node_uuid@)]),
        r matches Err(e) ==> is_db_err(e, "Failed to count aliases"@),
        r matches Ok(n) ==> has_row(final(conn).calls(), old(conn).calls().len() as int)
            && rows_answer(final(conn).calls(), old(conn).calls().len() as int)[0].len() == 1 && n
            == int_of(rows_answer(final(conn).calls(), old(conn).calls().len() as int)[0][0]),
{
    let params = vec![text_param(node_uuid)];
    assert(params_of(params@) =~= seq![Param::Text(node_uuid@)]);
    let kinds = vec![ColumnKind::Int];
    match query_one(conn, COUNT_ALIASES_SQL, &params, &kinds) {
        Ok(row) => Ok(get_int(&row, 0)),
        Err(e) => Err(map_db_err("Failed to count aliases", &e)),
    }
}

} // verus!

verus! {

/// What one step of the walk does: it finds the target exactly when the
/// target is among the parents; it keeps the nodes seen so far, in place,
/// adds at most one node per parent, and, when it does not find the target,
/// every parent other than the root is among the nodes seen afterwards.
pub proof fn lemma_walk_step(seen: Seq<Seq<char>>, parents: Seq<Seq<char>>, target: Seq<char>)
    ensures
        walk_step(seen, parents, target).0 == parents.contains(target),
        seen.len() <= walk_step(seen, parents, target).1.len() <= seen.len() + parents.len(),
        forall|i: int| 0 <= i < seen.len() ==> #[trigger] walk_step(seen, parents, target).1[i] == seen[i],
        !parents.contains(target) ==> forall|p: Seq<char>|
            #[trigger] parents.contains(p) && p != ROOT_NODE_UUID@ ==> walk_step(seen, parents, target).1.contains(p),
    decreases parents.len(),
{
    if parents.len() > 0 {
        let p0 = parents[0];
        let rest = parents.drop_first();
        if p0 == target {
            assert(parents.contains(target));
        } else {
            let next = if p0 != ROOT_NODE_UUID@ && !seen.contains(p0) {
                seen.push(p0)
            } else {
                seen
            };
            lemma_walk_step(next, rest, target);
            let s2 = walk_step(next, rest, target).1;
            assert(walk_step(seen, parents, target) == walk_step(next, rest, target));
            assert(parents.contains(target) == rest.contains(target)) by {
                if parents.contains(target) {
                    let k = choose|k: int| 0 <= k < parents.len() && parents[k] == target;
                    assert(rest[k - 1] == target);
                }
                if rest.contains(target) {
                    let k = choose|k: int| 0 <= k < rest.len() && rest[k] == target;
                    assert(parents[k + 1] == target);
                }
            }
            assert forall|i: int| 0 <= i < seen.len() implies #[trigger] s2[i] == seen[i] by {
                assert(next[i] == seen[i]);
            }
            if !parents.contains(target) {
                assert forall|p: Seq<char>| #[trigger] parents.contains(p) && p != ROOT_NODE_UUID@ implies s2.contains(p) by {
                    let k = choose|k: int| 0 <= k < parents.len() && parents[k] == p;
                    if k == 0 {
                        if seen.contains(p0) {
                            assert(next == seen);
                        } else {
                            assert(next[next.len() - 1] == p0);
                        }
                        assert(next.contains(p));
                        let q = choose|q: int| 0 <= q < next.len() && next[q] == p;
                        assert(s2[q] == next[q]);
                        assert(s2[q] == p);
                    } else {
                        assert(rest[k - 1] == p);
                        assert(rest.contains(p));
                    }
                }
            }
        }
    }
}

/// The database answers every parent query (from statement `o` on) with
/// the parents that `par` gives the node asked about.
pub open spec fn answers_by(calls: Seq<DbCall>, o: int, par: spec_fn(Seq<char>) -> Seq<Seq<char>>) -> bool {
    forall|i: int, x: Seq<char>|
        o <= i && #[trigger] sent(calls, i, PARENTS_SQL@, seq![Param::Text(x)]) ==> parents_of(
            rows_answer(calls, i),
        ) == par(x)
}

/// The walk goes on to every node it has queued: when a node queued at
/// place `j` (within `ANCESTRY_LIMIT` places) has the target among its
/// parents, the walk finds the target, whichever place it is at now.
pub proof fn lemma_walk_reaches_queued(
    calls: Seq<DbCall>,
    o: int,
    target: Seq<char>,
    par: spec_fn(Seq<char>) -> Seq<Seq<char>>,
    seen: Seq<Seq<char>>,
    next: int,
    j: int,
)
    requires
        answers_by(calls, o, par),
        ancestry_queries(calls, o, target, seen, next),
        0 <= next <= j < seen.len(),
        j < ANCESTRY_LIMIT,
        par(seen[j]).contains(target),
    ensures
        ancestry_walk(calls, o, target, seen, next),
    decreases j - next,
{
    assert(sent(calls, o + next, PARENTS_SQL@, seq![Param::Text(seen[next])]));
    let parents = parents_of(rows_answer(calls, o + next));
    assert(parents == par(seen[next]));
    lemma_walk_step(seen, parents, target);
    let step = walk_step(seen, parents, target);
    if !step.0 {
        assert(j != next);
        assert(step.1[j] == seen[j]);
        lemma_walk_reaches_queued(calls, o, target, par, step.1, next + 1, j);
    }
}

/// Ancestry goes through parents: when `p` is a parent of `node` (other
/// than the root and than `node` itself) and the target is a parent of `p`,
/// the ancestry walk from `node` finds the target, as long as `node` has
/// fewer parents than the visit limit; the database answering each parent
/// query with the node's parents (`answers_by`).
pub proof fn lemma_ancestry_through_parent(
    calls: Seq<DbCall>,
    o: int,
    node: Seq<char>,
    p: Seq<char>,
    target: Seq<char>,
    par: spec_fn(Seq<char>) -> Seq<Seq<char>>,
)
    requires
        answers_by(calls, o, par),
        ancestry_queries(calls, o, target, seq![node], 0),
        par(node).contains(p),
        par(p).contains(target),
        p != ROOT_NODE_UUID@,
        p != node,
        par(node).len() < ANCESTRY_LIMIT,
    ensures
        ancestry_walk(calls, o, target, seq![node], 0),
{
    let start = seq![node];
    assert(sent(calls, o, PARENTS_SQL@, seq![Param::Text(start[0])]));
    let parents = parents_of(rows_answer(calls, o));
    assert(parents == par(node));
    lemma_walk_step(start, parents, target);
    let step = walk_step(start, parents, target);
    if !step.0 {
        assert(step.1.contains(p));
        let j = choose|j: int| 0 <= j < step.1.len() && step.1[j] == p;
        assert(step.1[0] == node);
        assert(j >= 1);
        assert(ancestry_queries(calls, o, target, step.1, 1));
        lemma_walk_reaches_queued(calls, o, target, par, step.1, 1, j);
    }
}

} // verus!
