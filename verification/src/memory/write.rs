//! Memory write operations: create, update, delete.
use vstd::prelude::*;

use crate::memory::db::{extends, Db};

use crate::error::{internal, is_internal, AppError};
use crate::memory::db::{Answer, db_execute, text_of, get_int, has_row, id_answer, inserted, int_of, query_one, rows_answer, sent, ColumnKind, is_db_err, map_db_err, params_of, ran, text_param, DbCall, Param, SqlValue};
use crate::memory::graph;
use crate::memory::models::{Edge, Memory, ROOT_NODE_UUID};
use crate::memory::uri::{is_valid_domain, parse_uri, sep, spec_parse_uri, valid_domains, empty_domain_msg};
use crate::text::{occurs_at, chars_of, count_matches, count_matches_exec, dec_nat, find_from, find_seq, push_range, push_u128, lemma_find_from};

verus! {

// ---------------------------------------------------------------------------
// Content editing
// ---------------------------------------------------------------------------

/// `s` with its first occurrence of `p` replaced by `n` (`str::replacen(p, n, 1)`).
pub open spec fn replace_first(s: Seq<char>, p: Seq<char>, n: Seq<char>) -> Seq<char> {
    match find_from(s, p, 0) {
        Some(i) => s.take(i) + n + s.skip(i + p.len()),
        None => s,
    }
}

/// Text of the error for a patch whose `old_string` does not occur.
pub open spec fn not_found_msg() -> Seq<char> {
    "old_string not found in memory content"@
}

/// Text of the error for a patch whose `old_string` occurs `count` times.
pub open spec fn not_unique_msg(count: nat) -> Seq<char> {
    "old_string found "@ + dec_nat(count) + " times, must be unique"@
}

/// `e` is the error that patching `content` (replacing `old`) reports.
pub open spec fn is_patch_error(e: AppError, content: Seq<char>, old: Seq<char>) -> bool {
    let c = count_matches(content, old);
    (c == 0 && is_internal(e, not_found_msg())) || (c > 1 && is_internal(e, not_unique_msg(c)))
}

/// The new content of a memory after an edit.
///
/// In patch mode (`old_string` and `new_string` both given) the single
/// occurrence of `old_string` is replaced; zero or several occurrences are
/// refused. Otherwise in append mode the text is added on a new line.
/// With neither, there is no new content (`Ok(None)`).
pub fn compute_new_content(
    content: &str,
    old_string: Option<&str>,
    new_string: Option<&str>,
    append: Option<&str>,
) -> (r: Result<Option<String>, AppError>)
    ensures
        old_string matches Some(o) ==> new_string matches Some(n) ==> {
            let c = count_matches(content@, o@);
            &&& c == 1 ==> (r matches Ok(Some(s)) && s@ == replace_first(content@, o@, n@))
            &&& c != 1 ==> (r matches Err(e) && is_patch_error(e, content@, o@))
        },
        !(old_string is Some && new_string is Some) ==> match append {
            Some(t) => r matches Ok(Some(s)) && s@ == content@ + seq!['\n'] + t@,
            None => r matches Ok(None),
        },
{
    match (old_string, new_string) {
        (Some(old), Some(new)) => {
            let cv = chars_of(content);
            let ov = chars_of(old);
            let count = count_matches_exec(&cv, &ov);
            if count == 0 {
                let e = internal("old_string not found in memory content");
                assert(is_patch_error(e, content@, old@));
                return Err(e);
            }
            if count > 1 {
                let mut m = String::from_str("old_string found ");
                push_u128(&mut m, count);
                m.append(" times, must be unique");
                assert(m@ == not_unique_msg(count as nat));
                return Err(AppError::Internal(m));
            }
            let mut s = String::new();
            match find_seq(&cv, &ov) {
                Some(i) => {
                    proof {
                        lemma_find_from(cv@, ov@, 0);
                    }
                    assert(occurs_at(cv@, ov@, i as int));
                    assert(i + ov@.len() <= cv@.len());
                    let n = cv.len();
                    let end = i + ov.len();
                    push_range(&mut s, &cv, 0, i);
                    s.append(new);
                    push_range(&mut s, &cv, end, cv.len());
                    assert(cv@.subrange(0, i as int) =~= cv@.take(i as int));
                    assert(cv@.subrange(i + ov@.len(), cv@.len() as int) =~= cv@.skip(
                        i + ov@.len(),
                    ));
                },
                None => {
                    proof {
                        lemma_find_from(cv@, ov@, 0);
                        crate::text::lemma_no_occurrence_no_matches(cv@, ov@);
                    }
                    push_range(&mut s, &cv, 0, cv.len());
                    assert(cv@.subrange(0, cv@.len() as int) =~= cv@);
                },
            }
            Ok(Some(s))
        },
        _ => match append {
            Some(text) => {
                let mut s = String::from_str(content);
                crate::text::push_char(&mut s, '\n');
                s.append(text);
                Ok(Some(s))
            },
            None => Ok(None),
        },
    }
}

// ---------------------------------------------------------------------------
// Create
// ---------------------------------------------------------------------------

/// The path of a child named `name` under `parent` (`""` is the root).
pub open spec fn spec_child_path(parent: Seq<char>, name: Seq<char>) -> Seq<char> {
    if parent.len() == 0 {
        name
    } else {
        parent + seq!['/'] + name
    }
}

pub fn child_path(parent: &str, name: &str) -> (r: String)
    ensures
        r@ == spec_child_path(parent@, name@),
{
    if parent.unicode_len() == 0 {
        String::from_str(name)
    } else {
        let mut r = String::from_str(parent);
        crate::text::push_char(&mut r, '/');
        r.append(name);
        r
    }
}

/// Text of the error for a domain outside the valid ones.
pub open spec fn invalid_domain_msg(d: Seq<char>) -> Seq<char> {
    "Invalid domain: "@ + d
}

/// The path segment of a new memory: its title, or else the new node's id.
pub open spec fn new_name(title: Option<&str>, node: Seq<char>) -> Seq<char> {
    match title {
        Some(t) => t@,
        None => node,
    }
}

/// Where the node creation of `create_memory` comes: after the parent's
/// route lookup when the parent is not the root.
pub open spec fn creation_at(o: int, path: Seq<char>) -> int {
    if path.len() == 0 {
        o
    } else {
        o + 1
    }
}

/// The parent node that a creation under `domain://path` uses: the root for
/// an empty path, else the child node that the route lookup at `o` found.
pub open spec fn creation_parent(calls: Seq<DbCall>, o: int, domain: Seq<char>, path: Seq<char>) -> Seq<char> {
    if path.len() == 0 {
        ROOT_NODE_UUID@
    } else {
        text_of(rows_answer(calls, o)[0][1])
    }
}

/// The record of creating a memory under `domain://path` from statement `o`
/// on: for a non-root parent, its route lookup found it; node `node` was
/// created; `content` inserted as its first version; an edge from the
/// parent to `node` named `new_name(title, node)` created with the given
/// priority and disclosure; and the route of the new path created for that
/// edge; nothing else.
pub open spec fn create_record(
    calls: Seq<DbCall>,
    o: int,
    domain: Seq<char>,
    path: Seq<char>,
    node: Seq<char>,
    content: Seq<char>,
    priority: i32,
    title: Option<&str>,
    disclosure: Option<&str>,
) -> bool {
    &&& (path.len() > 0 ==> sent(calls, o, graph::RESOLVE_PATH_SQL@, graph::route_params(domain, path))
        && has_row(calls, o) && graph::routed_path_row(
        int_of(rows_answer(calls, o)[0][0]),
        text_of(rows_answer(calls, o)[0][1]),
        rows_answer(calls, o)[0],
        domain,
        path,
    ))
    &&& ran(calls, creation_at(o, path), graph::CREATE_NODE_SQL@, seq![Param::Text(node)])
    &&& inserted(
        calls,
        creation_at(o, path) + 1,
        graph::INSERT_MEMORY_SQL@,
        seq![Param::Text(node), Param::Text(content)],
        id_answer(calls, creation_at(o, path) + 2),
    )
    &&& inserted(
        calls,
        creation_at(o, path) + 3,
        graph::CREATE_EDGE_SQL@,
        graph::edge_params(
            creation_parent(calls, o, domain, path),
            node,
            new_name(title, node),
            priority,
            disclosure,
        ),
        id_answer(calls, creation_at(o, path) + 4),
    )
    &&& ran(
        calls,
        creation_at(o, path) + 5,
        graph::CREATE_PATH_SQL@,
        seq![
            Param::Text(domain),
            Param::Text(spec_child_path(path, new_name(title, node))),
            Param::Int(id_answer(calls, creation_at(o, path) + 4)),
        ],
    )
    &&& calls.len() == creation_at(o, path) + 6
}

/// Create a new memory node under a parent URI and return its URI.
///
/// `title` names the new path segment; without it the new node's UUID is
/// used. The new memory's URI is `domain://parent/title` (or
/// `domain://title` under the root).
pub fn create_memory(
    conn: &mut Db,
    parent_uri: &str,
    content: &str,
    priority: i32,
    title: Option<&str>,
    disclosure: Option<&str>,
) -> (r: Result<String, AppError>)
    ensures
        extends(final(conn).calls(), old(conn).calls()),
        match spec_parse_uri(parent_uri@) {
            None => r matches Err(e) && is_internal(e, empty_domain_msg()),
            Some((d, p)) => {
                &&& !valid_domains().contains(d) ==> (r matches Err(e) && is_internal(
                    e,
                    invalid_domain_msg(d),
                ))
                &&& r matches Ok(u) ==> exists|node: Seq<char>|
                    #[trigger] create_record(
                        final(conn).calls(),
                        old(conn).calls().len() as int,
                        d,
                        p,
                        node,
                        content@,
                        priority,
                        title,
                        disclosure,
                    ) && u@ == d + sep() + spec_child_path(p, new_name(title, node))
                &&& r matches Err(e) ==> valid_domains().contains(d) ==> is_db_err(
                    e,
                    "Path not found"@,
                ) || is_db_err(e, "Failed to create node"@) || is_db_err(
                    e,
                    "Failed to insert memory"@,
                ) || is_db_err(e, "Failed to create edge"@) || is_db_err(
                    e,
                    "Failed to create path"@,
                )
            },
        },
{
    let ghost o = conn.calls().len() as int;
    let parsed = parse_uri(parent_uri)?;
    if !is_valid_domain(parsed.domain.as_str()) {
        let mut m = String::from_str("Invalid domain: ");
        m.append(parsed.domain.as_str());
        return Err(AppError::Internal(m));
    }
    let parent_uuid = if parsed.path.as_str().unicode_len() == 0 {
        String::from_str(ROOT_NODE_UUID)
    } else {
        let (_, uuid) = graph::resolve_path(conn, parsed.domain.as_str(), parsed.path.as_str())?;
        uuid
    };
    let ghost c0 = conn.calls();
    assert(c0.len() == creation_at(o, parsed.path@));
    assert(parent_uuid@ == creation_parent(c0, o, parsed.domain@, parsed.path@));
    let node_uuid = graph::create_node(conn)?;
    graph::insert_memory(conn, node_uuid.as_str(), content)?;
    let name: &str = match title {
        Some(t) => t,
        None => node_uuid.as_str(),
    };
    assert(name@ == new_name(title, node_uuid@));
    let edge_id = graph::create_edge(
        conn,
        parent_uuid.as_str(),
        node_uuid.as_str(),
        name,
        priority,
        disclosure,
    )?;
    let ghost c1 = conn.calls();
    assert(id_answer(c1, creation_at(o, parsed.path@) + 4) == edge_id);
    let cp = child_path(parsed.path.as_str(), name);
    graph::create_path(conn, parsed.domain.as_str(), cp.as_str(), edge_id)?;
    let mut uri = parsed.domain.clone();
    uri.append("://");
    uri.append(cp.as_str());
    proof {
        reveal_strlit("://");
        assert(uri@ == parsed.domain@ + sep() + spec_child_path(parsed.path@, name@));
    }
    let ghost fin = conn.calls();
    assert(forall|k: int| 0 <= k < c1.len() ==> fin[k] == c1[k]);
    assert(forall|k: int| 0 <= k < c0.len() ==> fin[k] == c0[k]);
    assert(creation_parent(fin, o, parsed.domain@, parsed.path@) == creation_parent(c0, o, parsed.domain@, parsed.path@));
    assert(create_record(fin, o, parsed.domain@, parsed.path@, node_uuid@, content@, priority, title, disclosure));
    Ok(uri)
}

// ---------------------------------------------------------------------------
// Update
// ---------------------------------------------------------------------------

/// An edit of the content was requested (patch or append).
pub open spec fn content_change_requested(
    old_string: Option<&str>,
    new_string: Option<&str>,
    append: Option<&str>,
) -> bool {
    (old_string is Some && new_string is Some) || append is Some
}

/// The statement that sets an edge's priority and disclosure.
pub const UPDATE_EDGE_SQL: &'static str = "UPDATE edges SET priority = ?1, disclosure = ?2 WHERE id = ?3";

/// The statement that sets an edge's priority.
pub const UPDATE_PRIORITY_SQL: &'static str = "UPDATE edges SET priority = ?1 WHERE id = ?2";

/// The statement that sets an edge's disclosure.
pub const UPDATE_DISCLOSURE_SQL: &'static str = "UPDATE edges SET disclosure = ?1 WHERE id = ?2";

/// The statement (SQL and parameters) that updates the metadata of edge
/// `id`: the priority and disclosure that are given; none when neither is.
pub open spec fn edge_update_plan(priority: Option<i32>, disclosure: Option<&str>, id: i64) -> Option<
    (Seq<char>, Seq<Param>),
> {
    match (priority, disclosure) {
        (Some(p), Some(d)) => Some(
            (UPDATE_EDGE_SQL@, seq![Param::Int(p as i64), Param::Text(d@), Param::Int(id)]),
        ),
        (Some(p), None) => Some((UPDATE_PRIORITY_SQL@, seq![Param::Int(p as i64), Param::Int(id)])),
        (None, Some(d)) => Some((UPDATE_DISCLOSURE_SQL@, seq![Param::Text(d@), Param::Int(id)])),
        (None, None) => None,
    }
}

/// The statement that updates an edge's metadata: its SQL, its parameters
/// (`edge_update_plan`) and the context of its error; none when neither is
/// given.
pub fn edge_update(priority: Option<i32>, disclosure: Option<&str>, edge_id: i64) -> (r: Option<
    (&'static str, Vec<SqlValue>, &'static str),
>)
    ensures
        match r {
            Some((sql, ps, ctx)) => edge_update_plan(priority, disclosure, edge_id) == Some(
                (sql@, params_of(ps@)),
            ) && ctx@ == (if priority is Some {
                "Failed to update edge"@
            } else {
                "Failed to update disclosure"@
            }),
            None => edge_update_plan(priority, disclosure, edge_id) is None,
        },
{
    match (priority, disclosure) {
        (Some(p), Some(d)) => {
            let ps = vec![SqlValue::Integer(p as i64), text_param(d), SqlValue::Integer(edge_id)];
            assert(params_of(ps@) =~= seq![Param::Int(p as i64), Param::Text(d@), Param::Int(edge_id)]);
            Some((UPDATE_EDGE_SQL, ps, "Failed to update edge"))
        },
        (Some(p), None) => {
            let ps = vec![SqlValue::Integer(p as i64), SqlValue::Integer(edge_id)];
            assert(params_of(ps@) =~= seq![Param::Int(p as i64), Param::Int(edge_id)]);
            Some((UPDATE_PRIORITY_SQL, ps, "Failed to update edge"))
        },
        (None, Some(d)) => {
            let ps = vec![text_param(d), SqlValue::Integer(edge_id)];
            assert(params_of(ps@) =~= seq![Param::Text(d@), Param::Int(edge_id)]);
            Some((UPDATE_DISCLOSURE_SQL, ps, "Failed to update disclosure"))
        },
        (None, None) => None,
    }
}

/// The content of the new version of memory content `content`: the patch
/// (one occurrence of `old_string` replaced by `new_string`) when both are
/// given, else `content`, a newline and `append`.
pub open spec fn edited_content(
    content: Seq<char>,
    old_string: Option<&str>,
    new_string: Option<&str>,
    append: Option<&str>,
) -> Seq<char> {
    if old_string is Some && new_string is Some {
        replace_first(content, old_string->0@, new_string->0@)
    } else {
        content + seq!['\n'] + append->0@
    }
}

/// The statement that retires a memory version in favour of its successor.
pub const DEPRECATE_SQL: &'static str = "UPDATE memories SET deprecated = 1, migrated_to = ?1 WHERE id = ?2";

/// The record of an update of `domain://path`, starting at statement `o`:
/// the route lookup found edge `e`; the metadata statement of `e` ran when
/// there is one; then, for a content change, the active memory `m` of `e`'s
/// node was read, its edited content inserted as a new version `new_id` of
/// that node, and `m` retired with `new_id` as its successor; nothing else.
pub open spec fn update_record(
    calls: Seq<DbCall>,
    o: int,
    domain: Seq<char>,
    path: Seq<char>,
    e: Edge,
    old_string: Option<&str>,
    new_string: Option<&str>,
    append: Option<&str>,
    priority: Option<i32>,
    disclosure: Option<&str>,
) -> bool {
    &&& graph::edge_found(calls, o, domain, path, e)
    &&& (edge_update_plan(priority, disclosure, e.id) matches Some((sql, ps)) ==> ran(
        calls,
        o + 1,
        sql,
        ps,
    ))
    &&& !content_change_requested(old_string, new_string, append) ==> calls.len() == content_at(
        o,
        priority,
        disclosure,
    )
    &&& content_change_requested(old_string, new_string, append) ==> memory_replaced(
        calls,
        content_at(o, priority, disclosure),
        e.child_uuid@,
        old_string,
        new_string,
        append,
    )
}

/// Where the content statements of an update start: after the route lookup
/// and the metadata statement, if any.
pub open spec fn content_at(o: int, priority: Option<i32>, disclosure: Option<&str>) -> int {
    if priority is Some || disclosure is Some {
        o + 2
    } else {
        o + 1
    }
}

/// From statement `at` on, the active memory `m` of `node` was read, its
/// edited content inserted as a new version of `node`, and `m` retired with
/// that version as its successor; nothing after.
pub open spec fn memory_replaced(
    calls: Seq<DbCall>,
    at: int,
    node: Seq<char>,
    old_string: Option<&str>,
    new_string: Option<&str>,
    append: Option<&str>,
) -> bool {
    exists|m: Memory|
        #[trigger] graph::memory_found(calls, at, node, m) && inserted(
            calls,
            at + 1,
            graph::INSERT_MEMORY_SQL@,
            seq![Param::Text(node), Param::Text(edited_content(m.content@, old_string, new_string, append))],
            id_answer(calls, at + 2),
        ) && ran(
            calls,
            at + 3,
            DEPRECATE_SQL@,
            seq![Param::Int(id_answer(calls, at + 2)), Param::Int(m.id)],
        ) && calls.len() == at + 4
}

/// The new version of a memory: from the active memory `found` of the node
/// that `uri` reaches, the edited content and the id of the version it
/// replaces; an error where the node has no active memory or the patch is
/// refused.
pub fn next_version(
    uri: &str,
    found: Option<Memory>,
    old_string: Option<&str>,
    new_string: Option<&str>,
    append: Option<&str>,
) -> (r: Result<(String, i64), AppError>)
    requires
        content_change_requested(old_string, new_string, append),
    ensures
        match found {
            None => r matches Err(e) && is_internal(e, "No active memory for "@ + uri@),
            Some(m) => if old_string is Some && new_string is Some {
                let o = old_string->0@;
                let c = count_matches(m.content@, o);
                &&& c == 1 ==> (r matches Ok((s, id)) && id == m.id && s@ == replace_first(
                    m.content@,
                    o,
                    new_string->0@,
                ))
                &&& c != 1 ==> (r matches Err(e) && is_patch_error(e, m.content@, o))
            } else {
                r matches Ok((s, id)) && id == m.id && s@ == m.content@ + seq!['\n']
                    + append->0@
            },
        },
{
    let mem = match found {
        Some(m) => m,
        None => {
            let mut msg = String::from_str("No active memory for ");
            msg.append(uri);
            return Err(AppError::Internal(msg));
        },
    };
    match compute_new_content(mem.content.as_str(), old_string, new_string, append) {
        Ok(Some(c)) => Ok((c, mem.id)),
        Ok(None) => Err(AppError::Internal(String::new())),
        Err(e) => Err(e),
    }
}

/// The errors that `update_memory` can report for a URI that parses.
pub open spec fn is_update_error(
    e: AppError,
    uri: Seq<char>,
    old_string: Option<&str>,
    new_string: Option<&str>,
) -> bool {
    ||| is_db_err(e, "Edge not found"@)
    ||| is_db_err(e, "Failed to update edge"@)
    ||| is_db_err(e, "Failed to update disclosure"@)
    ||| is_db_err(e, "Failed to get memory"@)
    ||| is_internal(e, "No active memory for "@ + uri)
    ||| (old_string matches Some(o) && new_string is Some && exists|c: Seq<char>|
        #[trigger] is_patch_error(e, c, o@))
    ||| is_db_err(e, "Failed to insert memory"@)
    ||| is_db_err(e, "Failed to deprecate old memory"@)
}

/// Update an existing memory's content or metadata.
///
/// Metadata (priority, disclosure) is updated on the memory's edge. Content
/// editing supports patch mode (`old_string`/`new_string`) and append mode
/// (`append`); the edited content becomes a new memory version and the old
/// one is marked deprecated, pointing to the new one.
pub fn update_memory(
    conn: &mut Db,
    uri: &str,
    old_string: Option<&str>,
    new_string: Option<&str>,
    append: Option<&str>,
    priority: Option<i32>,
    disclosure: Option<&str>,
) -> (r: Result<String, AppError>)
    ensures
        extends(final(conn).calls(), old(conn).calls()),
        spec_parse_uri(uri@) is None ==> (r matches Err(e) && is_internal(e, empty_domain_msg())),
        spec_parse_uri(uri@) is Some ==> (r matches Err(e) ==> is_update_error(
            e,
            uri@,
            old_string,
            new_string,
        )),
        r matches Ok(m) ==> if content_change_requested(old_string, new_string, append) {
            m@ == "Updated "@ + uri@
        } else {
            m@ == "Updated metadata for "@ + uri@
        },
        r is Ok ==> (spec_parse_uri(uri@) matches Some((d, p)) && exists|e: Edge|
            #[trigger] update_record(
                final(conn).calls(),
                old(conn).calls().len() as int,
                d,
                p,
                e,
                old_string,
                new_string,
                append,
                priority,
                disclosure,
            )),
{
    let ghost o = conn.calls().len() as int;
    let parsed = parse_uri(uri)?;
    let edge = graph::resolve_edge(conn, parsed.domain.as_str(), parsed.path.as_str())?;
    let ghost plan = edge_update_plan(priority, disclosure, edge.id);
    if let Some((sql, params, ctx)) = edge_update(priority, disclosure, edge.id) {
        if let Err(e) = db_execute(conn, sql, &params) {
            return Err(map_db_err(ctx, &e));
        }
    }
    let ghost at = conn.calls().len() as int;
    assert(at == if plan is Some { o + 2 } else { o + 1 });
    assert(graph::edge_found(conn.calls(), o, parsed.domain@, parsed.path@, edge));
    assert(plan matches Some((sql, ps)) ==> ran(conn.calls(), o + 1, sql, ps));
    let has_content_change = (old_string.is_some() && new_string.is_some()) || append.is_some();
    if !has_content_change {
        let mut m = String::from_str("Updated metadata for ");
        m.append(uri);
        assert(update_record(conn.calls(), o, parsed.domain@, parsed.path@, edge, old_string, new_string, append, priority, disclosure));
        return Ok(m);
    }
    let found = graph::get_active_memory(conn, edge.child_uuid.as_str())?;
    let (new_content, old_id) = match next_version(uri, found, old_string, new_string, append) {
        Ok(v) => v,
        Err(e) => {
            proof {
                if old_string is Some && new_string is Some && !is_internal(
                    e,
                    "No active memory for "@ + uri@,
                ) {
                    let m = found->0;
                    assert(is_patch_error(e, m.content@, old_string->0@));
                }
            }
            return Err(e);
        },
    };
    let ghost mem = found->0;
    assert(graph::memory_found(conn.calls(), at, edge.child_uuid@, mem));
    assert(old_id == mem.id);
    assert(new_content@ == edited_content(mem.content@, old_string, new_string, append));
    let ghost before_insert = conn.calls();
    let new_id = graph::insert_memory(conn, edge.child_uuid.as_str(), new_content.as_str())?;
    let ghost after_insert = conn.calls();
    assert(inserted(
        after_insert,
        at + 1,
        graph::INSERT_MEMORY_SQL@,
        seq![Param::Text(edge.child_uuid@), Param::Text(new_content@)],
        new_id,
    ));
    assert(id_answer(after_insert, at + 2) == new_id);
    let params = vec![SqlValue::Integer(new_id), SqlValue::Integer(old_id)];
    assert(params_of(params@) =~= seq![Param::Int(new_id), Param::Int(old_id)]);
    if let Err(e) = db_execute(conn, DEPRECATE_SQL, &params) {
        return Err(map_db_err("Failed to deprecate old memory", &e));
    }
    let mut m = String::from_str("Updated ");
    m.append(uri);
    let ghost fin = conn.calls();
    assert(fin[at + 1] == after_insert[at + 1] && fin[at + 2] == after_insert[at + 2]);
    assert(fin[at] == before_insert[at]);
    assert(inserted(
        fin,
        at + 1,
        graph::INSERT_MEMORY_SQL@,
        seq![Param::Text(edge.child_uuid@), Param::Text(edited_content(mem.content@, old_string, new_string, append))],
        id_answer(fin, at + 2),
    ));
    assert(ran(fin, at + 3, DEPRECATE_SQL@, seq![Param::Int(id_answer(fin, at + 2)), Param::Int(mem.id)]));
    assert(graph::edge_found(fin, o, parsed.domain@, parsed.path@, edge));
    assert(graph::memory_found(fin, at, edge.child_uuid@, mem));
    assert(plan matches Some((sql, ps)) ==> ran(fin, o + 1, sql, ps));
    assert(fin.len() == at + 4);
    assert(update_record(conn.calls(), o, parsed.domain@, parsed.path@, edge, old_string, new_string, append, priority, disclosure));
    Ok(m)
}

// ---------------------------------------------------------------------------
// Delete
// ---------------------------------------------------------------------------

/// Text of the error for a deletion that would orphan `n` children.
pub open spec fn orphan_msg(uri: Seq<char>, n: nat) -> Seq<char> {
    "Cannot delete "@ + uri + ": has "@ + dec_nat(n) + " children that would become orphaned"@
}

/// The refusal of a deletion that would orphan the `children` children of a
/// node that `aliases` paths reach: refused when it has children and no other
/// path reaches it.
pub fn deletion_refusal(uri: &str, children: usize, aliases: i64) -> (r: Option<AppError>)
    ensures
        (children > 0 && aliases <= 1) ==> (r matches Some(e) && is_internal(
            e,
            orphan_msg(uri@, children as nat),
        )),
        !(children > 0 && aliases <= 1) ==> r is None,
{
    if children > 0 && aliases <= 1 {
        let mut m = String::from_str("Cannot delete ");
        m.append(uri);
        m.append(": has ");
        push_u128(&mut m, children as u128);
        m.append(" children that would become orphaned");
        assert(m@ == orphan_msg(uri@, children as nat));
        Some(AppError::Internal(m))
    } else {
        None
    }
}

/// The prefix of every path below `path`: the path and a `/`.
pub fn subtree_prefix(path: &str) -> (r: String)
    ensures
        r@ == path@ + seq!['/'],
{
    let mut r = String::from_str(path);
    crate::text::push_char(&mut r, '/');
    r
}

/// The statement that removes a route and the routes below it (those whose
/// path starts with the route's path and a `/`; the prefix is compared
/// exactly, where SQL `LIKE` would also read `_` and `%` as wildcards and
/// ignore ASCII case).
pub const DELETE_PATHS_SQL: &'static str = "DELETE FROM paths WHERE domain = ?1 AND (path = ?2 OR substr(path, 1, length(?3)) = ?3)";

/// The query that counts the routes still using an edge.
pub const EDGE_ROUTES_SQL: &'static str = "SELECT COUNT(*) FROM paths WHERE edge_id = ?1";

/// The statement that removes an edge.
pub const DELETE_EDGE_SQL: &'static str = "DELETE FROM edges WHERE id = ?1";

/// The query that counts the edges still reaching a node.
pub const NODE_EDGES_SQL: &'static str = "SELECT COUNT(*) FROM edges WHERE child_uuid = ?1";

/// The statement that retires the active memory of a node.
pub const RETIRE_NODE_SQL: &'static str = "UPDATE memories SET deprecated = 1 WHERE node_uuid = ?1 AND deprecated = 0";

/// Nothing uses a row any more: the count of its users is 0.
pub fn unused(count: i64) -> (r: bool)
    ensures
        r == (count == 0),
{
    count == 0
}

/// The count that query `i` of `calls` answered in its first row.
pub open spec fn count_answer(calls: Seq<DbCall>, i: int) -> i64 {
    int_of(rows_answer(calls, i)[0][0])
}

/// Where the node's edge count is queried: after the route removal, the
/// edge's route count and, when the edge was unused, its removal.
pub open spec fn node_count_at(calls: Seq<DbCall>, o: int) -> int {
    if count_answer(calls, o + 1) == 0 {
        o + 3
    } else {
        o + 2
    }
}

/// The record of the deletion statements from statement `o` on: the route
/// and the routes below it removed; the routes still using `edge_id`
/// counted, and the edge removed when none is left; the edges still
/// reaching `node` counted, and its active memory retired when none is left;
/// nothing else.
pub open spec fn deletion_record(
    calls: Seq<DbCall>,
    o: int,
    domain: Seq<char>,
    path: Seq<char>,
    edge_id: i64,
    node: Seq<char>,
) -> bool {
    &&& ran(
        calls,
        o,
        DELETE_PATHS_SQL@,
        seq![Param::Text(domain), Param::Text(path), Param::Text(path + seq!['/'])],
    )
    &&& sent(calls, o + 1, EDGE_ROUTES_SQL@, seq![Param::Int(edge_id)])
    &&& has_row(calls, o + 1)
    &&& (count_answer(calls, o + 1) == 0 ==> ran(calls, o + 2, DELETE_EDGE_SQL@, seq![Param::Int(edge_id)]))
    &&& sent(calls, node_count_at(calls, o), NODE_EDGES_SQL@, seq![Param::Text(node)])
    &&& has_row(calls, node_count_at(calls, o))
    &&& (count_answer(calls, node_count_at(calls, o)) == 0 ==> ran(
        calls,
        node_count_at(calls, o) + 1,
        RETIRE_NODE_SQL@,
        seq![Param::Text(node)],
    ))
    &&& calls.len() == node_count_at(calls, o) + 1 + (if count_answer(calls, node_count_at(calls, o)) == 0 {
        1int
    } else {
        0int
    })
}

/// Where the deletion statements start: after the route lookup, the
/// children query and, when there are children, the route count.
pub open spec fn deletion_at(o: int, children: nat) -> int {
    if children > 0 {
        o + 3
    } else {
        o + 2
    }
}

/// The record of deleting `domain://path` from statement `o` on: the route
/// lookup found edge `e`, the children query answered `c` for its node; when
/// there are children, the count of routes to the node is above 1; then the
/// deletion statements for `e`.
pub open spec fn delete_record(
    calls: Seq<DbCall>,
    o: int,
    domain: Seq<char>,
    path: Seq<char>,
    e: Edge,
    c: Seq<(Edge, Option<Memory>)>,
) -> bool {
    &&& graph::edge_found(calls, o, domain, path, e)
    &&& graph::children_found(calls, o + 1, e.child_uuid@, c)
    &&& (c.len() > 0 ==> sent(calls, o + 2, graph::COUNT_ALIASES_SQL@, seq![Param::Text(e.child_uuid@)])
        && has_row(calls, o + 2) && count_answer(calls, o + 2) > 1)
    &&& deletion_record(calls, deletion_at(o, c.len()), domain, path, e.id, e.child_uuid@)
}

/// Delete a memory path (and every path below it) and garbage-collect the
/// edge and the node's memories once nothing points to them.
///
/// A node with children is deleted only while another path still reaches it
/// (`deletion_refusal`).
pub fn delete_memory(conn: &mut Db, uri: &str) -> (r: Result<String, AppError>)
    ensures
        extends(final(conn).calls(), old(conn).calls()),
        spec_parse_uri(uri@) is None ==> (r matches Err(e) && is_internal(e, empty_domain_msg())),
        spec_parse_uri(uri@) is Some ==> (r matches Err(e) ==> {
            ||| is_db_err(e, "Edge not found"@)
            ||| is_db_err(e, "Failed to get children"@)
            ||| is_db_err(e, "Failed to count aliases"@)
            ||| exists|n: nat| n > 0 && is_internal(e, #[trigger] orphan_msg(uri@, n))
            ||| is_db_err(e, "Failed to delete memory"@)
        }),
        r matches Ok(m) ==> m@ == "Deleted "@ + uri@,
        r is Ok ==> (spec_parse_uri(uri@) matches Some((d, p)) && exists|e: Edge, c: Seq<(Edge, Option<Memory>)>|
            #[trigger] delete_record(final(conn).calls(), old(conn).calls().len() as int, d, p, e, c)),
{
    let ghost o = conn.calls().len() as int;
    let parsed = parse_uri(uri)?;
    let edge = graph::resolve_edge(conn, parsed.domain.as_str(), parsed.path.as_str())?;
    let children = graph::get_children(conn, edge.child_uuid.as_str())?;
    if children.len() > 0 {
        let aliases = graph::count_aliases(conn, edge.child_uuid.as_str())?;
        if let Some(e) = deletion_refusal(uri, children.len(), aliases) {
            return Err(e);
        }
    }
    let ghost at = conn.calls().len() as int;
    assert(at == deletion_at(o, children@.len()));
    match delete_rows(conn, parsed.domain.as_str(), parsed.path.as_str(), edge.id, edge.child_uuid.as_str()) {
        Ok(()) => {},
        Err(e) => return Err(map_db_err("Failed to delete memory", &e)),
    }
    let mut m = String::from_str("Deleted ");
    m.append(uri);
    let ghost fin = conn.calls();
    assert(graph::edge_found(fin, o, parsed.domain@, parsed.path@, edge));
    assert(graph::children_found(fin, o + 1, edge.child_uuid@, children@));
    assert(delete_record(fin, o, parsed.domain@, parsed.path@, edge, children@));
    Ok(m)
}

/// The statements of a deletion: remove the path and the paths below it,
/// then count the routes still using the edge and remove it when none is
/// left, then count the edges still reaching the node and retire its active
/// memory when none is left (`deletion_record`).
fn delete_rows(
    conn: &mut Db,
    domain: &str,
    path: &str,
    edge_id: i64,
    child_uuid: &str,
) -> (r: Result<(), rusqlite::Error>)
    ensures
        extends(final(conn).calls(), old(conn).calls()),
        r is Ok ==> deletion_record(final(conn).calls(), old(conn).calls().len() as int, domain@, path@, edge_id, child_uuid@),
{
    let ghost o = conn.calls().len() as int;
    let prefix = subtree_prefix(path);
    let params = vec![text_param(domain), text_param(path), SqlValue::Text(prefix)];
    assert(params_of(params@) =~= seq![Param::Text(domain@), Param::Text(path@), Param::Text(path@ + seq!['/'])]);
    db_execute(conn, DELETE_PATHS_SQL, &params)?;
    let kinds = vec![ColumnKind::Int];
    let params = vec![SqlValue::Integer(edge_id)];
    assert(params_of(params@) =~= seq![Param::Int(edge_id)]);
    let row = query_one(conn, EDGE_ROUTES_SQL, &params, &kinds)?;
    if unused(get_int(&row, 0)) {
        db_execute(conn, DELETE_EDGE_SQL, &params)?;
    }
    let ghost mid = conn.calls();
    assert(node_count_at(mid, o) == mid.len());
    let params = vec![text_param(child_uuid)];
    assert(params_of(params@) =~= seq![Param::Text(child_uuid@)]);
    let row = query_one(conn, NODE_EDGES_SQL, &params, &kinds)?;
    if unused(get_int(&row, 0)) {
        db_execute(conn, RETIRE_NODE_SQL, &params)?;
    }
    let ghost fin = conn.calls();
    assert(fin[o] == mid[o] && fin[o + 1] == mid[o + 1]);
    assert(count_answer(fin, o + 1) == count_answer(mid, o + 1));
    assert(node_count_at(fin, o) == node_count_at(mid, o));
    assert(deletion_record(fin, o, domain@, path@, edge_id, child_uuid@));
    Ok(())
}

} // verus!

verus! {

/// A successful patch replaces exactly one occurrence: the old content is
/// `pre + old + suf` and the new content is `pre + new + suf`.
pub proof fn lemma_patch_replaces_occurrence(content: Seq<char>, old: Seq<char>, new: Seq<char>)
    requires
        count_matches(content, old) == 1,
    ensures
        exists|pre: Seq<char>, suf: Seq<char>|
            content == pre + old + suf && #[trigger] replace_first(content, old, new) == pre + new
                + suf,
{
    lemma_find_from(content, old, 0);
    match find_from(content, old, 0) {
        Some(i) => {
            let pre = content.take(i);
            let suf = content.skip(i + old.len());
            assert(pre + old + suf =~= content);
            assert(replace_first(content, old, new) == pre + new + suf);
        },
        None => {
            crate::text::lemma_no_occurrence_no_matches(content, old);
        },
    }
}

/// Appending keeps the old content as a prefix, then a newline and the text.
pub proof fn lemma_append_keeps_content(content: Seq<char>, text: Seq<char>)
    ensures
        (content + seq!['\n'] + text).take(content.len() as int) == content,
        (content + seq!['\n'] + text).skip(content.len() as int + 1) == text,
{
    assert((content + seq!['\n'] + text).take(content.len() as int) =~= content);
    assert((content + seq!['\n'] + text).skip(content.len() as int + 1) =~= text);
}

/// A child's path lies under its parent's: the parent's path, a `/`, then
/// the name (or just the name under the root).
pub proof fn lemma_child_path_under_parent(parent: Seq<char>, name: Seq<char>)
    ensures
        parent.len() > 0 ==> spec_child_path(parent, name).take(parent.len() as int) == parent
            && spec_child_path(parent, name)[parent.len() as int] == '/'
            && spec_child_path(parent, name).skip(parent.len() as int + 1) == name,
        parent.len() == 0 ==> spec_child_path(parent, name) == name,
{
    if parent.len() > 0 {
        let c = parent + seq!['/'] + name;
        assert(c.take(parent.len() as int) =~= parent);
        assert(c.skip(parent.len() as int + 1) =~= name);
    }
}

} // verus!

verus! {

// ---------------------------------------------------------------------------
// The memories table and the version chain
// ---------------------------------------------------------------------------

/// A row of the memories table: the node it belongs to, its content, whether
/// it is deprecated and the version that replaced it.
pub struct MemoryRow {
    pub node: Seq<char>,
    pub content: Seq<char>,
    pub deprecated: bool,
    pub migrated_to: Option<i64>,
}

/// What a statement does to the memories table, by rowid: the memory
/// insertion, when it ran, adds an active row for its node and content under
/// the rowid it was given (`new_id`); the deprecation, when it ran, marks its
/// second parameter's row deprecated and pointing to its first; a failed
/// statement, a query and any other statement leave the table as it is.
pub open spec fn memory_effect(t: Map<i64, MemoryRow>, c: DbCall, new_id: i64) -> Map<i64, MemoryRow> {
    if !(c.answer matches Answer::Changed(Some(_))) {
        t
    } else if c.sql == graph::INSERT_MEMORY_SQL@ && c.params.len() == 2 && c.params[0] is Text
        && c.params[1] is Text {
        t.insert(
            new_id,
            MemoryRow {
                node: c.params[0]->Text_0,
                content: c.params[1]->Text_0,
                deprecated: false,
                migrated_to: None,
            },
        )
    } else if c.sql == DEPRECATE_SQL@ && c.params.len() == 2 && c.params[0] is Int
        && c.params[1] is Int && t.contains_key(c.params[1]->Int_0) {
        let old_id = c.params[1]->Int_0;
        t.insert(old_id, MemoryRow { deprecated: true, migrated_to: Some(c.params[0]->Int_0), ..t[old_id] })
    } else {
        t
    }
}

/// The memories table after the content statements of an update that start
/// at statement `at`: the insertion (given the rowid read back after it),
/// then the deprecation.
pub open spec fn after_content_update(t: Map<i64, MemoryRow>, calls: Seq<DbCall>, at: int) -> Map<
    i64,
    MemoryRow,
> {
    memory_effect(memory_effect(t, calls[at + 1], id_answer(calls, at + 2)), calls[at + 3], 0)
}

/// Every node has at most one active (non-deprecated) memory.
pub open spec fn one_active(t: Map<i64, MemoryRow>) -> bool {
    forall|i: i64, j: i64|
        #![trigger t[i], t[j]]
        t.contains_key(i) && t.contains_key(j) && !t[i].deprecated && !t[j].deprecated && t[i].node
            == t[j].node ==> i == j
}

/// The version chain of an update: where the memories table held at most
/// one active memory per node, and the memory the update read is the active
/// one of its node, the statements that `update_memory` sent for a content
/// change leave at most one active memory per node; the new version is the
/// active one, with the edited content; the old version is deprecated and
/// points to the new one; every other row is unchanged.
pub proof fn lemma_update_version_chain(
    calls: Seq<DbCall>,
    o: int,
    domain: Seq<char>,
    path: Seq<char>,
    e: Edge,
    m: Memory,
    t: Map<i64, MemoryRow>,
    old_string: Option<&str>,
    new_string: Option<&str>,
    append: Option<&str>,
    priority: Option<i32>,
    disclosure: Option<&str>,
)
    requires
        update_record(calls, o, domain, path, e, old_string, new_string, append, priority, disclosure),
        content_change_requested(old_string, new_string, append),
        graph::memory_found(calls, content_at(o, priority, disclosure), e.child_uuid@, m),
        one_active(t),
        t.contains_key(m.id),
        t[m.id].node == e.child_uuid@,
        !t[m.id].deprecated,
        !t.contains_key(id_answer(calls, content_at(o, priority, disclosure) + 2)),
    ensures
        ({
            let at = content_at(o, priority, disclosure);
            let new_id = id_answer(calls, at + 2);
            let t2 = after_content_update(t, calls, at);
            &&& memories_after(t, calls, o, calls.len() as int) == t2
            &&& one_active(t2)
            &&& t2.contains_key(new_id)
            &&& t2[new_id] == MemoryRow {
                node: e.child_uuid@,
                content: edited_content(m.content@, old_string, new_string, append),
                deprecated: false,
                migrated_to: None,
            }
            &&& t2.contains_key(m.id)
            &&& t2[m.id] == MemoryRow { deprecated: true, migrated_to: Some(new_id), ..t[m.id] }
            &&& forall|k: i64|
                k != m.id && k != new_id ==> (#[trigger] t2.contains_key(k) == t.contains_key(k)) && (
                t.contains_key(k) ==> t2[k] == t[k])
        }),
{
    let at = content_at(o, priority, disclosure);
    let node = e.child_uuid@;
    let new_id = id_answer(calls, at + 2);
    let w = choose|w: Memory| #[trigger]
        graph::memory_found(calls, at, node, w) && inserted(
            calls,
            at + 1,
            graph::INSERT_MEMORY_SQL@,
            seq![Param::Text(node), Param::Text(edited_content(w.content@, old_string, new_string, append))],
            id_answer(calls, at + 2),
        ) && ran(calls, at + 3, DEPRECATE_SQL@, seq![Param::Int(id_answer(calls, at + 2)), Param::Int(w.id)])
            && calls.len() == at + 4;
    assert(w.id == m.id && w.content@ == m.content@);
    lemma_update_statements_differ();
    assert(memories_after(t, calls, o, o) == t);
    assert(memories_after(t, calls, o, o + 1) == t);
    if priority is Some || disclosure is Some {
        assert(memories_after(t, calls, o, o + 2) == t);
    }
    assert(memories_after(t, calls, o, at) == t);
    assert(memories_after(t, calls, o, at + 1) == t);
    assert(memories_after(t, calls, o, at + 2) == memory_effect(t, calls[at + 1], id_answer(calls, at + 2)));
    assert(memories_after(t, calls, o, at + 3) == memories_after(t, calls, o, at + 2));
    assert(memories_after(t, calls, o, at + 4) == after_content_update(t, calls, at));
    reveal_strlit("INSERT INTO memories (node_uuid, content) VALUES (?1, ?2)");
    reveal_strlit("UPDATE memories SET deprecated = 1, migrated_to = ?1 WHERE id = ?2");
    assert(DEPRECATE_SQL@ != graph::INSERT_MEMORY_SQL@) by {
        assert(DEPRECATE_SQL@[0] != graph::INSERT_MEMORY_SQL@[0]);
    }
    let content = edited_content(m.content@, old_string, new_string, append);
    let row = MemoryRow { node, content, deprecated: false, migrated_to: None };
    let t1 = memory_effect(t, calls[at + 1], new_id);
    assert(t1 == t.insert(new_id, row));
    assert(m.id != new_id);
    assert(t1.contains_key(m.id));
    let t2 = after_content_update(t, calls, at);
    assert(t2 == t1.insert(m.id, MemoryRow { deprecated: true, migrated_to: Some(new_id), ..t[m.id] }));
    assert forall|i: i64, j: i64|
        #![trigger t2[i], t2[j]]
        t2.contains_key(i) && t2.contains_key(j) && !t2[i].deprecated && !t2[j].deprecated
            && t2[i].node == t2[j].node implies i == j by {
        if i == new_id && j != new_id {
            assert(t[j] == t2[j]);
            assert(t[j].node == node && !t[j].deprecated);
            assert(t[m.id].node == t[j].node);
            assert(t[m.id] == t[m.id] && t[j] == t[j]);
            assert(j == m.id);
        } else if j == new_id && i != new_id {
            assert(t[i] == t2[i]);
            assert(t[m.id].node == t[i].node);
            assert(i == m.id);
        } else if i != new_id && j != new_id {
            assert(t[i] == t2[i] && t[j] == t2[j]);
        }
    }
}


/// An edge's metadata: its priority and disclosure.
pub struct EdgeMeta {
    pub priority: i64,
    pub disclosure: Option<Seq<char>>,
}

/// What a statement does to the edges' metadata, by edge id: the three
/// metadata statements, when they ran, set what they name of their edge;
/// any other statement leaves the metadata as it is.
pub open spec fn edge_effect(t: Map<i64, EdgeMeta>, c: DbCall) -> Map<i64, EdgeMeta> {
    if c.answer matches Answer::Changed(Some(_)) {
        if c.sql == UPDATE_EDGE_SQL@ && c.params.len() == 3 && c.params[0] is Int && c.params[1] is Text
            && c.params[2] is Int && t.contains_key(c.params[2]->Int_0) {
            t.insert(
                c.params[2]->Int_0,
                EdgeMeta { priority: c.params[0]->Int_0, disclosure: Some(c.params[1]->Text_0) },
            )
        } else if c.sql == UPDATE_PRIORITY_SQL@ && c.params.len() == 2 && c.params[0] is Int
            && c.params[1] is Int && t.contains_key(c.params[1]->Int_0) {
            let id = c.params[1]->Int_0;
            t.insert(id, EdgeMeta { priority: c.params[0]->Int_0, ..t[id] })
        } else if c.sql == UPDATE_DISCLOSURE_SQL@ && c.params.len() == 2 && c.params[0] is Text
            && c.params[1] is Int && t.contains_key(c.params[1]->Int_0) {
            let id = c.params[1]->Int_0;
            t.insert(id, EdgeMeta { disclosure: Some(c.params[0]->Text_0), ..t[id] })
        } else {
            t
        }
    } else {
        t
    }
}

/// The edges' metadata after statements `from` to `to` (excluded), in order.
pub open spec fn edges_after(t: Map<i64, EdgeMeta>, calls: Seq<DbCall>, from: int, to: int) -> Map<i64, EdgeMeta>
    decreases to - from,
{
    if to <= from {
        t
    } else {
        edge_effect(edges_after(t, calls, from, to - 1), calls[to - 1])
    }
}

/// The memories table after statements `from` to `to` (excluded), in order,
/// each insertion given the rowid read back right after it.
pub open spec fn memories_after(t: Map<i64, MemoryRow>, calls: Seq<DbCall>, from: int, to: int) -> Map<
    i64,
    MemoryRow,
>
    decreases to - from,
{
    if to <= from {
        t
    } else {
        memory_effect(memories_after(t, calls, from, to - 1), calls[to - 1], id_answer(calls, to))
    }
}

proof fn lemma_update_statements_differ()
    ensures
        UPDATE_EDGE_SQL@ != UPDATE_PRIORITY_SQL@,
        UPDATE_EDGE_SQL@ != UPDATE_DISCLOSURE_SQL@,
        UPDATE_PRIORITY_SQL@ != UPDATE_DISCLOSURE_SQL@,
        UPDATE_EDGE_SQL@ != graph::INSERT_MEMORY_SQL@,
        UPDATE_PRIORITY_SQL@ != graph::INSERT_MEMORY_SQL@,
        UPDATE_DISCLOSURE_SQL@ != graph::INSERT_MEMORY_SQL@,
        UPDATE_EDGE_SQL@ != DEPRECATE_SQL@,
        UPDATE_PRIORITY_SQL@ != DEPRECATE_SQL@,
        UPDATE_DISCLOSURE_SQL@ != DEPRECATE_SQL@,
        graph::RESOLVE_EDGE_SQL@ != graph::INSERT_MEMORY_SQL@,
        graph::RESOLVE_EDGE_SQL@ != DEPRECATE_SQL@,
{
    reveal_strlit("SELECT e.id, e.parent_uuid, e.child_uuid, e.name, e.priority, e.disclosure, e.created_at, p.domain, p.path FROM paths p JOIN edges e ON p.edge_id = e.id WHERE p.domain = ?1 AND p.path = ?2");
    reveal_strlit("UPDATE edges SET priority = ?1, disclosure = ?2 WHERE id = ?3");
    reveal_strlit("UPDATE edges SET priority = ?1 WHERE id = ?2");
    reveal_strlit("UPDATE edges SET disclosure = ?1 WHERE id = ?2");
    reveal_strlit("INSERT INTO memories (node_uuid, content) VALUES (?1, ?2)");
    reveal_strlit("UPDATE memories SET deprecated = 1, migrated_to = ?1 WHERE id = ?2");
    assert(UPDATE_EDGE_SQL@[30] != UPDATE_PRIORITY_SQL@[30]);
    assert(UPDATE_EDGE_SQL@[17] != UPDATE_DISCLOSURE_SQL@[17]);
    assert(UPDATE_PRIORITY_SQL@[17] != UPDATE_DISCLOSURE_SQL@[17]);
    assert(UPDATE_EDGE_SQL@[0] != graph::INSERT_MEMORY_SQL@[0]);
    assert(UPDATE_PRIORITY_SQL@[0] != graph::INSERT_MEMORY_SQL@[0]);
    assert(UPDATE_DISCLOSURE_SQL@[0] != graph::INSERT_MEMORY_SQL@[0]);
    assert(UPDATE_EDGE_SQL@[7] != DEPRECATE_SQL@[7]);
    assert(UPDATE_PRIORITY_SQL@[7] != DEPRECATE_SQL@[7]);
    assert(UPDATE_DISCLOSURE_SQL@[7] != DEPRECATE_SQL@[7]);
    assert(graph::RESOLVE_EDGE_SQL@[0] != graph::INSERT_MEMORY_SQL@[0]);
    assert(graph::RESOLVE_EDGE_SQL@[0] != DEPRECATE_SQL@[0]);
}

/// A metadata update: the statements that `update_memory` recorded without
/// a content change set the routed edge's priority to the given one (else
/// keep it) and its disclosure to the given one (else keep it); every other
/// edge and the whole memories table are unchanged.
pub proof fn lemma_metadata_update(
    calls: Seq<DbCall>,
    o: int,
    domain: Seq<char>,
    path: Seq<char>,
    e: Edge,
    t: Map<i64, EdgeMeta>,
    mems: Map<i64, MemoryRow>,
    old_string: Option<&str>,
    new_string: Option<&str>,
    append: Option<&str>,
    priority: Option<i32>,
    disclosure: Option<&str>,
)
    requires
        update_record(calls, o, domain, path, e, old_string, new_string, append, priority, disclosure),
        !content_change_requested(old_string, new_string, append),
        t.contains_key(e.id),
    ensures
        ({
            let t2 = edges_after(t, calls, o, calls.len() as int);
            &&& t2.contains_key(e.id)
            &&& t2[e.id].priority == match priority {
                Some(p) => p as i64,
                None => t[e.id].priority,
            }
            &&& t2[e.id].disclosure == match disclosure {
                Some(d) => Some(d@),
                None => t[e.id].disclosure,
            }
            &&& forall|k: i64| k != e.id ==> (#[trigger] t2.contains_key(k) == t.contains_key(k)) && (
            t.contains_key(k) ==> t2[k] == t[k])
        }),
        memories_after(mems, calls, o, calls.len() as int) == mems,
{
    lemma_update_statements_differ();
    assert(edges_after(t, calls, o, o) == t);
    assert(memories_after(mems, calls, o, o) == mems);
    assert(calls[o].answer is Rows);
    assert(edges_after(t, calls, o, o + 1) == t);
    assert(memories_after(mems, calls, o, o + 1) == mems);
    if priority is Some || disclosure is Some {
        let c = calls[o + 1];
        assert(edges_after(t, calls, o, o + 2) == edge_effect(t, c));
        assert(memories_after(mems, calls, o, o + 2) == memory_effect(mems, c, id_answer(calls, o + 2)));
        assert(memory_effect(mems, c, id_answer(calls, o + 2)) == mems);
    }
}

} // verus!
