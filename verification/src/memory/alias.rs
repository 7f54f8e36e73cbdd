//! Alias operations: alternative URI routes to existing nodes.
use vstd::prelude::*;

use crate::memory::db::{extends, lemma_extends_trans, has_row, id_answer, inserted, ran, sent, Db, DbCall, Param};

use crate::error::{is_internal, AppError};
use crate::memory::db::is_db_err;
use crate::memory::graph;
use crate::memory::models::ROOT_NODE_UUID;
use crate::memory::uri::{
    empty_domain_msg, is_valid_domain, parse_uri, spec_parse_uri, spec_split_parent_path,
    split_parent_path, valid_domains,
};
use crate::memory::write::invalid_domain_msg;
use crate::text::{chars_of, contains_char};

verus! {

/// Text of the error for an alias that would make a cycle.
pub open spec fn cycle_msg() -> Seq<char> {
    "Cannot create alias: would create a cycle"@
}

/// The edge of a new alias at path `new_path` from node `parent` to node
/// `target`, named by the path's last segment; refused as a cycle when the
/// target is the parent or one of its ancestors (`would_cycle`).
pub fn alias_edge(parent: &str, target: &str, new_path: &str, would_cycle: bool) -> (r: Result<
    (String, String, String),
    AppError,
>)
    ensures
        would_cycle ==> (r matches Err(e) && is_internal(e, cycle_msg())),
        !would_cycle ==> (r matches Ok((p, t, name)) && p@ == parent@ && t@ == target@ && name@
            == spec_split_parent_path(new_path@).1),
{
    if would_cycle {
        return Err(AppError::Internal(String::from_str("Cannot create alias: would create a cycle")));
    }
    let (_, leaf) = split_parent_path(new_path);
    Ok((String::from_str(parent), String::from_str(target), String::from_str(leaf)))
}

/// The path `path` lies under another path (it holds a `/`).
pub open spec fn has_parent_path(path: Seq<char>) -> bool {
    path.len() > 0 && path.contains('/')
}

/// The parent node of an alias at `path`, from a record whose target lookup
/// is statement `o`: the root for a top-level path, else the node that the
/// next lookup (of the parent path) found.
pub open spec fn alias_parent(calls: Seq<DbCall>, o: int, path: Seq<char>) -> Seq<char> {
    if has_parent_path(path) {
        graph::route_node(calls, o + 1)
    } else {
        ROOT_NODE_UUID@
    }
}

/// Where the cycle check of an alias at `path` starts, for a record whose
/// target lookup is statement `o`: after the lookups.
pub open spec fn cycle_check_at(o: int, path: Seq<char>) -> int {
    if has_parent_path(path) {
        o + 2
    } else {
        o + 1
    }
}

/// The record of an alias `domain://path` to `target_domain://target_path`
/// from statement `o` on: the target's route was looked up and found; for a
/// path under another, the parent path's route was looked up next and
/// found; the cycle check from the parent (when the parent is not the root)
/// did not reach the target, nor is the target the parent; then an edge
/// from the alias's parent to the
/// target's node named by the path's last segment was inserted with the
/// given priority and disclosure, and the alias path routed to that edge by
/// the last statement.
pub open spec fn alias_record(
    calls: Seq<DbCall>,
    o: int,
    domain: Seq<char>,
    path: Seq<char>,
    target_domain: Seq<char>,
    target_path: Seq<char>,
    priority: i32,
    disclosure: Option<&str>,
) -> bool {
    let n = calls.len() as int;
    &&& sent(calls, o, graph::RESOLVE_PATH_SQL@, graph::route_params(target_domain, target_path))
    &&& has_row(calls, o)
    &&& has_parent_path(path) ==> sent(
        calls,
        o + 1,
        graph::RESOLVE_PATH_SQL@,
        graph::route_params(domain, spec_split_parent_path(path).0),
    ) && has_row(calls, o + 1)
    &&& o + 1 < n - 2
    &&& alias_parent(calls, o, path) != graph::route_node(calls, o)
    &&& alias_parent(calls, o, path) != ROOT_NODE_UUID@ ==> !graph::ancestry_walk(
        calls,
        cycle_check_at(o, path),
        graph::route_node(calls, o),
        seq![alias_parent(calls, o, path)],
        0,
    ) && graph::ancestry_queries(
        calls,
        cycle_check_at(o, path),
        graph::route_node(calls, o),
        seq![alias_parent(calls, o, path)],
        0,
    )
    &&& inserted(
        calls,
        n - 3,
        graph::CREATE_EDGE_SQL@,
        graph::edge_params(
            alias_parent(calls, o, path),
            graph::route_node(calls, o),
            spec_split_parent_path(path).1,
            priority,
            disclosure,
        ),
        id_answer(calls, n - 2),
    )
    &&& ran(
        calls,
        n - 1,
        graph::CREATE_PATH_SQL@,
        seq![Param::Text(domain), Param::Text(path), Param::Int(id_answer(calls, n - 2))],
    )
}

/// Create an alias URI `new_uri` pointing to the node that `target_uri`
/// reaches.
///
/// The alias's parent is the root for a top-level path, or else the node of
/// its parent path; the alias is refused when the target is that parent or
/// one of its ancestors (it would create a cycle). The new edge is named by
/// the alias's last path segment.
pub fn add_alias(
    conn: &mut Db,
    new_uri: &str,
    target_uri: &str,
    priority: i32,
    disclosure: Option<&str>,
) -> (r: Result<String, AppError>)
    ensures
        extends(final(conn).calls(), old(conn).calls()),
        spec_parse_uri(new_uri@) is None ==> (r matches Err(e) && is_internal(
            e,
            empty_domain_msg(),
        )),
        spec_parse_uri(new_uri@) is Some && spec_parse_uri(target_uri@) is None ==> (r matches Err(
            e,
        ) && is_internal(e, empty_domain_msg())),
        spec_parse_uri(new_uri@) matches Some((d, p)) ==> spec_parse_uri(target_uri@) is Some ==> {
            &&& !valid_domains().contains(d) ==> (r matches Err(e) && is_internal(
                e,
                invalid_domain_msg(d),
            ))
            &&& r matches Err(e) ==> valid_domains().contains(d) ==> {
                ||| is_db_err(e, "Path not found"@)
                ||| is_db_err(e, "Cycle check failed"@)
                ||| is_internal(e, cycle_msg())
                ||| is_db_err(e, "Failed to create edge"@)
                ||| is_db_err(e, "Failed to create path"@)
            }
        },
        r matches Ok(m) ==> m@ == "Alias created: "@ + new_uri@ + " -> "@ + target_uri@,
        r is Ok ==> (spec_parse_uri(new_uri@) matches Some((d, p)) && spec_parse_uri(target_uri@) matches Some(
            (td, tp),
        ) && alias_record(final(conn).calls(), old(conn).calls().len() as int, d, p, td, tp, priority, disclosure)),
{
    let ghost o = conn.calls().len() as int;
    let new_parsed = parse_uri(new_uri)?;
    let target_parsed = parse_uri(target_uri)?;
    if !is_valid_domain(new_parsed.domain.as_str()) {
        let mut m = String::from_str("Invalid domain: ");
        m.append(new_parsed.domain.as_str());
        return Err(AppError::Internal(m));
    }
    let (_, target_uuid) = graph::resolve_path(
        conn,
        target_parsed.domain.as_str(),
        target_parsed.path.as_str(),
    )?;
    let ghost c0 = conn.calls();
    let path_chars = chars_of(new_parsed.path.as_str());
    let parent_uuid = if path_chars.len() == 0 || !contains_char(&path_chars, '/') {
        proof {
            reveal_strlit("00000000-0000-0000-0000-000000000000");
        }
        String::from_str(ROOT_NODE_UUID)
    } else {
        let (parent_path, _) = split_parent_path(new_parsed.path.as_str());
        let (_, uuid) = graph::resolve_path(conn, new_parsed.domain.as_str(), parent_path)?;
        uuid
    };
    let ghost c1 = conn.calls();
    assert(c1[o] == c0[o]);
    assert(target_uuid@ == graph::route_node(c1, o));
    assert(parent_uuid@ == alias_parent(c1, o, new_parsed.path@));
    assert(c1.len() == cycle_check_at(o, new_parsed.path@));
    let would_cycle = graph::is_ancestor(conn, parent_uuid.as_str(), target_uuid.as_str())?;
    let ghost c2 = conn.calls();
    assert(c2[o] == c1[o]);
    assert(has_parent_path(new_parsed.path@) ==> c2[o + 1] == c1[o + 1]);
    let (from, to, name) = alias_edge(
        parent_uuid.as_str(),
        target_uuid.as_str(),
        new_parsed.path.as_str(),
        would_cycle,
    )?;
    let edge_id = graph::create_edge(
        conn,
        from.as_str(),
        to.as_str(),
        name.as_str(),
        priority,
        disclosure,
    )?;
    let ghost c3 = conn.calls();
    graph::create_path(conn, new_parsed.domain.as_str(), new_parsed.path.as_str(), edge_id)?;
    let ghost c4 = conn.calls();
    proof {
        lemma_extends_trans(c4, c3, c2);
    }
    assert(!would_cycle);
    assert(c4[o] == c1[o]);
    assert(has_parent_path(new_parsed.path@) ==> c4[o + 1] == c1[o + 1]);
    assert(c4[c2.len() as int] == c3[c2.len() as int]);
    assert(c4[c2.len() as int + 1] == c3[c2.len() as int + 1]);
    assert(alias_parent(c4, o, new_parsed.path@) == parent_uuid@);
    assert(graph::route_node(c4, o) == target_uuid@);
    assert(alias_record(c4, o, new_parsed.domain@, new_parsed.path@, target_parsed.domain@, target_parsed.path@, priority, disclosure));
    let mut m = String::from_str("Alias created: ");
    m.append(new_uri);
    m.append(" -> ");
    m.append(target_uri);
    Ok(m)
}

} // verus!

verus! {

/// An alias never closes a cycle through a grandparent: when an alias was
/// created, the target is neither the alias's parent nor a parent of one of
/// the parent's parents (the database answering each parent query of the
/// cycle check by `par`, and the parent, not the root, having fewer parents
/// than the visit limit).
pub proof fn lemma_alias_refuses_cycles(
    calls: Seq<DbCall>,
    o: int,
    domain: Seq<char>,
    path: Seq<char>,
    target_domain: Seq<char>,
    target_path: Seq<char>,
    priority: i32,
    disclosure: Option<&str>,
    par: spec_fn(Seq<char>) -> Seq<Seq<char>>,
)
    requires
        alias_record(calls, o, domain, path, target_domain, target_path, priority, disclosure),
        graph::answers_by(calls, cycle_check_at(o, path), par),
    ensures
        ({
            let parent = alias_parent(calls, o, path);
            let target = graph::route_node(calls, o);
            &&& parent != target
            &&& parent != ROOT_NODE_UUID@ && par(parent).len() < graph::ANCESTRY_LIMIT ==> forall|p: Seq<char>|
                #[trigger] par(parent).contains(p) && p != ROOT_NODE_UUID@ && p != parent ==> !par(p).contains(
                    target,
                )
        }),
{
    let parent = alias_parent(calls, o, path);
    let target = graph::route_node(calls, o);
    if parent != ROOT_NODE_UUID@ && par(parent).len() < graph::ANCESTRY_LIMIT {
        assert forall|p: Seq<char>|
            #[trigger] par(parent).contains(p) && p != ROOT_NODE_UUID@ && p != parent implies !par(p).contains(
                target,
            ) by {
            if par(p).contains(target) {
                graph::lemma_ancestry_through_parent(calls, cycle_check_at(o, path), parent, p, target, par);
            }
        }
    }
}

} // verus!
