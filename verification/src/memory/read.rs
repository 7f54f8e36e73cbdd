//! Memory read operations with formatted output.
use vstd::prelude::*;

use crate::memory::db::{extends, Db};

use crate::error::{is_internal, AppError};
use crate::memory::boot;
use crate::memory::db::{has_row, int_of, is_db_err, rows_answer, sent, DbCall, Param, SqlValue};
use crate::memory::format::{preview, prio_tag, push_preview, push_prio_tag};
use crate::memory::graph;
use crate::memory::models::{Edge, Memory};
use crate::memory::uri::{empty_domain_msg, parse_uri, spec_parse_uri};
use crate::text::{dec_int, push_char, push_i64, str_eq};

verus! {

/// The line (and disclosure line) listing one child of a memory.
pub open spec fn child_entry(e: Edge, m: Option<Memory>) -> Seq<char> {
    "- "@ + e.name@ + prio_tag(e.priority as int) + ": "@ + (match m {
        Some(mm) => preview(mm.content@, 80),
        None => "(empty)"@,
    }) + seq!['\n'] + (match e.disclosure {
        Some(d) => "  disclosure: "@ + d@ + seq!['\n'],
        None => Seq::<char>::empty(),
    })
}

/// The listing of all children, in order.
pub open spec fn children_text(c: Seq<(Edge, Option<Memory>)>) -> Seq<char>
    decreases c.len(),
{
    if c.len() == 0 {
        Seq::<char>::empty()
    } else {
        children_text(c.drop_last()) + child_entry(c.last().0, c.last().1)
    }
}

/// The view of a memory: header, metadata, content and children.
pub open spec fn memory_view(
    uri: Seq<char>,
    edge: Edge,
    mem: Memory,
    aliases: i64,
    children: Seq<(Edge, Option<Memory>)>,
) -> Seq<char> {
    "MEMORY: "@ + uri + seq!['\n'] + "Memory ID: "@ + dec_int(mem.id as int) + " | Aliases: "@
        + dec_int(aliases as int) + seq!['\n'] + (if edge.priority != 0 {
        "Priority: "@ + dec_int(edge.priority as int) + seq!['\n']
    } else {
        Seq::<char>::empty()
    }) + (match edge.disclosure {
        Some(d) => "When to recall: "@ + d@ + seq!['\n'],
        None => Seq::<char>::empty(),
    }) + seq!['\n'] + mem.content@ + seq!['\n'] + (if children.len() > 0 {
        "\n--- CHILDREN ---\n"@ + children_text(children)
    } else {
        Seq::<char>::empty()
    })
}

/// Appends the listing of one child.
fn push_child_entry(out: &mut String, ce: &Edge, cm: &Option<Memory>)
    ensures
        final(out)@ == old(out)@ + child_entry(*ce, *cm),
{
    let ghost before = out@;
    out.append("- ");
    out.append(ce.name.as_str());
    push_prio_tag(out, ce.priority);
    out.append(": ");
    match cm {
        Some(m) => push_preview(out, m.content.as_str(), 80),
        None => out.append("(empty)"),
    }
    push_char(out, '\n');
    if let Some(d) = &ce.disclosure {
        out.append("  disclosure: ");
        out.append(d.as_str());
        push_char(out, '\n');
    }
    assert(out@ =~= before + child_entry(*ce, *cm));
}

/// Format the view of a memory reached by `uri`.
#[verifier::spinoff_prover]
pub fn format_memory(
    uri: &str,
    edge: &Edge,
    mem: &Memory,
    aliases: i64,
    children: &Vec<(Edge, Option<Memory>)>,
) -> (r: String)
    ensures
        r@ == memory_view(uri@, *edge, *mem, aliases, children@),
{
    let mut out = String::from_str("MEMORY: ");
    out.append(uri);
    push_char(&mut out, '\n');
    out.append("Memory ID: ");
    push_i64(&mut out, mem.id);
    out.append(" | Aliases: ");
    push_i64(&mut out, aliases);
    push_char(&mut out, '\n');
    let ghost head = out@;
    if edge.priority != 0 {
        out.append("Priority: ");
        push_i64(&mut out, edge.priority as i64);
        push_char(&mut out, '\n');
    }
    let ghost with_prio = out@;
    if let Some(d) = &edge.disclosure {
        out.append("When to recall: ");
        out.append(d.as_str());
        push_char(&mut out, '\n');
    }
    let ghost with_disc = out@;
    push_char(&mut out, '\n');
    out.append(mem.content.as_str());
    push_char(&mut out, '\n');
    let ghost body = out@;
    if children.len() > 0 {
        out.append("\n--- CHILDREN ---\n");
        let ghost sect = out@;
        let mut i: usize = 0;
        while i < children.len()
            invariant
                i <= children@.len(),
                out@ == sect + children_text(children@.take(i as int)),
            decreases children@.len() - i,
        {
            let (ce, cm) = &children[i];
            push_child_entry(&mut out, ce, cm);
            proof {
                assert(children@.take(i + 1).drop_last() =~= children@.take(i as int));
            }
            i = i + 1;
        }
        assert(children@.take(children@.len() as int) =~= children@);
    }
    assert(out@ =~= memory_view(uri@, *edge, *mem, aliases, children@));
    out
}

/// The errors of reading a regular (non-system) memory.
pub open spec fn is_read_error(e: AppError, uri: Seq<char>) -> bool {
    ||| is_db_err(e, "Edge not found"@)
    ||| is_db_err(e, "Failed to get memory"@)
    ||| is_internal(e, "No active memory for "@ + uri)
    ||| is_db_err(e, "Failed to count aliases"@)
    ||| is_db_err(e, "Failed to get children"@)
}

/// `e` is the edge routed at `domain://path` and `m` the active memory of
/// its child node, as the database reported them.
pub open spec fn read_sources(e: Edge, m: Memory, domain: Seq<char>, path: Seq<char>) -> bool {
    &&& exists|row: Seq<SqlValue>| #[trigger] graph::routed_edge_row(e, row, domain, path)
    &&& exists|row: Seq<SqlValue>| #[trigger] graph::active_memory_row(m, row, e.child_uuid@)
}

/// What reading a regular URI gives: its parse error, one of the read
/// errors, or the view of the memory routed at its parsed domain and path.
pub open spec fn regular_read_outcome(uri: Seq<char>, r: Result<String, AppError>) -> bool {
    match spec_parse_uri(uri) {
        None => r matches Err(e) && is_internal(e, empty_domain_msg()),
        Some((d, p)) => match r {
            Ok(o) => exists|e: Edge, m: Memory, a: i64, c: Seq<(Edge, Option<Memory>)>|
                read_sources(e, m, d, p) && o@ == #[trigger] memory_view(uri, e, m, a, c),
            Err(e) => is_read_error(e, uri),
        },
    }
}

/// The record of reading `domain://path` from statement `i` on: the route
/// lookup found edge `e`, the active memory of its node was `m`, the count
/// of routes to the node answered `a`, and `c` are the node's own children
/// that the children query answered.
pub open spec fn read_record(
    calls: Seq<DbCall>,
    i: int,
    domain: Seq<char>,
    path: Seq<char>,
    e: Edge,
    m: Memory,
    a: i64,
    c: Seq<(Edge, Option<Memory>)>,
) -> bool {
    &&& graph::edge_found(calls, i, domain, path, e)
    &&& graph::memory_found(calls, i + 1, e.child_uuid@, m)
    &&& sent(calls, i + 2, graph::COUNT_ALIASES_SQL@, seq![Param::Text(e.child_uuid@)])
    &&& has_row(calls, i + 2)
    &&& a == int_of(rows_answer(calls, i + 2)[0][0])
    &&& graph::children_found(calls, i + 3, e.child_uuid@, c)
}

/// A successful read of `uri` (parsed as `domain://path`) from statement `i`
/// on gives the view of what those statements answered.
pub open spec fn read_view(calls: Seq<DbCall>, i: int, uri: Seq<char>, domain: Seq<char>, path: Seq<char>, o: Seq<char>) -> bool {
    exists|e: Edge, m: Memory, a: i64, c: Seq<(Edge, Option<Memory>)>|
        #[trigger] read_record(calls, i, domain, path, e, m, a, c) && o == memory_view(uri, e, m, a, c)
}

/// The active memory found for `uri`'s node, or the error that it has none.
pub fn active_or_missing(uri: &str, found: Option<Memory>) -> (r: Result<Memory, AppError>)
    ensures
        match found {
            Some(m) => r == Ok::<Memory, AppError>(m),
            None => r matches Err(e) && is_internal(e, "No active memory for "@ + uri@),
        },
{
    match found {
        Some(m) => Ok(m),
        None => {
            let mut msg = String::from_str("No active memory for ");
            msg.append(uri);
            Err(AppError::Internal(msg))
        },
    }
}

/// Read the memory that a URI reaches, without the `system://` routes.
pub fn read_regular(conn: &mut Db, uri: &str) -> (r: Result<String, AppError>)
    ensures
        extends(final(conn).calls(), old(conn).calls()),
        regular_read_outcome(uri@, r),
        r matches Ok(o) ==> (spec_parse_uri(uri@) matches Some((d, p)) && read_view(
            final(conn).calls(),
            old(conn).calls().len() as int,
            uri@,
            d,
            p,
            o@,
        )),
{
    let ghost i = conn.calls().len() as int;
    let parsed = parse_uri(uri)?;
    let edge = graph::resolve_edge(conn, parsed.domain.as_str(), parsed.path.as_str())?;
    let found = graph::get_active_memory(conn, edge.child_uuid.as_str())?;
    let mem = active_or_missing(uri, found)?;
    let aliases = graph::count_aliases(conn, edge.child_uuid.as_str())?;
    let children = graph::get_children(conn, edge.child_uuid.as_str())?;
    let out = format_memory(uri, &edge, &mem, aliases, &children);
    assert(out@ == memory_view(uri@, edge, mem, aliases, children@));
    assert(read_sources(edge, mem, parsed.domain@, parsed.path@));
    let ghost fin = conn.calls();
    assert(graph::edge_found(fin, i, parsed.domain@, parsed.path@, edge));
    assert(graph::memory_found(fin, i + 1, edge.child_uuid@, mem));
    assert(read_record(fin, i, parsed.domain@, parsed.path@, edge, mem, aliases, children@));
    let r: Result<String, AppError> = Ok(out);
    assert(read_sources(edge, mem, parsed.domain@, parsed.path@) && r->Ok_0@ == memory_view(
        uri@,
        edge,
        mem,
        aliases,
        children@,
    ));
    assert(read_record(fin, i, parsed.domain@, parsed.path@, edge, mem, aliases, children@)
        && r->Ok_0@ == memory_view(uri@, edge, mem, aliases, children@));
    r
}

/// Read a memory by URI, including the `system://` special URIs.
///
/// Returns a formatted view with the memory's content, metadata and
/// children; `system://` URIs are answered by `boot::handle_system_uri`.
pub fn read_memory(conn: &mut Db, uri: &str) -> (r: Result<String, AppError>)
    ensures
        extends(final(conn).calls(), old(conn).calls()),
        match spec_parse_uri(uri@) {
            None => r matches Err(e) && is_internal(e, empty_domain_msg()),
            Some((d, p)) => if d == "system"@ {
                boot::system_outcome(p, r)
            } else {
                &&& regular_read_outcome(uri@, r)
                &&& r matches Ok(o) ==> read_view(
                    final(conn).calls(),
                    old(conn).calls().len() as int,
                    uri@,
                    d,
                    p,
                    o@,
                )
            },
        },
{
    let parsed = parse_uri(uri)?;
    if str_eq(parsed.domain.as_str(), "system") {
        return boot::handle_system_uri(conn, parsed.path.as_str());
    }
    read_regular(conn, uri)
}

} // verus!

verus! {

/// A memory view lists its children in the order given: the view with one
/// more child is the view without it followed by that child's entry; and
/// the view with a single child is the view without children followed by
/// the children heading and that child's entry.
pub proof fn lemma_view_lists_children_in_order(
    uri: Seq<char>,
    edge: Edge,
    mem: Memory,
    aliases: i64,
    children: Seq<(Edge, Option<Memory>)>,
    child: (Edge, Option<Memory>),
)
    ensures
        memory_view(uri, edge, mem, aliases, seq![child]) == memory_view(
            uri,
            edge,
            mem,
            aliases,
            Seq::<(Edge, Option<Memory>)>::empty(),
        ) + "\n--- CHILDREN ---\n"@ + child_entry(child.0, child.1),
        children.len() > 0 ==> memory_view(uri, edge, mem, aliases, children.push(child)) == memory_view(
            uri,
            edge,
            mem,
            aliases,
            children,
        ) + child_entry(child.0, child.1),
{
    let one = seq![child];
    assert(one.drop_last() =~= Seq::<(Edge, Option<Memory>)>::empty());
    assert(children_text(Seq::<(Edge, Option<Memory>)>::empty()) == Seq::<char>::empty());
    assert(one.last() == child);
    assert(children_text(one) =~= child_entry(child.0, child.1));
    assert(children.push(child).drop_last() =~= children);
    assert(children.push(child).last() == child);
    assert(children_text(children.push(child)) == children_text(children) + child_entry(child.0, child.1));
    assert(memory_view(uri, edge, mem, aliases, one) =~= memory_view(
        uri,
        edge,
        mem,
        aliases,
        Seq::<(Edge, Option<Memory>)>::empty(),
    ) + "\n--- CHILDREN ---\n"@ + child_entry(child.0, child.1));
    if children.len() > 0 {
        assert(memory_view(uri, edge, mem, aliases, children.push(child)) =~= memory_view(
            uri,
            edge,
            mem,
            aliases,
            children,
        ) + child_entry(child.0, child.1));
    }
}

} // verus!
