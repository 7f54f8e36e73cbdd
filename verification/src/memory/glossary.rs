//! Glossary keyword management: keywords bound to memory nodes.
use vstd::prelude::*;

use crate::memory::db::{extends, lemma_extends_trans, Answer, Db};

use crate::error::{is_internal, AppError};
use crate::memory::db::{
    changed_answer, changes_answer, first_texts, has_row, int_of, params_of, ran, rows_answer, rows_of,
    sent, DbCall, Param, db_changes, db_execute, db_query, get_text, is_db_err, map_db_err, row_fits, text_param,
    ColumnKind,
};
use crate::memory::format::{join, push_join, views};
use crate::memory::graph;
use crate::memory::uri::{empty_domain_msg, parse_uri, spec_parse_uri};

verus! {

/// The elements of `s` whose flag is `keep` (flags and elements paired by
/// position).
pub open spec fn select(s: Seq<Seq<char>>, flags: Seq<bool>, keep: bool) -> Seq<Seq<char>>
    decreases s.len(),
{
    if s.len() == 0 || flags.len() == 0 {
        Seq::<Seq<char>>::empty()
    } else {
        let rest = select(s.drop_last(), flags.drop_last(), keep);
        if flags.last() == keep {
            rest.push(s.last())
        } else {
            rest
        }
    }
}

/// The summary of a keyword update.
pub open spec fn triggers_text(
    uri: Seq<char>,
    added: Seq<Seq<char>>,
    skipped: Seq<Seq<char>>,
    removed: Seq<Seq<char>>,
    current: Seq<Seq<char>>,
) -> Seq<char> {
    "Triggers for "@ + uri + ":\n"@ + (if added.len() > 0 {
        "  Added: "@ + join(added, ", "@) + seq!['\n']
    } else {
        Seq::<char>::empty()
    }) + (if skipped.len() > 0 {
        "  Already existed: "@ + join(skipped, ", "@) + seq!['\n']
    } else {
        Seq::<char>::empty()
    }) + (if removed.len() > 0 {
        "  Removed: "@ + join(removed, ", "@) + seq!['\n']
    } else {
        Seq::<char>::empty()
    }) + "  Current: "@ + join(current, ", "@) + seq!['\n']
}

/// Format the summary of a keyword update.
pub fn format_triggers(
    uri: &str,
    added: &Vec<String>,
    skipped: &Vec<String>,
    removed: &Vec<String>,
    current: &Vec<String>,
) -> (r: String)
    ensures
        r@ == triggers_text(uri@, views(added@), views(skipped@), views(removed@), views(current@)),
{
    let mut out = String::from_str("Triggers for ");
    out.append(uri);
    out.append(":\n");
    if added.len() > 0 {
        out.append("  Added: ");
        push_join(&mut out, added, ", ");
        crate::text::push_char(&mut out, '\n');
    }
    if skipped.len() > 0 {
        out.append("  Already existed: ");
        push_join(&mut out, skipped, ", ");
        crate::text::push_char(&mut out, '\n');
    }
    if removed.len() > 0 {
        out.append("  Removed: ");
        push_join(&mut out, removed, ", ");
        crate::text::push_char(&mut out, '\n');
    }
    out.append("  Current: ");
    push_join(&mut out, current, ", ");
    crate::text::push_char(&mut out, '\n');
    assert(out@ =~= triggers_text(
        uri@,
        views(added@),
        views(skipped@),
        views(removed@),
        views(current@),
    ));
    out
}

/// Whether each statement changed a row, from the numbers of rows each
/// changed.
pub open spec fn changed_flags(counts: Seq<u64>) -> Seq<bool> {
    Seq::new(counts.len(), |i: int| counts[i] > 0)
}

/// Split keywords by the number of rows their statement changed: those that
/// changed a row, and those that changed none, each in order.
pub fn split_by_changes(kws: &Vec<String>, counts: &Vec<u64>) -> (r: (Vec<String>, Vec<String>))
    requires
        counts@.len() == kws@.len(),
    ensures
        views(r.0@) == select(views(kws@), changed_flags(counts@), true),
        views(r.1@) == select(views(kws@), changed_flags(counts@), false),
{
    let ghost flags = changed_flags(counts@);
    let mut changed: Vec<String> = Vec::new();
    let mut unchanged: Vec<String> = Vec::new();
    let mut i: usize = 0;
    while i < kws.len()
        invariant
            i <= kws@.len(),
            counts@.len() == kws@.len(),
            flags == changed_flags(counts@),
            views(changed@) == select(views(kws@).take(i as int), flags.take(i as int), true),
            views(unchanged@) == select(views(kws@).take(i as int), flags.take(i as int), false),
        decreases kws@.len() - i,
    {
        assert(views(kws@).take(i + 1).drop_last() =~= views(kws@).take(i as int));
        assert(flags.take(i + 1).drop_last() =~= flags.take(i as int));
        assert(flags.take(i + 1).last() == (counts@[i as int] > 0));
        assert(views(kws@).take(i + 1).last() == kws@[i as int]@);
        if counts[i] > 0 {
            changed.push(kws[i].clone());
            assert(views(changed@) =~= select(views(kws@).take(i + 1), flags.take(i + 1), true));
            assert(views(unchanged@) =~= select(views(kws@).take(i + 1), flags.take(i + 1), false));
        } else {
            unchanged.push(kws[i].clone());
            assert(views(changed@) =~= select(views(kws@).take(i + 1), flags.take(i + 1), true));
            assert(views(unchanged@) =~= select(views(kws@).take(i + 1), flags.take(i + 1), false));
        }
        i = i + 1;
    }
    assert(views(kws@).take(kws@.len() as int) =~= views(kws@));
    assert(flags.take(kws@.len() as int) =~= flags);
    (changed, unchanged)
}

/// The statement that binds a keyword to a node (kept when bound already).
pub const ADD_KEYWORD_SQL: &'static str = "INSERT OR IGNORE INTO glossary_keywords (keyword, node_uuid) VALUES (?1, ?2)";

/// The statement that unbinds a keyword from a node.
pub const REMOVE_KEYWORD_SQL: &'static str = "DELETE FROM glossary_keywords WHERE keyword = ?1 AND node_uuid = ?2";

/// The query that lists the keywords of a node.
pub const LIST_KEYWORDS_SQL: &'static str = "SELECT keyword FROM glossary_keywords WHERE node_uuid = ?1 ORDER BY keyword";

/// The numbers of rows that the binding statements changed, read back after
/// each (the `k`-th binding is statement `o + 1 + 2k`).
pub open spec fn add_counts(calls: Seq<DbCall>, o: int, n: nat) -> Seq<u64> {
    Seq::new(n, |k: int| changes_answer(calls, o + 2 + 2 * k))
}

/// Whether each unbinding statement (from statement `at` on) changed a row,
/// as 1 or 0.
pub open spec fn remove_counts(calls: Seq<DbCall>, at: int, n: nat) -> Seq<u64> {
    Seq::new(n, |k: int| if changed_answer(calls, at + k) > 0 { 1u64 } else { 0u64 })
}

/// The node that the route lookup at `o` found (column 1 of its first row).
pub open spec fn found_node(calls: Seq<DbCall>, o: int) -> Seq<char> {
    graph::route_node(calls, o)
}

/// The record of a keyword update of `domain://path` from statement `o` on:
/// the route lookup found node `found_node(calls, o)`; each keyword of `adds`
/// was bound to it in order, each followed by reading back the rows
/// changed; each keyword of `removes` was unbound from it in order; then its
/// keywords were listed; nothing else.
pub open spec fn triggers_record(
    calls: Seq<DbCall>,
    o: int,
    domain: Seq<char>,
    path: Seq<char>,
    adds: Seq<Seq<char>>,
    removes: Seq<Seq<char>>,
) -> bool {
    let node = found_node(calls, o);
    let at = o + 1 + 2 * adds.len();
    &&& sent(calls, o, graph::RESOLVE_PATH_SQL@, graph::route_params(domain, path))
    &&& has_row(calls, o)
    &&& graph::routed_path_row(int_of(rows_answer(calls, o)[0][0]), node, rows_answer(calls, o)[0], domain, path)
    &&& forall|k: int| 0 <= k < adds.len() ==> ran(calls, o + 1 + 2 * k, ADD_KEYWORD_SQL@, seq![Param::Text(#[trigger] adds[k]), Param::Text(node)])
        && calls[o + 2 + 2 * k].answer is Changes
    &&& forall|k: int| 0 <= k < removes.len() ==> ran(calls, at + k, REMOVE_KEYWORD_SQL@, seq![Param::Text(#[trigger] removes[k]), Param::Text(node)])
    &&& sent(calls, at + removes.len(), LIST_KEYWORDS_SQL@, seq![Param::Text(node)])
    &&& calls[at + removes.len()].answer is Rows
    &&& calls.len() == at + removes.len() + 1
}

/// The summary that a keyword update recorded from statement `o` on gives:
/// the keywords whose binding changed a row as added, the others as already
/// existing, the keywords whose unbinding changed a row as removed, and the
/// keywords listed last as current.
pub open spec fn triggers_summary(
    calls: Seq<DbCall>,
    o: int,
    uri: Seq<char>,
    adds: Seq<Seq<char>>,
    removes: Seq<Seq<char>>,
) -> Seq<char> {
    let at = o + 1 + 2 * adds.len();
    triggers_text(
        uri,
        select(adds, changed_flags(add_counts(calls, o, adds.len())), true),
        select(adds, changed_flags(add_counts(calls, o, adds.len())), false),
        select(removes, changed_flags(remove_counts(calls, at, removes.len())), true),
        first_texts(rows_answer(calls, at + removes.len())),
    )
}

/// Add or remove keywords bound to the memory node that `uri` reaches.
///
/// Each keyword to add is reported as added when its insertion changed a
/// row, or as already existing when it did not; each keyword to remove whose
/// deletion changed a row is reported as removed; then the node's current
/// keywords are listed.
pub fn manage_triggers(conn: &mut Db, uri: &str, add: Vec<String>, remove: Vec<String>) -> (r:
    Result<String, AppError>)
    ensures
        extends(final(conn).calls(), old(conn).calls()),
        match spec_parse_uri(uri@) {
            None => r matches Err(e) && is_internal(e, empty_domain_msg()),
            Some((d, p)) => {
                &&& r matches Ok(o) ==> triggers_record(
                    final(conn).calls(),
                    old(conn).calls().len() as int,
                    d,
                    p,
                    views(add@),
                    views(remove@),
                ) && o@ == triggers_summary(
                    final(conn).calls(),
                    old(conn).calls().len() as int,
                    uri@,
                    views(add@),
                    views(remove@),
                )
                &&& r matches Err(e) ==> is_db_err(e, "Path not found"@) || is_db_err(
                    e,
                    "Failed to add keyword"@,
                ) || is_db_err(e, "Failed to remove keyword"@) || is_db_err(
                    e,
                    "Failed to list keywords"@,
                )
            },
        },
{
    let ghost o = conn.calls().len() as int;
    let ghost start = conn.calls();
    let parsed = parse_uri(uri)?;
    let (_, node_uuid) = graph::resolve_path(conn, parsed.domain.as_str(), parsed.path.as_str())?;
    let ghost c0 = conn.calls();
    assert(node_uuid@ == found_node(c0, o));
    let ghost adds = views(add@);
    let ghost removes = views(remove@);
    let mut add_counts_v: Vec<u64> = Vec::new();
    let mut i: usize = 0;
    while i < add.len()
        invariant
            i <= add@.len(),
            spec_parse_uri(uri@) is Some,
            adds == views(add@),
            add_counts_v@.len() == i,
            extends(conn.calls(), c0),
            extends(c0, start),
            start.len() == o,
            start == old(conn).calls(),
            conn.calls().len() == o + 1 + 2 * i,
            c0.len() == o + 1,
            forall|k: int| 0 <= k < i ==> ran(conn.calls(), o + 1 + 2 * k, ADD_KEYWORD_SQL@, seq![Param::Text(#[trigger] adds[k]), Param::Text(node_uuid@)])
                && conn.calls()[o + 2 + 2 * k].answer is Changes,
            add_counts_v@ == add_counts(conn.calls(), o, i as nat),
        decreases add@.len() - i,
    {
        let ghost before = conn.calls();
        let params = vec![text_param(add[i].as_str()), text_param(node_uuid.as_str())];
        assert(params_of(params@) =~= seq![Param::Text(adds[i as int]), Param::Text(node_uuid@)]);
        if let Err(e) = db_execute(conn, ADD_KEYWORD_SQL, &params) {
            proof {
                assert forall|x: int| 0 <= x < before.len() implies #[trigger] conn.calls()[x] == before[x] by {}
                lemma_extends_trans(before, c0, start);
                lemma_extends_trans(conn.calls(), before, start);
            }
            return Err(map_db_err("Failed to add keyword", &e));
        }
        add_counts_v.push(db_changes(conn));
        let ghost after = conn.calls();
        assert forall|k: int| 0 <= k < before.len() implies after[k] == before[k] by {}
        assert(add_counts_v@ =~= add_counts(after, o, (i + 1) as nat));
        i = i + 1;
    }
    let ghost at = o + 1 + 2 * adds.len();
    let ghost c1 = conn.calls();
    let mut remove_counts_v: Vec<u64> = Vec::new();
    let mut j: usize = 0;
    while j < remove.len()
        invariant
            j <= remove@.len(),
            spec_parse_uri(uri@) is Some,
            removes == views(remove@),
            remove_counts_v@.len() == j,
            extends(conn.calls(), c1),
            extends(c1, start),
            start.len() == o,
            start == old(conn).calls(),
            c1.len() == at,
            conn.calls().len() == at + j,
            forall|k: int| 0 <= k < j ==> ran(conn.calls(), at + k, REMOVE_KEYWORD_SQL@, seq![Param::Text(#[trigger] removes[k]), Param::Text(node_uuid@)]),
            remove_counts_v@ == remove_counts(conn.calls(), at, j as nat),
        decreases remove@.len() - j,
    {
        let ghost before = conn.calls();
        let params = vec![text_param(remove[j].as_str()), text_param(node_uuid.as_str())];
        assert(params_of(params@) =~= seq![Param::Text(removes[j as int]), Param::Text(node_uuid@)]);
        let affected = match db_execute(conn, REMOVE_KEYWORD_SQL, &params) {
            Ok(n) => n,
            Err(e) => {
                proof {
                    assert forall|x: int| 0 <= x < before.len() implies #[trigger] conn.calls()[x] == before[x] by {}
                    lemma_extends_trans(before, c1, start);
                    lemma_extends_trans(conn.calls(), before, start);
                }
                return Err(map_db_err("Failed to remove keyword", &e));
            },
        };
        remove_counts_v.push(if affected > 0 { 1 } else { 0 });
        let ghost after = conn.calls();
        assert forall|k: int| 0 <= k < before.len() implies after[k] == before[k] by {}
        assert(remove_counts_v@ =~= remove_counts(after, at, (j + 1) as nat));
        j = j + 1;
    }
    let (added, skipped) = split_by_changes(&add, &add_counts_v);
    let (removed, _) = split_by_changes(&remove, &remove_counts_v);
    let kinds = vec![ColumnKind::Text];
    let params = vec![text_param(node_uuid.as_str())];
    assert(params_of(params@) =~= seq![Param::Text(node_uuid@)]);
    let rows = match db_query(conn, LIST_KEYWORDS_SQL, &params, &kinds) {
        Ok(rows) => rows,
        Err(e) => return Err(map_db_err("Failed to list keywords", &e)),
    };
    let mut current: Vec<String> = Vec::new();
    let mut k: usize = 0;
    while k < rows.len()
        invariant
            k <= rows@.len(),
            kinds@ == seq![ColumnKind::Text],
            forall|x: int| 0 <= x < rows@.len() ==> row_fits(#[trigger] rows@[x]@, kinds@),
            views(current@) == first_texts(rows_of(rows@)).take(k as int),
        decreases rows@.len() - k,
    {
        assert(row_fits(rows@[k as int]@, kinds@));
        let ghost prev = views(current@);
        let t = get_text(&rows[k], 0);
        let ghost tv = t@;
        current.push(t);
        assert(views(current@) =~= prev.push(tv));
        assert(first_texts(rows_of(rows@)).take(k + 1) =~= first_texts(rows_of(rows@)).take(k as int).push(tv));
        k = k + 1;
    }
    assert(first_texts(rows_of(rows@)).take(rows@.len() as int) =~= first_texts(rows_of(rows@)));
    let out = format_triggers(uri, &added, &skipped, &removed, &current);
    let ghost fin = conn.calls();
    assert(forall|x: int| 0 <= x < c0.len() ==> fin[x] == c0[x]);
    assert(found_node(fin, o) == node_uuid@);
    assert(add_counts(fin, o, adds.len()) =~= add_counts_v@);
    assert(remove_counts(fin, at, removes.len()) =~= remove_counts_v@);
    assert(rows_answer(fin, at + removes.len()) == rows_of(rows@));
    assert(triggers_record(fin, o, parsed.domain@, parsed.path@, adds, removes));
    Ok(out)
}

} // verus!

verus! {

/// What a statement does to the keyword bindings (keyword, node): a binding
/// statement that ran adds its pair, an unbinding statement that ran removes
/// it; a statement that failed, a query and any other statement leave them
/// as they are.
pub open spec fn binding_effect(b: Set<(Seq<char>, Seq<char>)>, c: DbCall) -> Set<(Seq<char>, Seq<char>)> {
    if c.answer matches Answer::Changed(Some(_)) && c.params.len() == 2 && c.params[0] is Text
        && c.params[1] is Text {
        let pair = (c.params[0]->Text_0, c.params[1]->Text_0);
        if c.sql == ADD_KEYWORD_SQL@ {
            b.insert(pair)
        } else if c.sql == REMOVE_KEYWORD_SQL@ {
            b.remove(pair)
        } else {
            b
        }
    } else {
        b
    }
}

/// The keyword bindings after statements `from` to `to` (excluded) of
/// `calls`, in order, starting from `b`.
pub open spec fn bindings_after(b: Set<(Seq<char>, Seq<char>)>, calls: Seq<DbCall>, from: int, to: int) -> Set<
    (Seq<char>, Seq<char>),
>
    decreases to - from,
{
    if to <= from {
        b
    } else {
        binding_effect(bindings_after(b, calls, from, to - 1), calls[to - 1])
    }
}

proof fn lemma_keyword_statements_differ()
    ensures
        ADD_KEYWORD_SQL@ != REMOVE_KEYWORD_SQL@,
{
    reveal_strlit("INSERT OR IGNORE INTO glossary_keywords (keyword, node_uuid) VALUES (?1, ?2)");
    reveal_strlit("DELETE FROM glossary_keywords WHERE keyword = ?1 AND node_uuid = ?2");
    assert(ADD_KEYWORD_SQL@[0] != REMOVE_KEYWORD_SQL@[0]);
}

proof fn lemma_binding_phase(
    b: Set<(Seq<char>, Seq<char>)>,
    calls: Seq<DbCall>,
    o: int,
    domain: Seq<char>,
    path: Seq<char>,
    adds: Seq<Seq<char>>,
    removes: Seq<Seq<char>>,
    k: int,
)
    requires
        triggers_record(calls, o, domain, path, adds, removes),
        0 <= k <= adds.len(),
    ensures
        forall|x: (Seq<char>, Seq<char>)|
            #[trigger] bindings_after(b, calls, o, o + 1 + 2 * k).contains(x) <==> (b.contains(x) || (x.1
                == found_node(calls, o) && adds.take(k).contains(x.0))),
    decreases k,
{
    lemma_keyword_statements_differ();
    let n = found_node(calls, o);
    if k == 0 {
        assert(bindings_after(b, calls, o, o) == b);
        assert(bindings_after(b, calls, o, o + 1) == binding_effect(b, calls[o]));
        assert(binding_effect(b, calls[o]) == b);
        assert(adds.take(0) =~= Seq::<Seq<char>>::empty());
    } else {
        lemma_binding_phase(b, calls, o, domain, path, adds, removes, k - 1);
        let prev = bindings_after(b, calls, o, o + 1 + 2 * (k - 1));
        let i = o + 1 + 2 * (k - 1);
        assert(ran(calls, i, ADD_KEYWORD_SQL@, seq![Param::Text(adds[k - 1]), Param::Text(n)]));
        assert(calls[i + 1].answer is Changes);
        let mid = bindings_after(b, calls, o, i + 1);
        assert(mid == binding_effect(prev, calls[i]));
        assert(mid == prev.insert((adds[k - 1], n)));
        assert(bindings_after(b, calls, o, i + 2) == binding_effect(mid, calls[i + 1]));
        assert(bindings_after(b, calls, o, o + 1 + 2 * k) == mid);
        assert(adds.take(k) =~= adds.take(k - 1).push(adds[k - 1]));
        assert forall|x: (Seq<char>, Seq<char>)|
            #[trigger] mid.contains(x) <==> (b.contains(x) || (x.1 == n && adds.take(k).contains(x.0))) by {
            if x.1 == n && adds.take(k).contains(x.0) && !adds.take(k - 1).contains(x.0) {
                let j = choose|j: int| 0 <= j < k && #[trigger] adds.take(k)[j] == x.0;
                if j < k - 1 {
                    assert(adds.take(k - 1)[j] == x.0);
                }
                assert(x == (adds[k - 1], n));
            }
            if x.1 == n && adds.take(k - 1).contains(x.0) {
                let j = choose|j: int| 0 <= j < k - 1 && #[trigger] adds.take(k - 1)[j] == x.0;
                assert(adds.take(k)[j] == x.0);
            }
            if x == (adds[k - 1], n) {
                assert(adds.take(k)[k - 1] == x.0);
            }
        }
    }
}

proof fn lemma_unbinding_phase(
    b: Set<(Seq<char>, Seq<char>)>,
    calls: Seq<DbCall>,
    o: int,
    domain: Seq<char>,
    path: Seq<char>,
    adds: Seq<Seq<char>>,
    removes: Seq<Seq<char>>,
    j: int,
)
    requires
        triggers_record(calls, o, domain, path, adds, removes),
        0 <= j <= removes.len(),
    ensures
        forall|x: (Seq<char>, Seq<char>)|
            #[trigger] bindings_after(b, calls, o, o + 1 + 2 * adds.len() + j).contains(x) <==> (
            bindings_after(b, calls, o, o + 1 + 2 * adds.len()).contains(x) && !(x.1 == found_node(calls, o)
                && removes.take(j).contains(x.0))),
    decreases j,
{
    lemma_keyword_statements_differ();
    let n = found_node(calls, o);
    let at = o + 1 + 2 * adds.len();
    let base = bindings_after(b, calls, o, at);
    if j == 0 {
        assert(removes.take(0) =~= Seq::<Seq<char>>::empty());
    } else {
        lemma_unbinding_phase(b, calls, o, domain, path, adds, removes, j - 1);
        let prev = bindings_after(b, calls, o, at + j - 1);
        assert(ran(calls, at + j - 1, REMOVE_KEYWORD_SQL@, seq![Param::Text(removes[j - 1]), Param::Text(n)]));
        let cur = bindings_after(b, calls, o, at + j);
        assert(cur == binding_effect(prev, calls[at + j - 1]));
        assert(cur == prev.remove((removes[j - 1], n)));
        assert(removes.take(j) =~= removes.take(j - 1).push(removes[j - 1]));
        assert forall|x: (Seq<char>, Seq<char>)|
            #[trigger] cur.contains(x) <==> (base.contains(x) && !(x.1 == n && removes.take(j).contains(x.0))) by {
            if x.1 == n && removes.take(j).contains(x.0) && !removes.take(j - 1).contains(x.0) {
                let i = choose|i: int| 0 <= i < j && #[trigger] removes.take(j)[i] == x.0;
                if i < j - 1 {
                    assert(removes.take(j - 1)[i] == x.0);
                }
                assert(x == (removes[j - 1], n));
            }
            if x.1 == n && removes.take(j - 1).contains(x.0) {
                let i = choose|i: int| 0 <= i < j - 1 && #[trigger] removes.take(j - 1)[i] == x.0;
                assert(removes.take(j)[i] == x.0);
            }
            if x == (removes[j - 1], n) {
                assert(removes.take(j)[j - 1] == x.0);
            }
        }
    }
}

/// The keyword bindings after a keyword update: the statements that
/// `manage_triggers` recorded leave the node that the URI reaches bound to
/// exactly its former keywords and the keywords to add, less the keywords
/// to remove (removal comes after addition, so a keyword in both ends
/// unbound); the bindings of every other node are unchanged.
pub proof fn lemma_triggers_bindings(
    b: Set<(Seq<char>, Seq<char>)>,
    calls: Seq<DbCall>,
    o: int,
    domain: Seq<char>,
    path: Seq<char>,
    adds: Seq<Seq<char>>,
    removes: Seq<Seq<char>>,
)
    requires
        triggers_record(calls, o, domain, path, adds, removes),
    ensures
        forall|kw: Seq<char>|
            #[trigger] bindings_after(b, calls, o, calls.len() as int).contains((kw, found_node(calls, o)))
                <==> ((b.contains((kw, found_node(calls, o))) || adds.contains(kw)) && !removes.contains(kw)),
        forall|kw: Seq<char>, other: Seq<char>|
            other != found_node(calls, o) ==> (#[trigger] bindings_after(b, calls, o, calls.len() as int).contains(
                (kw, other),
            ) == b.contains((kw, other))),
{
    let n = found_node(calls, o);
    let at = o + 1 + 2 * adds.len();
    lemma_binding_phase(b, calls, o, domain, path, adds, removes, adds.len() as int);
    lemma_unbinding_phase(b, calls, o, domain, path, adds, removes, removes.len() as int);
    assert(adds.take(adds.len() as int) =~= adds);
    assert(removes.take(removes.len() as int) =~= removes);
    let last = at + removes.len();
    assert(bindings_after(b, calls, o, last + 1) == binding_effect(bindings_after(b, calls, o, last), calls[last]));
    assert(bindings_after(b, calls, o, calls.len() as int) == bindings_after(b, calls, o, last));
}

} // verus!
