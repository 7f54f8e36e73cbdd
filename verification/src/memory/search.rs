//! Full-text search over the memory graph (SQLite FTS5).
use vstd::prelude::*;

use crate::memory::db::{
    extends, extends_by, lemma_extends_trans, lemma_push_extends, params_of, ran, rows_answer,
    rows_of, query_ok, sent, DbCall, Db, Param,
};
use crate::memory::graph;

use crate::error::AppError;
use crate::memory::db::{
    db_execute, db_query, get_i32, get_opt_text, get_text, int_of, is_db_err, map_db_err,
    opt_text_is, opt_text_param, row_fits, text_of, text_param, ColumnKind, SqlValue,
};
use crate::memory::format::{prio_tag, push_prio_tag};
use crate::memory::uri::sep;
use crate::text::{dec_int, dec_nat, push_char, push_u128};

verus! {

/// Search result from the full-text index.
#[derive(Debug, Clone, PartialEq, Eq)]
pub struct SearchResult {
    pub uri: String,
    pub priority: i32,
    pub disclosure: Option<String>,
    pub snippet: String,
}

/// The number of results asked for: `limit` (10 when absent), kept within
/// 0 to 100.
pub open spec fn spec_search_limit(limit: Option<i64>) -> i64 {
    let l = match limit {
        Some(l) => l,
        None => 10,
    };
    if l < 0 {
        0
    } else if l < 100 {
        l
    } else {
        100
    }
}

pub fn search_limit(limit: Option<i64>) -> (r: i64)
    ensures
        r == spec_search_limit(limit),
{
    let l = match limit {
        Some(l) => l,
        None => 10,
    };
    if l < 0 {
        0
    } else if l < 100 {
        l
    } else {
        100
    }
}

/// The lines for result `i`.
pub open spec fn search_entry(r: SearchResult, i: int) -> Seq<char> {
    dec_int(i + 1) + ". "@ + r.uri@ + prio_tag(r.priority as int) + seq!['\n'] + (match r.disclosure {
        Some(d) => "   disclosure: "@ + d@ + seq!['\n'],
        None => Seq::<char>::empty(),
    }) + "   "@ + r.snippet@ + seq!['\n']
}

pub open spec fn search_body(rows: Seq<SearchResult>) -> Seq<char>
    decreases rows.len(),
{
    if rows.len() == 0 {
        Seq::<char>::empty()
    } else {
        search_body(rows.drop_last()) + search_entry(rows.last(), rows.len() - 1)
    }
}

/// The search view for `query` listing `rows`.
pub open spec fn search_text(query: Seq<char>, rows: Seq<SearchResult>) -> Seq<char> {
    "# Search results for \""@ + query + "\"\n\n"@ + (if rows.len() == 0 {
        "No results found.\n"@
    } else {
        search_body(rows)
    })
}

/// Appends the lines of result `i`.
fn push_search_entry(out: &mut String, r: &SearchResult, i: usize)
    ensures
        final(out)@ == old(out)@ + search_entry(*r, i as int),
{
    let ghost before = out@;
    push_u128(out, i as u128 + 1);
    out.append(". ");
    out.append(r.uri.as_str());
    push_prio_tag(out, r.priority);
    push_char(out, '\n');
    if let Some(d) = &r.disclosure {
        out.append("   disclosure: ");
        out.append(d.as_str());
        push_char(out, '\n');
    }
    out.append("   ");
    out.append(r.snippet.as_str());
    push_char(out, '\n');
    assert(dec_int(i + 1) == dec_nat((i + 1) as nat));
    assert(out@ =~= before + search_entry(*r, i as int));
}

/// Format the search view.
pub fn format_search(query: &str, rows: &Vec<SearchResult>) -> (r: String)
    ensures
        r@ == search_text(query@, rows@),
{
    let mut out = String::from_str("# Search results for \"");
    out.append(query);
    out.append("\"\n\n");
    if rows.len() == 0 {
        out.append("No results found.\n");
    } else {
        let ghost head = out@;
        let mut i: usize = 0;
        while i < rows.len()
            invariant
                i <= rows@.len(),
                out@ == head + search_body(rows@.take(i as int)),
            decreases rows@.len() - i,
        {
            push_search_entry(&mut out, &rows[i], i);
            assert(rows@.take(i + 1).drop_last() =~= rows@.take(i as int));
            i = i + 1;
        }
        assert(rows@.take(rows@.len() as int) =~= rows@);
    }
    assert(out@ =~= search_text(query@, rows@));
    out
}

/// Column kinds of a search row: URI, priority, disclosure, snippet.
pub open spec fn search_kind_seq() -> Seq<ColumnKind> {
    seq![ColumnKind::Text, ColumnKind::Int32, ColumnKind::OptText, ColumnKind::Text]
}

/// `e` is the search result held by `row`.
pub open spec fn search_row(e: SearchResult, row: Seq<SqlValue>) -> bool {
    &&& e.uri@ == text_of(row[0])
    &&& e.priority == int_of(row[1])
    &&& opt_text_is(e.disclosure, row[2])
    &&& e.snippet@ == text_of(row[3])
}

/// The `results` listed from query `rows`: one per row, in order, for at
/// most the first `n` rows.
pub open spec fn search_listing(results: Seq<SearchResult>, rows: Seq<Seq<SqlValue>>, n: nat) -> bool {
    &&& forall|j: int| 0 <= j < rows.len() ==> row_fits(#[trigger] rows[j], search_kind_seq())
    &&& results.len() == if rows.len() < n {
        rows.len()
    } else {
        n
    }
    &&& forall|i: int| 0 <= i < results.len() ==> search_row(#[trigger] results[i], rows[i])
}

/// The search results held by the first `max` search rows.
pub fn search_results_from(rows: &Vec<Vec<SqlValue>>, max: usize) -> (r: Vec<SearchResult>)
    requires
        forall|j: int| 0 <= j < rows@.len() ==> row_fits(#[trigger] rows@[j]@, search_kind_seq()),
    ensures
        search_listing(r@, rows@.map_values(|row: Vec<SqlValue>| row@), max as nat),
{
    let ghost all = rows@.map_values(|row: Vec<SqlValue>| row@);
    let mut out: Vec<SearchResult> = Vec::new();
    let mut i: usize = 0;
    while i < rows.len() && i < max
        invariant
            i <= rows@.len(),
            i <= max,
            all == rows@.map_values(|row: Vec<SqlValue>| row@),
            forall|j: int| 0 <= j < rows@.len() ==> row_fits(#[trigger] rows@[j]@, search_kind_seq()),
            out@.len() == i,
            forall|k: int| 0 <= k < i ==> search_row(#[trigger] out@[k], all[k]),
        decreases rows@.len() - i,
    {
        let row = &rows[i];
        assert(row_fits(rows@[i as int]@, search_kind_seq()));
        out.push(
            SearchResult {
                uri: get_text(row, 0),
                priority: get_i32(row, 1),
                disclosure: get_opt_text(row, 2),
                snippet: get_text(row, 3),
            },
        );
        i = i + 1;
    }
    out
}

/// The search query restricted to one domain (query text, domain, limit).
pub const SEARCH_IN_DOMAIN_SQL: &'static str = "SELECT sf.uri, sd.priority, sd.disclosure, snippet(search_fts, 1, '>>>', '<<<', '...', 32) as snip FROM search_fts sf JOIN search_documents sd ON sf.uri = sd.uri WHERE search_fts MATCH ?1 AND sd.domain = ?2 ORDER BY sd.priority ASC, rank LIMIT ?3";

/// The search query over every domain (query text, limit).
pub const SEARCH_ALL_SQL: &'static str = "SELECT sf.uri, sd.priority, sd.disclosure, snippet(search_fts, 1, '>>>', '<<<', '...', 32) as snip FROM search_fts sf JOIN search_documents sd ON sf.uri = sd.uri WHERE search_fts MATCH ?1 ORDER BY sd.priority ASC, rank LIMIT ?2";

/// The query a search sends: restricted to `domain` with the domain bound
/// as its second parameter when one is given, over every domain otherwise;
/// the limit is always the last parameter.
pub open spec fn search_plan(query: Seq<char>, domain: Option<&str>, limit: i64) -> (Seq<char>, Seq<Param>) {
    match domain {
        Some(d) => (SEARCH_IN_DOMAIN_SQL@, seq![Param::Text(query), Param::Text(d@), Param::Int(limit)]),
        None => (SEARCH_ALL_SQL@, seq![Param::Text(query), Param::Int(limit)]),
    }
}

/// Search memories by query text, optionally in one domain, best priority
/// first; at most `spec_search_limit(limit)` results are listed (default 10,
/// within 0 to 100), which is also the limit the database is asked for.
///
/// Exactly one query is sent (`search_plan`), and the results listed are
/// those of the rows it answered, in order.
pub fn search_memory(
    conn: &mut Db,
    query: &str,
    domain: Option<&str>,
    limit: Option<i64>,
) -> (r: Result<String, AppError>)
    ensures
        extends_by(final(conn).calls(), old(conn).calls(), 1),
        sent(
            final(conn).calls(),
            old(conn).calls().len() as int,
            search_plan(query@, domain, spec_search_limit(limit)).0,
            search_plan(query@, domain, spec_search_limit(limit)).1,
        ),
        r matches Ok(o) ==> query_ok(final(conn).calls(), old(conn).calls().len() as int) && exists|
            results: Seq<SearchResult>,
        |
            #[trigger] search_listing(
                results,
                rows_answer(final(conn).calls(), old(conn).calls().len() as int),
                spec_search_limit(limit) as nat,
            ) && o@ == search_text(query@, results),
        r matches Err(e) ==> is_db_err(e, "Search failed"@),
{
    let ghost lim = limit;
    let ghost o = conn.calls().len() as int;
    let limit = search_limit(limit);
    let kinds = vec![ColumnKind::Text, ColumnKind::Int32, ColumnKind::OptText, ColumnKind::Text];
    assert(kinds@ == search_kind_seq());
    let res = match domain {
        Some(d) => {
            let params = vec![text_param(query), text_param(d), SqlValue::Integer(limit)];
            assert(params_of(params@) =~= search_plan(query@, domain, limit).1);
            db_query(conn, SEARCH_IN_DOMAIN_SQL, &params, &kinds)
        },
        None => {
            let params = vec![text_param(query), SqlValue::Integer(limit)];
            assert(params_of(params@) =~= search_plan(query@, domain, limit).1);
            db_query(conn, SEARCH_ALL_SQL, &params, &kinds)
        },
    };
    proof {
        lemma_push_extends(old(conn).calls(), conn.calls().last());
        assert(conn.calls() =~= old(conn).calls().push(conn.calls().last()));
    }
    let rows = match res {
        Ok(rows) => rows,
        Err(e) => return Err(map_db_err("Search failed", &e)),
    };
    let results = search_results_from(&rows, limit as usize);
    let out = format_search(query, &results);
    let ghost rs = rows@.map_values(|row: Vec<SqlValue>| row@);
    assert(rs =~= rows_of(rows@));
    assert(rows_answer(conn.calls(), o) == rows_of(rows@));
    assert(search_listing(results@, rows_answer(conn.calls(), o), spec_search_limit(lim) as nat)
        && out@ == search_text(query@, results@));
    Ok(out)
}

/// The statement that drops the full-text entry of a URI.
pub const DROP_FTS_SQL: &'static str = "DELETE FROM search_fts WHERE uri = ?1";

/// The statement that writes the search document of a URI.
pub const UPSERT_DOCUMENT_SQL: &'static str = "INSERT OR REPLACE INTO search_documents (domain, path, node_uuid, memory_id, uri, content, disclosure, priority) VALUES (?1, ?2, ?3, ?4, ?5, ?6, ?7, ?8)";

/// The statement that adds the full-text entry of a URI.
pub const INSERT_FTS_SQL: &'static str = "INSERT INTO search_fts (uri, content, disclosure, search_terms) VALUES (?1, ?2, ?3, ?4)";

/// The record of an index update from statement `o` on: the full-text entry
/// of `domain://path` dropped, its search document written with every given
/// field, and a new full-text entry added with the content, the disclosure
/// (empty when absent) and no search terms; nothing else.
pub open spec fn upsert_record(
    calls: Seq<DbCall>,
    o: int,
    domain: Seq<char>,
    path: Seq<char>,
    node_uuid: Seq<char>,
    memory_id: i64,
    content: Seq<char>,
    disclosure: Option<&str>,
    priority: i32,
) -> bool {
    let uri = domain + sep() + path;
    &&& ran(calls, o, DROP_FTS_SQL@, seq![Param::Text(uri)])
    &&& ran(
        calls,
        o + 1,
        UPSERT_DOCUMENT_SQL@,
        seq![
            Param::Text(domain),
            Param::Text(path),
            Param::Text(node_uuid),
            Param::Int(memory_id),
            Param::Text(uri),
            Param::Text(content),
            graph::opt_param(disclosure),
            Param::Int(priority as i64),
        ],
    )
    &&& ran(
        calls,
        o + 2,
        INSERT_FTS_SQL@,
        seq![
            Param::Text(uri),
            Param::Text(content),
            Param::Text(
                match disclosure {
                    Some(d) => d@,
                    None => Seq::<char>::empty(),
                },
            ),
            Param::Text(Seq::<char>::empty()),
        ],
    )
    &&& calls.len() == o + 3
}

/// Upsert a search document and its full-text entry for `domain://path`.
pub fn upsert_search_document(
    conn: &mut Db,
    domain: &str,
    path: &str,
    node_uuid: &str,
    memory_id: i64,
    content: &str,
    disclosure: Option<&str>,
    priority: i32,
) -> (r: Result<(), AppError>)
    ensures
        extends(final(conn).calls(), old(conn).calls()),
        r is Ok ==> upsert_record(
            final(conn).calls(),
            old(conn).calls().len() as int,
            domain@,
            path@,
            node_uuid@,
            memory_id,
            content@,
            disclosure,
            priority,
        ),
        r matches Err(e) ==> is_db_err(e, "Failed to upsert search document"@),
{
    let mut uri = String::from_str(domain);
    uri.append("://");
    uri.append(path);
    assert(uri@ =~= domain@ + sep() + path@) by {
        reveal_strlit("://");
    }
    match upsert_rows(conn, domain, path, node_uuid, memory_id, uri.as_str(), content, disclosure, priority) {
        Ok(()) => Ok(()),
        Err(e) => Err(map_db_err("Failed to upsert search document", &e)),
    }
}

fn upsert_rows(
    conn: &mut Db,
    domain: &str,
    path: &str,
    node_uuid: &str,
    memory_id: i64,
    uri: &str,
    content: &str,
    disclosure: Option<&str>,
    priority: i32,
) -> (r: Result<(), rusqlite::Error>)
    requires
        uri@ == domain@ + sep() + path@,
    ensures
        extends(final(conn).calls(), old(conn).calls()),
        r is Ok ==> upsert_record(
            final(conn).calls(),
            old(conn).calls().len() as int,
            domain@,
            path@,
            node_uuid@,
            memory_id,
            content@,
            disclosure,
            priority,
        ),
{
    let ghost o = old(conn).calls().len() as int;
    let params = vec![text_param(uri)];
    assert(params_of(params@) =~= seq![Param::Text(uri@)]);
    let r0 = db_execute(conn, DROP_FTS_SQL, &params);
    let ghost c1 = conn.calls();
    proof {
        lemma_push_extends(old(conn).calls(), c1.last());
        assert(c1 =~= old(conn).calls().push(c1.last()));
    }
    r0?;
    let params = vec![
        text_param(domain),
        text_param(path),
        text_param(node_uuid),
        SqlValue::Integer(memory_id),
        text_param(uri),
        text_param(content),
        opt_text_param(disclosure),
        SqlValue::Integer(priority as i64),
    ];
    assert(params_of(params@) =~= seq![
        Param::Text(domain@),
        Param::Text(path@),
        Param::Text(node_uuid@),
        Param::Int(memory_id),
        Param::Text(uri@),
        Param::Text(content@),
        graph::opt_param(disclosure),
        Param::Int(priority as i64),
    ]);
    let r1 = db_execute(conn, UPSERT_DOCUMENT_SQL, &params);
    let ghost c2 = conn.calls();
    proof {
        lemma_push_extends(c1, c2.last());
        assert(c2 =~= c1.push(c2.last()));
        lemma_extends_trans(c2, c1, old(conn).calls());
    }
    r1?;
    let disclosure_text = match disclosure {
        Some(d) => d,
        None => "",
    };
    let empty = "";
    proof {
        reveal_strlit("");
    }
    assert(empty@ =~= Seq::<char>::empty());
    assert(disclosure_text@ == match disclosure {
        Some(d) => d@,
        None => Seq::<char>::empty(),
    });
    let params = vec![text_param(uri), text_param(content), text_param(disclosure_text), text_param(empty)];
    assert(params_of(params@) =~= seq![
        Param::Text(uri@),
        Param::Text(content@),
        Param::Text(
            match disclosure {
                Some(d) => d@,
                None => Seq::<char>::empty(),
            },
        ),
        Param::Text(Seq::<char>::empty()),
    ]);
    let r2 = db_execute(conn, INSERT_FTS_SQL, &params);
    let ghost c3 = conn.calls();
    proof {
        lemma_push_extends(c2, c3.last());
        assert(c3 =~= c2.push(c3.last()));
        lemma_extends_trans(c3, c2, old(conn).calls());
    }
    r2?;
    assert(c3[o] == c1[o]);
    assert(c3[o + 1] == c2[o + 1]);
    Ok(())
}

} // verus!

verus! {

/// The search limit is 10 by default and always within 0 to 100.
pub proof fn lemma_search_limit(limit: Option<i64>)
    ensures
        0 <= spec_search_limit(limit) <= 100,
        limit is None ==> spec_search_limit(limit) == 10,
        limit matches Some(l) ==> (0 <= l <= 100 ==> spec_search_limit(limit) == l),
{
}

} // verus!

verus! {

/// A search view lists the results in the order given, numbered from 1: the
/// view of one result is the heading followed by that result numbered 1,
/// and the view with one more result is the view without it followed by
/// that result, numbered after the others.
pub proof fn lemma_search_lists_results_in_order(query: Seq<char>, results: Seq<SearchResult>, r: SearchResult)
    ensures
        search_text(query, seq![r]) == "# Search results for \""@ + query + "\"\n\n"@ + search_entry(r, 0),
        results.len() > 0 ==> search_text(query, results.push(r)) == search_text(query, results)
            + search_entry(r, results.len() as int),
        search_entry(r, results.len() as int).take(dec_nat((results.len() + 1) as nat).len() as int)
            == dec_nat((results.len() + 1) as nat),
{
    let one = seq![r];
    assert(one.drop_last() =~= Seq::<SearchResult>::empty());
    assert(search_body(Seq::<SearchResult>::empty()) == Seq::<char>::empty());
    assert(one.last() == r);
    assert(search_body(one) =~= search_entry(r, 0));
    assert(results.push(r).drop_last() =~= results);
    assert(results.push(r).last() == r);
    assert(search_body(results.push(r)) == search_body(results) + search_entry(r, results.len() as int));
    if results.len() > 0 {
        assert(search_text(query, results.push(r)) =~= search_text(query, results) + search_entry(
            r,
            results.len() as int,
        ));
    }
    let n = results.len() as int;
    assert(dec_int(n + 1) == dec_nat((n + 1) as nat));
    assert(search_entry(r, n).take(dec_nat((n + 1) as nat).len() as int) =~= dec_nat((n + 1) as nat));
}

} // verus!
