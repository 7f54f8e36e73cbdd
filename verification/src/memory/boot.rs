//! System URI handlers: boot, index, recent, glossary.
use vstd::prelude::*;

use crate::memory::db::{
    extends, extends_by, lemma_push_extends, params_of, query_ok, rows_answer, rows_of, sent, Db,
    Param,
};

use crate::error::{is_internal, AppError};
use crate::memory::db::{
    db_query, get_i32, get_opt_text, get_text, int_of, is_db_err, map_db_err, opt_text_is,
    row_fits, text_of, text_param, ColumnKind, SqlValue,
};
use crate::memory::format::{join, prio_tag, push_prio_tag};
use crate::memory::read::{read_regular, regular_read_outcome};
use crate::memory::uri::sep;
use crate::text::{chars_of, str_eq, dec_int, dec_nat, matches_at, occurs_at, push_char, push_i64, push_u128};

verus! {

// ---------------------------------------------------------------------------
// Routing
// ---------------------------------------------------------------------------

/// Where a `system://` path leads.
#[derive(Debug, Clone, PartialEq, Eq)]
pub enum SystemRoute {
    /// `boot`: the core memories and the recent ones.
    Boot,
    /// `index`: every path, grouped by domain.
    Index,
    /// `index/<domain>`: the paths of one domain.
    IndexOf(String),
    /// `glossary`: every keyword.
    Glossary,
    /// `recent...`: the most recently modified memories, at most this many.
    Recent(usize),
    /// Anything else.
    Unknown,
}

/// `s` starts with `p`.
pub open spec fn starts_with(s: Seq<char>, p: Seq<char>) -> bool {
    occurs_at(s, p, 0)
}

pub open spec fn is_digit(c: char) -> bool {
    48 <= (c as u32) <= 57
}

pub open spec fn digit_value(c: char) -> nat {
    ((c as u32) - 48) as nat
}

/// Every character of `t` is a decimal digit.
pub open spec fn all_digits(t: Seq<char>) -> bool {
    forall|i: int| 0 <= i < t.len() ==> is_digit(#[trigger] t[i])
}

/// The number that a sequence of decimal digits spells.
pub open spec fn digits_value(s: Seq<char>) -> nat
    decreases s.len(),
{
    if s.len() == 0 {
        0
    } else {
        digits_value(s.drop_last()) * 10 + digit_value(s.last())
    }
}

/// What `s.parse::<usize>()` gives: an optional `+`, then at least one
/// decimal digit and nothing else, with a value that fits a `usize`.
pub open spec fn parse_usize(s: Seq<char>) -> Option<nat> {
    let t = if s.len() > 0 && s[0] == '+' {
        s.drop_first()
    } else {
        s
    };
    if t.len() > 0 && all_digits(t) && digits_value(t) <= usize::MAX {
        Some(digits_value(t))
    } else {
        None
    }
}

proof fn lemma_digits_value_prefix(s: Seq<char>, i: int)
    requires
        0 <= i <= s.len(),
    ensures
        digits_value(s) >= digits_value(s.take(i)),
    decreases s.len(),
{
    if i < s.len() {
        assert(s.drop_last().take(i) =~= s.take(i));
        lemma_digits_value_prefix(s.drop_last(), i);
    } else {
        assert(s.take(i) =~= s);
    }
}

/// `s.parse::<usize>()`.
pub fn parse_usize_exec(s: &Vec<char>) -> (r: Option<usize>)
    ensures
        match parse_usize(s@) {
            Some(v) => r == Some(v as usize),
            None => r is None,
        },
{
    let mut start: usize = 0;
    if s.len() > 0 && s[0] == '+' {
        start = 1;
    }
    let ghost t = if s@.len() > 0 && s@[0] == '+' {
        s@.drop_first()
    } else {
        s@
    };
    assert(t =~= s@.skip(start as int));
    assert(parse_usize(s@) == (if t.len() > 0 && all_digits(t) && digits_value(t) <= usize::MAX {
        Some(digits_value(t))
    } else {
        None
    }));
    if start >= s.len() {
        assert(t.len() == 0);
        return None;
    }
    let mut v: usize = 0;
    let mut i: usize = start;
    while i < s.len()
        invariant
            start <= i <= s@.len(),
            t =~= s@.skip(start as int),
            parse_usize(s@) == (if t.len() > 0 && all_digits(t) && digits_value(t) <= usize::MAX {
                Some(digits_value(t))
            } else {
                None
            }),
            forall|j: int| 0 <= j < i - start ==> is_digit(#[trigger] t[j]),
            v == digits_value(t.take(i - start)),
        decreases s@.len() - i,
    {
        let c = s[i];
        let u = c as u32;
        assert(t[i - start] == c);
        if u < 48 || u > 57 {
            assert(!is_digit(t[i - start]));
            assert(!all_digits(t));
            assert(parse_usize(s@) is None);
            return None;
        }
        assert(is_digit(t[i - start]));
        let d = (u - 48) as usize;
        assert(t.take(i + 1 - start).drop_last() =~= t.take(i - start));
        assert(d == digit_value(t[i - start]));
        assert(digits_value(t.take(i + 1 - start)) == v * 10 + d);
        if v > (usize::MAX - d) / 10 {
            proof {
                assert(v * 10 + d > usize::MAX) by (nonlinear_arith)
                    requires
                        v > (usize::MAX - d) / 10,
                        d <= 9,
                ;
                lemma_digits_value_prefix(t, i + 1 - start);
                assert(digits_value(t) > usize::MAX);
                assert(parse_usize(s@) is None);
            }
            return None;
        }
        assert(v * 10 + d <= usize::MAX) by (nonlinear_arith)
            requires
                v <= (usize::MAX - d) / 10,
                d <= 9,
        ;
        v = v * 10 + d;
        i = i + 1;
    }
    assert(t.take(s@.len() - start) =~= t);
    Some(v)
}

/// How many recent memories a `recent...` path asks for: the number after
/// `recent/` capped at 100, or 10 when there is none.
pub open spec fn recent_count(p: Seq<char>) -> nat {
    if starts_with(p, "recent/"@) {
        match parse_usize(p.skip(7)) {
            Some(v) => if v < 100 {
                v
            } else {
                100
            },
            None => 10,
        }
    } else {
        10
    }
}

/// `r` is where `system://p` leads.
pub open spec fn routes_to(p: Seq<char>, r: SystemRoute) -> bool {
    if p == "boot"@ {
        r is Boot
    } else if p == "index"@ {
        r is Index
    } else if p == "glossary"@ {
        r is Glossary
    } else if starts_with(p, "index/"@) {
        r matches SystemRoute::IndexOf(d) && d@ == p.skip(6)
    } else if starts_with(p, "recent"@) {
        r matches SystemRoute::Recent(n) && n == recent_count(p)
    } else {
        r is Unknown
    }
}

/// Where a `system://` path leads.
pub fn route_system_path(path: &str) -> (r: SystemRoute)
    ensures
        routes_to(path@, r),
{
    let p = chars_of(path);
    let boot = chars_of("boot");
    let index = chars_of("index");
    let glossary = chars_of("glossary");
    let index_slash = chars_of("index/");
    let recent = chars_of("recent");
    let recent_slash = chars_of("recent/");
    proof {
        reveal_strlit("index/");
        reveal_strlit("recent/");
    }
    if crate::text::chars_eq(&p, &boot) {
        SystemRoute::Boot
    } else if crate::text::chars_eq(&p, &index) {
        SystemRoute::Index
    } else if crate::text::chars_eq(&p, &glossary) {
        SystemRoute::Glossary
    } else if matches_at(&p, &index_slash, 0) {
        let d = crate::text::string_of(&p, 6, p.len());
        assert(d@ =~= path@.skip(6));
        SystemRoute::IndexOf(d)
    } else if matches_at(&p, &recent, 0) {
        let mut n: usize = 10;
        if matches_at(&p, &recent_slash, 0) {
            let rest = crate::memory::uri::sub_chars(&p, 7, p.len());
            assert(rest@ =~= path@.skip(7));
            match parse_usize_exec(&rest) {
                Some(v) => {
                    n = if v < 100 {
                        v
                    } else {
                        100
                    };
                },
                None => {},
            }
        }
        SystemRoute::Recent(n)
    } else {
        SystemRoute::Unknown
    }
}

// ---------------------------------------------------------------------------
// Index
// ---------------------------------------------------------------------------

/// One path of the index.
#[derive(Debug, Clone, PartialEq, Eq)]
pub struct IndexRow {
    pub domain: String,
    pub path: String,
    pub name: String,
    pub priority: i32,
    pub disclosure: Option<String>,
}

/// The domain of the row before row `i` (empty before the first).
pub open spec fn prev_domain(rows: Seq<IndexRow>, i: int) -> Seq<char> {
    if i == 0 {
        Seq::<char>::empty()
    } else {
        rows[i - 1].domain@
    }
}

/// The text for row `i` of the index: a domain heading when the domain
/// changes, then the path line.
pub open spec fn index_entry(rows: Seq<IndexRow>, i: int) -> Seq<char> {
    let r = rows[i];
    (if r.domain@ != prev_domain(rows, i) {
        "\n## "@ + r.domain@ + sep() + seq!['\n']
    } else {
        Seq::<char>::empty()
    }) + "- "@ + r.domain@ + sep() + r.path@ + prio_tag(r.priority as int) + (match r.disclosure {
        Some(d) => "  ("@ + d@ + seq![')'],
        None => Seq::<char>::empty(),
    }) + seq!['\n']
}

pub open spec fn index_body(rows: Seq<IndexRow>) -> Seq<char>
    decreases rows.len(),
{
    if rows.len() == 0 {
        Seq::<char>::empty()
    } else {
        index_body(rows.drop_last()) + index_entry(rows, rows.len() - 1)
    }
}

/// The memory index listing `rows`.
pub open spec fn index_text(rows: Seq<IndexRow>) -> Seq<char> {
    "# Memory Index\n\n"@ + index_body(rows) + (if rows.len() == 0 {
        "(no memories yet)\n"@
    } else {
        Seq::<char>::empty()
    })
}

proof fn lemma_index_body_step(rows: Seq<IndexRow>, i: int)
    requires
        0 <= i < rows.len(),
    ensures
        index_body(rows.take(i + 1)) == index_body(rows.take(i)) + index_entry(rows, i),
{
    let t = rows.take(i + 1);
    assert(t.drop_last() =~= rows.take(i));
    assert(prev_domain(t, i) == prev_domain(rows, i));
    assert(t[i] == rows[i]);
}

/// Appends the index text of row `i`.
#[verifier::spinoff_prover]
fn push_index_entry(out: &mut String, rows: &Vec<IndexRow>, i: usize)
    requires
        i < rows@.len(),
    ensures
        final(out)@ == old(out)@ + index_entry(rows@, i as int),
{
    let ghost before = out@;
    let row = &rows[i];
    let new_domain = if i == 0 {
        row.domain.as_str().unicode_len() != 0
    } else {
        !(row.domain == rows[i - 1].domain)
    };
    proof {
        if i == 0 {
            if row.domain@.len() == 0 {
                assert(row.domain@ =~= Seq::<char>::empty());
            }
        }
    }
    if new_domain {
        out.append("\n## ");
        out.append(row.domain.as_str());
        out.append("://");
        push_char(out, '\n');
    }
    let ghost mid = out@;
    out.append("- ");
    out.append(row.domain.as_str());
    out.append("://");
    out.append(row.path.as_str());
    push_prio_tag(out, row.priority);
    if let Some(d) = &row.disclosure {
        out.append("  (");
        out.append(d.as_str());
        push_char(out, ')');
    }
    push_char(out, '\n');
    proof {
        reveal_strlit("://");
        assert(new_domain == (rows@[i as int].domain@ != prev_domain(rows@, i as int)));
        assert(out@ =~= before + index_entry(rows@, i as int));
    }
}

/// Format the memory index.
pub fn format_index(rows: &Vec<IndexRow>) -> (r: String)
    ensures
        r@ == index_text(rows@),
{
    let mut out = String::from_str("# Memory Index\n\n");
    let ghost head = out@;
    let mut i: usize = 0;
    while i < rows.len()
        invariant
            i <= rows@.len(),
            out@ == head + index_body(rows@.take(i as int)),
        decreases rows@.len() - i,
    {
        let ghost before = out@;
        push_index_entry(&mut out, rows, i);
        proof {
            lemma_index_body_step(rows@, i as int);
        }
        i = i + 1;
    }
    assert(rows@.take(rows@.len() as int) =~= rows@);
    if rows.len() == 0 {
        out.append("(no memories yet)\n");
    }
    assert(out@ =~= index_text(rows@));
    out
}

/// Column kinds of an index row: domain, path, name, priority, disclosure.
pub open spec fn index_kind_seq() -> Seq<ColumnKind> {
    seq![ColumnKind::Text, ColumnKind::Text, ColumnKind::Text, ColumnKind::Int32, ColumnKind::OptText]
}

/// `e` is the index entry held by `row`.
pub open spec fn index_row(e: IndexRow, row: Seq<SqlValue>) -> bool {
    &&& e.domain@ == text_of(row[0])
    &&& e.path@ == text_of(row[1])
    &&& e.name@ == text_of(row[2])
    &&& e.priority == int_of(row[3])
    &&& opt_text_is(e.disclosure, row[4])
}

/// The text of an optional filter.
pub open spec fn filter_view(filter: Option<&str>) -> Option<Seq<char>> {
    match filter {
        Some(d) => Some(d@),
        None => None,
    }
}

/// The rows whose domain (first column) is the filter's, in order; all rows
/// without a filter.
pub open spec fn domain_filtered(rows: Seq<Seq<SqlValue>>, filter: Option<Seq<char>>) -> Seq<
    Seq<SqlValue>,
>
    decreases rows.len(),
{
    if rows.len() == 0 {
        Seq::<Seq<SqlValue>>::empty()
    } else {
        let rest = domain_filtered(rows.drop_last(), filter);
        match filter {
            Some(d) => if text_of(rows.last()[0]) == d {
                rest.push(rows.last())
            } else {
                rest
            },
            None => rest.push(rows.last()),
        }
    }
}

/// Every row kept by a domain filter has the filter's domain, and every kept
/// row is one of the rows.
pub proof fn lemma_domain_filtered(rows: Seq<Seq<SqlValue>>, filter: Option<Seq<char>>)
    ensures
        domain_filtered(rows, filter).len() <= rows.len(),
        forall|i: int|
            0 <= i < domain_filtered(rows, filter).len() ==> rows.contains(
                #[trigger] domain_filtered(rows, filter)[i],
            ),
        filter matches Some(d) ==> forall|i: int|
            0 <= i < domain_filtered(rows, filter).len() ==> text_of(
                #[trigger] domain_filtered(rows, filter)[i][0],
            ) == d,
        filter is None ==> domain_filtered(rows, filter) == rows,
    decreases rows.len(),
{
    if rows.len() > 0 {
        lemma_domain_filtered(rows.drop_last(), filter);
        let k = domain_filtered(rows, filter);
        let kr = domain_filtered(rows.drop_last(), filter);
        assert forall|i: int| 0 <= i < k.len() implies rows.contains(#[trigger] k[i]) by {
            if i < kr.len() {
                assert(kr[i] == k[i]);
                assert(rows.drop_last().contains(k[i]));
                let j = choose|j: int| 0 <= j < rows.drop_last().len() && rows.drop_last()[j] == k[i];
                assert(rows[j] == k[i]);
            } else {
                assert(k[i] == rows.last());
                assert(rows[rows.len() - 1] == k[i]);
            }
        }
        if filter is None {
            assert(k =~= rows);
        }
    } else {
        assert(domain_filtered(rows, filter) =~= rows);
    }
}

/// The index `entries` listed from query `rows` under `filter`: one entry per
/// row of the filter's domain, in order.
pub open spec fn index_listing(
    entries: Seq<IndexRow>,
    rows: Seq<Seq<SqlValue>>,
    filter: Option<Seq<char>>,
) -> bool {
    &&& forall|j: int| 0 <= j < rows.len() ==> row_fits(#[trigger] rows[j], index_kind_seq())
    &&& entries.len() == domain_filtered(rows, filter).len()
    &&& forall|i: int|
        0 <= i < entries.len() ==> index_row(#[trigger] entries[i], domain_filtered(rows, filter)[i])
    &&& filter matches Some(d) ==> forall|i: int| 0 <= i < entries.len() ==> (#[trigger] entries[i]).domain@ == d
}

/// The index entries held by index rows, keeping only the rows of the
/// filter's domain when there is a filter.
pub fn index_rows_from(rows: &Vec<Vec<SqlValue>>, filter: Option<&str>) -> (r: Vec<IndexRow>)
    requires
        forall|j: int| 0 <= j < rows@.len() ==> row_fits(#[trigger] rows@[j]@, index_kind_seq()),
    ensures
        index_listing(r@, rows@.map_values(|row: Vec<SqlValue>| row@), filter_view(filter)),
{
    let ghost all = rows@.map_values(|row: Vec<SqlValue>| row@);
    let ghost f = filter_view(filter);
    let mut out: Vec<IndexRow> = Vec::new();
    let mut i: usize = 0;
    while i < rows.len()
        invariant
            i <= rows@.len(),
            all == rows@.map_values(|row: Vec<SqlValue>| row@),
            f == filter_view(filter),
            forall|j: int| 0 <= j < rows@.len() ==> row_fits(#[trigger] rows@[j]@, index_kind_seq()),
            out@.len() == domain_filtered(all.take(i as int), f).len(),
            forall|k: int|
                0 <= k < out@.len() ==> index_row(
                    #[trigger] out@[k],
                    domain_filtered(all.take(i as int), f)[k],
                ),
        decreases rows@.len() - i,
    {
        let row = &rows[i];
        assert(row_fits(rows@[i as int]@, index_kind_seq()));
        assert(all.take(i + 1).drop_last() =~= all.take(i as int));
        assert(all.take(i + 1).last() == rows@[i as int]@);
        let domain = get_text(row, 0);
        let keep = match filter {
            Some(d) => str_eq(domain.as_str(), d),
            None => true,
        };
        if keep {
            out.push(
                IndexRow {
                    domain,
                    path: get_text(row, 1),
                    name: get_text(row, 2),
                    priority: get_i32(row, 3),
                    disclosure: get_opt_text(row, 4),
                },
            );
        }
        i = i + 1;
    }
    assert(all.take(rows@.len() as int) =~= all);
    proof {
        lemma_domain_filtered(all, f);
    }
    out
}

/// Generate the memory index, optionally only for one domain (bound as a
/// query parameter).
/// The index query restricted to one domain (the domain).
pub const INDEX_OF_SQL: &'static str = "SELECT p.domain, p.path, e.name, e.priority, e.disclosure FROM paths p JOIN edges e ON p.edge_id = e.id WHERE p.domain = ?1 ORDER BY p.domain, e.priority ASC, p.path";

/// The index query over every domain.
pub const INDEX_SQL: &'static str = "SELECT p.domain, p.path, e.name, e.priority, e.disclosure FROM paths p JOIN edges e ON p.edge_id = e.id ORDER BY p.domain, e.priority ASC, p.path";

/// The query an index sends: restricted to the filter's domain, bound as
/// its parameter, when there is one; over every domain otherwise.
pub open spec fn index_plan(domain_filter: Option<&str>) -> (Seq<char>, Seq<Param>) {
    match domain_filter {
        Some(d) => (INDEX_OF_SQL@, seq![Param::Text(d@)]),
        None => (INDEX_SQL@, Seq::<Param>::empty()),
    }
}

pub fn generate_index(conn: &mut Db, domain_filter: Option<&str>) -> (r: Result<
    String,
    AppError,
>)
    ensures
        extends_by(final(conn).calls(), old(conn).calls(), 1),
        sent(
            final(conn).calls(),
            old(conn).calls().len() as int,
            index_plan(domain_filter).0,
            index_plan(domain_filter).1,
        ),
        r matches Ok(o) ==> query_ok(final(conn).calls(), old(conn).calls().len() as int) && exists|
            entries: Seq<IndexRow>,
        |
            #[trigger] index_listing(
                entries,
                rows_answer(final(conn).calls(), old(conn).calls().len() as int),
                filter_view(domain_filter),
            ) && o@ == index_text(entries),
        r matches Err(e) ==> is_db_err(e, "Failed to generate index"@),
{
    let ghost o0 = conn.calls().len() as int;
    let kinds = vec![
        ColumnKind::Text,
        ColumnKind::Text,
        ColumnKind::Text,
        ColumnKind::Int32,
        ColumnKind::OptText,
    ];
    assert(kinds@ == index_kind_seq());
    let res = match domain_filter {
        Some(d) => {
            let params = vec![text_param(d)];
            assert(params_of(params@) =~= index_plan(domain_filter).1);
            db_query(conn, INDEX_OF_SQL, &params, &kinds)
        },
        None => {
            let params: Vec<SqlValue> = Vec::new();
            assert(params_of(params@) =~= index_plan(domain_filter).1);
            db_query(conn, INDEX_SQL, &params, &kinds)
        },
    };
    proof {
        lemma_push_extends(old(conn).calls(), conn.calls().last());
        assert(conn.calls() =~= old(conn).calls().push(conn.calls().last()));
    }
    let rows = match res {
        Ok(rows) => rows,
        Err(e) => return Err(map_db_err("Failed to generate index", &e)),
    };
    let entries = index_rows_from(&rows, domain_filter);
    let out = format_index(&entries);
    let ghost rs = rows@.map_values(|row: Vec<SqlValue>| row@);
    assert(rs =~= rows_of(rows@));
    assert(rows_answer(conn.calls(), o0) == rs);
    assert(index_listing(entries@, rs, filter_view(domain_filter)) && out@ == index_text(entries@));
    Ok(out)
}

// ---------------------------------------------------------------------------
// Recent
// ---------------------------------------------------------------------------

/// One recently modified memory.
#[derive(Debug, Clone, PartialEq, Eq)]
pub struct RecentRow {
    pub domain: String,
    pub path: String,
    pub priority: i32,
    pub disclosure: Option<String>,
    pub created_at: String,
}

/// The numbered line (and disclosure line) for row `i`.
pub open spec fn recent_entry(r: RecentRow, i: int) -> Seq<char> {
    dec_int(i + 1) + ". "@ + r.domain@ + sep() + r.path@ + prio_tag(r.priority as int)
        + "  modified: "@ + r.created_at@ + seq!['\n'] + (match r.disclosure {
        Some(d) => "   disclosure: "@ + d@ + seq!['\n'],
        None => Seq::<char>::empty(),
    })
}

pub open spec fn recent_body(rows: Seq<RecentRow>) -> Seq<char>
    decreases rows.len(),
{
    if rows.len() == 0 {
        Seq::<char>::empty()
    } else {
        recent_body(rows.drop_last()) + recent_entry(rows.last(), rows.len() - 1)
    }
}

/// The list of recent memories asked for with limit `n`.
pub open spec fn recent_text(n: int, rows: Seq<RecentRow>) -> Seq<char> {
    "# Recently Modified Memories (top "@ + dec_int(n) + ")\n\n"@ + recent_body(rows) + (if rows.len()
        == 0 {
        "(no memories yet)\n"@
    } else {
        Seq::<char>::empty()
    })
}

/// Format the list of recent memories.
#[verifier::spinoff_prover]
pub fn format_recent(n: i64, rows: &Vec<RecentRow>) -> (r: String)
    ensures
        r@ == recent_text(n as int, rows@),
{
    let mut out = String::from_str("# Recently Modified Memories (top ");
    push_i64(&mut out, n);
    out.append(")\n\n");
    let ghost head = out@;
    let mut i: usize = 0;
    while i < rows.len()
        invariant
            i <= rows@.len(),
            out@ == head + recent_body(rows@.take(i as int)),
        decreases rows@.len() - i,
    {
        let ghost before = out@;
        let row = &rows[i];
        push_u128(&mut out, i as u128 + 1);
        out.append(". ");
        out.append(row.domain.as_str());
        out.append("://");
        out.append(row.path.as_str());
        push_prio_tag(&mut out, row.priority);
        out.append("  modified: ");
        out.append(row.created_at.as_str());
        push_char(&mut out, '\n');
        if let Some(d) = &row.disclosure {
            out.append("   disclosure: ");
            out.append(d.as_str());
            push_char(&mut out, '\n');
        }
        proof {
            reveal_strlit("://");
            assert(dec_int(i + 1) == dec_nat((i + 1) as nat));
            assert(rows@.take(i + 1).drop_last() =~= rows@.take(i as int));
            assert(out@ =~= before + recent_entry(rows@[i as int], i as int));
        }
        i = i + 1;
    }
    assert(rows@.take(rows@.len() as int) =~= rows@);
    if rows.len() == 0 {
        out.append("(no memories yet)\n");
    }
    assert(out@ =~= recent_text(n as int, rows@));
    out
}

/// Column kinds of a recent row: domain, path, priority, disclosure, time.
pub open spec fn recent_kind_seq() -> Seq<ColumnKind> {
    seq![ColumnKind::Text, ColumnKind::Text, ColumnKind::Int32, ColumnKind::OptText, ColumnKind::Text]
}

/// `e` is the recent entry held by `row`.
pub open spec fn recent_row(e: RecentRow, row: Seq<SqlValue>) -> bool {
    &&& e.domain@ == text_of(row[0])
    &&& e.path@ == text_of(row[1])
    &&& e.priority == int_of(row[2])
    &&& opt_text_is(e.disclosure, row[3])
    &&& e.created_at@ == text_of(row[4])
}

/// The recent `entries` listed from query `rows`: one per row, in order, for
/// at most the first `n` rows.
pub open spec fn recent_listing(entries: Seq<RecentRow>, rows: Seq<Seq<SqlValue>>, n: nat) -> bool {
    &&& forall|j: int| 0 <= j < rows.len() ==> row_fits(#[trigger] rows[j], recent_kind_seq())
    &&& entries.len() == if rows.len() < n {
        rows.len()
    } else {
        n
    }
    &&& forall|i: int| 0 <= i < entries.len() ==> recent_row(#[trigger] entries[i], rows[i])
}

/// The recent entries held by the first `max` recent rows.
pub fn recent_rows_from(rows: &Vec<Vec<SqlValue>>, max: usize) -> (r: Vec<RecentRow>)
    requires
        forall|j: int| 0 <= j < rows@.len() ==> row_fits(#[trigger] rows@[j]@, recent_kind_seq()),
    ensures
        recent_listing(r@, rows@.map_values(|row: Vec<SqlValue>| row@), max as nat),
{
    let ghost all = rows@.map_values(|row: Vec<SqlValue>| row@);
    let mut out: Vec<RecentRow> = Vec::new();
    let mut i: usize = 0;
    while i < rows.len() && i < max
        invariant
            i <= rows@.len(),
            i <= max,
            all == rows@.map_values(|row: Vec<SqlValue>| row@),
            forall|j: int| 0 <= j < rows@.len() ==> row_fits(#[trigger] rows@[j]@, recent_kind_seq()),
            out@.len() == i,
            forall|k: int| 0 <= k < i ==> recent_row(#[trigger] out@[k], all[k]),
        decreases rows@.len() - i,
    {
        let row = &rows[i];
        assert(row_fits(rows@[i as int]@, recent_kind_seq()));
        out.push(
            RecentRow {
                domain: get_text(row, 0),
                path: get_text(row, 1),
                priority: get_i32(row, 2),
                disclosure: get_opt_text(row, 3),
                created_at: get_text(row, 4),
            },
        );
        i = i + 1;
    }
    out
}

/// Generate a list of the `n` most recently modified memories.
/// The query that lists the most recently created active memories with
/// their routes (the limit).
pub const RECENT_SQL: &'static str = "SELECT p.domain, p.path, e.priority, e.disclosure, m.created_at FROM memories m JOIN nodes nd ON m.node_uuid = nd.uuid JOIN edges e ON e.child_uuid = nd.uuid JOIN paths p ON p.edge_id = e.id WHERE m.deprecated = 0 ORDER BY m.created_at DESC LIMIT ?1";

pub fn generate_recent(conn: &mut Db, n: usize) -> (r: Result<String, AppError>)
    requires
        n <= i64::MAX,
    ensures
        extends_by(final(conn).calls(), old(conn).calls(), 1),
        sent(final(conn).calls(), old(conn).calls().len() as int, RECENT_SQL@, seq![Param::Int(n as i64)]),
        r matches Ok(o) ==> query_ok(final(conn).calls(), old(conn).calls().len() as int) && exists|
            entries: Seq<RecentRow>,
        |
            #[trigger] recent_listing(
                entries,
                rows_answer(final(conn).calls(), old(conn).calls().len() as int),
                n as nat,
            ) && o@ == recent_text(n as int, entries),
        r matches Err(e) ==> is_db_err(e, "Failed to generate recent"@),
{
    let ghost o0 = conn.calls().len() as int;
    let m = n as i64;
    let kinds = vec![
        ColumnKind::Text,
        ColumnKind::Text,
        ColumnKind::Int32,
        ColumnKind::OptText,
        ColumnKind::Text,
    ];
    assert(kinds@ == recent_kind_seq());
    let params = vec![SqlValue::Integer(m)];
    assert(params_of(params@) =~= seq![Param::Int(n as i64)]);
    let res = db_query(conn, RECENT_SQL, &params, &kinds);
    proof {
        lemma_push_extends(old(conn).calls(), conn.calls().last());
        assert(conn.calls() =~= old(conn).calls().push(conn.calls().last()));
    }
    let rows = match res {
        Ok(rows) => rows,
        Err(e) => return Err(map_db_err("Failed to generate recent", &e)),
    };
    let entries = recent_rows_from(&rows, n);
    let out = format_recent(m, &entries);
    let ghost rs = rows@.map_values(|row: Vec<SqlValue>| row@);
    assert(rs =~= rows_of(rows@));
    assert(rows_answer(conn.calls(), o0) == rs);
    assert(recent_listing(entries@, rs, n as nat) && out@ == recent_text(n as int, entries@));
    Ok(out)
}

// ---------------------------------------------------------------------------
// Glossary
// ---------------------------------------------------------------------------

/// One keyword and a path of the node it is bound to.
#[derive(Debug, Clone, PartialEq, Eq)]
pub struct GlossaryRow {
    pub keyword: String,
    pub domain: String,
    pub path: String,
}

pub open spec fn glossary_entry(r: GlossaryRow) -> Seq<char> {
    "- @"@ + r.keyword@ + " -> "@ + r.domain@ + sep() + r.path@ + seq!['\n']
}

pub open spec fn glossary_body(rows: Seq<GlossaryRow>) -> Seq<char>
    decreases rows.len(),
{
    if rows.len() == 0 {
        Seq::<char>::empty()
    } else {
        glossary_body(rows.drop_last()) + glossary_entry(rows.last())
    }
}

/// The glossary listing `rows`.
pub open spec fn glossary_text(rows: Seq<GlossaryRow>) -> Seq<char> {
    "# Glossary Keywords\n\n"@ + glossary_body(rows) + (if rows.len() == 0 {
        "(no keywords defined)\n"@
    } else {
        Seq::<char>::empty()
    })
}

/// Format the glossary.
pub fn format_glossary(rows: &Vec<GlossaryRow>) -> (r: String)
    ensures
        r@ == glossary_text(rows@),
{
    let mut out = String::from_str("# Glossary Keywords\n\n");
    let ghost head = out@;
    let mut i: usize = 0;
    while i < rows.len()
        invariant
            i <= rows@.len(),
            out@ == head + glossary_body(rows@.take(i as int)),
        decreases rows@.len() - i,
    {
        let ghost before = out@;
        let row = &rows[i];
        out.append("- @");
        out.append(row.keyword.as_str());
        out.append(" -> ");
        out.append(row.domain.as_str());
        out.append("://");
        out.append(row.path.as_str());
        push_char(&mut out, '\n');
        proof {
            reveal_strlit("://");
            assert(rows@.take(i + 1).drop_last() =~= rows@.take(i as int));
            assert(out@ =~= before + glossary_entry(rows@[i as int]));
        }
        i = i + 1;
    }
    assert(rows@.take(rows@.len() as int) =~= rows@);
    if rows.len() == 0 {
        out.append("(no keywords defined)\n");
    }
    assert(out@ =~= glossary_text(rows@));
    out
}

/// Column kinds of a glossary row: keyword, domain, path.
pub open spec fn glossary_kind_seq() -> Seq<ColumnKind> {
    seq![ColumnKind::Text, ColumnKind::Text, ColumnKind::Text]
}

/// `e` is the glossary entry held by `row`.
pub open spec fn glossary_row(e: GlossaryRow, row: Seq<SqlValue>) -> bool {
    &&& e.keyword@ == text_of(row[0])
    &&& e.domain@ == text_of(row[1])
    &&& e.path@ == text_of(row[2])
}

/// The glossary `entries` listed from query `rows`: one per row, in order.
pub open spec fn glossary_listing(entries: Seq<GlossaryRow>, rows: Seq<Seq<SqlValue>>) -> bool {
    &&& forall|j: int| 0 <= j < rows.len() ==> row_fits(#[trigger] rows[j], glossary_kind_seq())
    &&& entries.len() == rows.len()
    &&& forall|i: int| 0 <= i < entries.len() ==> glossary_row(#[trigger] entries[i], rows[i])
}

/// The glossary entries held by glossary rows, in order.
pub fn glossary_rows_from(rows: &Vec<Vec<SqlValue>>) -> (r: Vec<GlossaryRow>)
    requires
        forall|j: int| 0 <= j < rows@.len() ==> row_fits(#[trigger] rows@[j]@, glossary_kind_seq()),
    ensures
        glossary_listing(r@, rows@.map_values(|row: Vec<SqlValue>| row@)),
{
    let ghost all = rows@.map_values(|row: Vec<SqlValue>| row@);
    let mut out: Vec<GlossaryRow> = Vec::new();
    let mut i: usize = 0;
    while i < rows.len()
        invariant
            i <= rows@.len(),
            all == rows@.map_values(|row: Vec<SqlValue>| row@),
            forall|j: int| 0 <= j < rows@.len() ==> row_fits(#[trigger] rows@[j]@, glossary_kind_seq()),
            out@.len() == i,
            forall|k: int| 0 <= k < i ==> glossary_row(#[trigger] out@[k], all[k]),
        decreases rows@.len() - i,
    {
        let row = &rows[i];
        assert(row_fits(rows@[i as int]@, glossary_kind_seq()));
        out.push(
            GlossaryRow {
                keyword: get_text(row, 0),
                domain: get_text(row, 1),
                path: get_text(row, 2),
            },
        );
        i = i + 1;
    }
    out
}

/// Generate a glossary index of all keywords.
/// The query that lists every keyword with the routes of its node.
pub const GLOSSARY_SQL: &'static str = "SELECT gk.keyword, p.domain, p.path FROM glossary_keywords gk JOIN edges e ON e.child_uuid = gk.node_uuid JOIN paths p ON p.edge_id = e.id ORDER BY gk.keyword";

pub fn generate_glossary(conn: &mut Db) -> (r: Result<String, AppError>)
    ensures
        extends_by(final(conn).calls(), old(conn).calls(), 1),
        sent(final(conn).calls(), old(conn).calls().len() as int, GLOSSARY_SQL@, Seq::<Param>::empty()),
        r matches Ok(o) ==> query_ok(final(conn).calls(), old(conn).calls().len() as int) && exists|
            entries: Seq<GlossaryRow>,
        |
            #[trigger] glossary_listing(entries, rows_answer(final(conn).calls(), old(conn).calls().len() as int))
                && o@ == glossary_text(entries),
        r matches Err(e) ==> is_db_err(e, "Failed to generate glossary"@),
{
    let ghost o0 = conn.calls().len() as int;
    let kinds = vec![ColumnKind::Text, ColumnKind::Text, ColumnKind::Text];
    assert(kinds@ == glossary_kind_seq());
    let params: Vec<SqlValue> = Vec::new();
    assert(params_of(params@) =~= Seq::<Param>::empty());
    let res = db_query(conn, GLOSSARY_SQL, &params, &kinds);
    proof {
        lemma_push_extends(old(conn).calls(), conn.calls().last());
        assert(conn.calls() =~= old(conn).calls().push(conn.calls().last()));
    }
    let rows = match res {
        Ok(rows) => rows,
        Err(e) => return Err(map_db_err("Failed to generate glossary", &e)),
    };
    let entries = glossary_rows_from(&rows);
    let out = format_glossary(&entries);
    let ghost rs = rows@.map_values(|row: Vec<SqlValue>| row@);
    assert(rs =~= rows_of(rows@));
    assert(rows_answer(conn.calls(), o0) == rs);
    assert(glossary_listing(entries@, rs) && out@ == glossary_text(entries@));
    Ok(out)
}

// ---------------------------------------------------------------------------
// Boot
// ---------------------------------------------------------------------------

/// The separator placed before each loaded core memory.
pub open spec fn boot_separator() -> Seq<char> {
    "\n============================================================\n\n"@
}

/// The failure line for a core memory that could not be read.
pub open spec fn failure_lines(uri: Seq<char>, r: Result<String, AppError>) -> Seq<Seq<char>> {
    match r {
        Ok(_) => Seq::<Seq<char>>::empty(),
        Err(e) => seq!["- "@ + uri + ": "@ + e.spec_message()],
    }
}

/// The text of a core memory that was read.
pub open spec fn loaded_text(r: Result<String, AppError>) -> Seq<char> {
    match r {
        Ok(c) => boot_separator() + c@,
        Err(_) => Seq::<char>::empty(),
    }
}

/// The boot view from the readings of `core://agent` (`r1`) and
/// `core://user` (`r2`) and the recent list `recent` (empty when it failed).
pub open spec fn boot_text(
    r1: Result<String, AppError>,
    r2: Result<String, AppError>,
    recent: Seq<char>,
) -> Seq<char> {
    let body = "# Core Memories\n"@ + loaded_text(r1) + loaded_text(r2);
    let loaded: nat = (if r1 is Ok {
        1nat
    } else {
        0nat
    }) + (if r2 is Ok {
        1nat
    } else {
        0nat
    });
    let failed = failure_lines("core://agent"@, r1) + failure_lines("core://user"@, r2);
    let header = "# Loaded: "@ + dec_nat(loaded) + "/2 memories\n"@;
    let main = if failed.len() > 0 {
        header + "\n## Failed to load:\n"@ + join(failed, seq!['\n']) + "\n\n"@ + body
    } else {
        header + seq!['\n'] + body
    };
    main + (if recent.len() > 0 {
        "\n---\n\n"@ + recent
    } else {
        Seq::<char>::empty()
    })
}

/// The failure line of a core memory that could not be read.
fn failure_line(uri: &str, e: &AppError) -> (r: String)
    ensures
        r@ == "- "@ + uri@ + ": "@ + e.spec_message(),
{
    let mut line = String::from_str("- ");
    line.append(uri);
    line.append(": ");
    line.append(e.message().as_str());
    line
}

/// Appends the separator and text of a core memory that was read.
fn push_loaded(body: &mut String, r: &Result<String, AppError>)
    ensures
        final(body)@ == old(body)@ + loaded_text(*r),
{
    if let Ok(c) = r {
        body.append("\n============================================================\n\n");
        body.append(c.as_str());
    }
}

/// Format the boot view.
pub fn format_boot(
    r1: &Result<String, AppError>,
    r2: &Result<String, AppError>,
    recent: &str,
) -> (r: String)
    ensures
        r@ == boot_text(*r1, *r2, recent@),
{
    let mut body = String::from_str("# Core Memories\n");
    push_loaded(&mut body, r1);
    push_loaded(&mut body, r2);
    let loaded: u128 = (if r1.is_ok() {
        1
    } else {
        0
    }) + (if r2.is_ok() {
        1
    } else {
        0
    });
    let mut out = String::from_str("# Loaded: ");
    push_u128(&mut out, loaded);
    out.append("/2 memories\n");
    let ghost header = out@;
    let ghost failed = failure_lines("core://agent"@, *r1) + failure_lines("core://user"@, *r2);
    let mut joined = String::new();
    let mut any_failed = false;
    if let Err(e) = r1 {
        joined = failure_line("core://agent", e);
        any_failed = true;
    }
    if let Err(e) = r2 {
        if any_failed {
            push_char(&mut joined, '\n');
        }
        let line = failure_line("core://user", e);
        joined.append(line.as_str());
        any_failed = true;
    }
    proof {
        assert(any_failed == (failed.len() > 0));
        if failed.len() == 1 {
            assert(joined@ =~= join(failed, seq!['\n']));
        } else if failed.len() == 2 {
            assert(failed.drop_last().len() == 1);
            assert(join(failed.drop_last(), seq!['\n']) == failed[0]);
            assert(joined@ =~= join(failed, seq!['\n']));
        }
    }
    if any_failed {
        out.append("\n## Failed to load:\n");
        out.append(joined.as_str());
        out.append("\n\n");
        out.append(body.as_str());
    } else {
        push_char(&mut out, '\n');
        out.append(body.as_str());
    }
    if recent.unicode_len() > 0 {
        out.append("\n---\n\n");
        out.append(recent);
    }
    assert(out@ =~= boot_text(*r1, *r2, recent@));
    out
}

/// The text of the recent list shown at boot: the list of the 5 most
/// recent memories, or nothing where it failed.
pub open spec fn boot_recent(recent: Seq<char>) -> bool {
    recent.len() == 0 || exists|entries: Seq<RecentRow>, rows: Seq<Seq<SqlValue>>|
        #[trigger] recent_listing(entries, rows, 5) && recent == recent_text(5, entries)
}

/// Load the default core memories (`core://agent`, `core://user`) and the
/// five most recent memories.
pub fn generate_boot(conn: &mut Db) -> (r: String)
    ensures
        extends(final(conn).calls(), old(conn).calls()),
        exists|r1: Result<String, AppError>, r2: Result<String, AppError>, recent: Seq<char>|
            regular_read_outcome("core://agent"@, r1) && regular_read_outcome("core://user"@, r2)
                && boot_recent(recent) && r@ == #[trigger] boot_text(r1, r2, recent),
{
    let r1 = read_regular(conn, "core://agent");
    let r2 = read_regular(conn, "core://user");
    let ghost o0 = conn.calls().len() as int;
    let res = generate_recent(conn, 5);
    proof {
        if let Ok(o) = &res {
            let rows = rows_answer(conn.calls(), o0);
            let entries = choose|entries: Seq<RecentRow>|
                #[trigger] recent_listing(entries, rows, 5) && o@ == recent_text(5, entries);
            assert(recent_listing(entries, rows, 5));
        }
    }
    let recent = match res {
        Ok(t) => t,
        Err(_) => String::new(),
    };
    let out = format_boot(&r1, &r2, recent.as_str());
    assert(boot_recent(recent@));
    out
}

// ---------------------------------------------------------------------------
// Dispatch
// ---------------------------------------------------------------------------

/// The domain that `system://p` restricts the index to: none for `index`,
/// the rest of the path for `index/<domain>`.
pub open spec fn index_filter(p: Seq<char>) -> Option<Seq<char>> {
    if p == "index"@ {
        None
    } else {
        Some(p.skip(6))
    }
}

/// What `system://p` gives.
pub open spec fn system_outcome(p: Seq<char>, r: Result<String, AppError>) -> bool {
    if p == "boot"@ {
        r matches Ok(o) && exists|
            r1: Result<String, AppError>,
            r2: Result<String, AppError>,
            recent: Seq<char>,
        |
            regular_read_outcome("core://agent"@, r1) && regular_read_outcome("core://user"@, r2)
                && boot_recent(recent) && o@ == #[trigger] boot_text(r1, r2, recent)
    } else if p == "index"@ || (p != "glossary"@ && starts_with(p, "index/"@)) {
        match r {
            Ok(o) => exists|entries: Seq<IndexRow>, rows: Seq<Seq<SqlValue>>|
                #[trigger] index_listing(entries, rows, index_filter(p)) && o@ == index_text(
                    entries,
                ),
            Err(e) => is_db_err(e, "Failed to generate index"@),
        }
    } else if p == "glossary"@ {
        match r {
            Ok(o) => exists|entries: Seq<GlossaryRow>, rows: Seq<Seq<SqlValue>>|
                #[trigger] glossary_listing(entries, rows) && o@ == glossary_text(entries),
            Err(e) => is_db_err(e, "Failed to generate glossary"@),
        }
    } else if starts_with(p, "recent"@) {
        match r {
            Ok(o) => exists|entries: Seq<RecentRow>, rows: Seq<Seq<SqlValue>>|
                #[trigger] recent_listing(entries, rows, recent_count(p))
                    && o@ == recent_text(recent_count(p) as int, entries),
            Err(e) => is_db_err(e, "Failed to generate recent"@),
        }
    } else {
        r matches Err(e) && is_internal(e, "Unknown system URI: system://"@ + p)
    }
}

/// Dispatch `system://` URIs to their handlers.
pub fn handle_system_uri(conn: &mut Db, path: &str) -> (r: Result<String, AppError>)
    ensures
        extends(final(conn).calls(), old(conn).calls()),
        system_outcome(path@, r),
{
    let route = route_system_path(path);
    proof {
        reveal_strlit("boot");
        reveal_strlit("index");
        reveal_strlit("glossary");
        reveal_strlit("index/");
        reveal_strlit("recent");
    }
    match route {
        SystemRoute::Boot => {
            let out = generate_boot(conn);
            assert(path@ == "boot"@);
            let r: Result<String, AppError> = Ok(out);
            proof {
                let (r1, r2, recent) = choose|
                    r1: Result<String, AppError>,
                    r2: Result<String, AppError>,
                    recent: Seq<char>,
                |
                    regular_read_outcome("core://agent"@, r1) && regular_read_outcome(
                        "core://user"@,
                        r2,
                    ) && boot_recent(recent) && out@ == #[trigger] boot_text(r1, r2, recent);
                assert(r->Ok_0@ == boot_text(r1, r2, recent));
                assert(regular_read_outcome("core://agent"@, r1));
                assert(boot_recent(recent));
                assert(system_outcome(path@, r));
            }
            r
        },
        SystemRoute::Index => {
            let ghost o0 = conn.calls().len() as int;
            let r = generate_index(conn, None);
            proof {
                if let Ok(o) = &r {
                    let rows = rows_answer(conn.calls(), o0);
                    let entries = choose|entries: Seq<IndexRow>|
                        #[trigger] index_listing(entries, rows, filter_view(None)) && o@ == index_text(
                            entries,
                        );
                    assert(filter_view(None) == None::<Seq<char>>);
                    assert(index_listing(entries, rows, index_filter(path@)));
                }
            }
            assert(system_outcome(path@, r));
            r
        },
        SystemRoute::IndexOf(d) => {
            let ds = d.as_str();
            let ghost o0 = conn.calls().len() as int;
            let r = generate_index(conn, Some(ds));
            proof {
                if let Ok(o) = &r {
                    let rows = rows_answer(conn.calls(), o0);
                    let entries = choose|entries: Seq<IndexRow>|
                        #[trigger] index_listing(entries, rows, filter_view(Some(ds))) && o@ == index_text(
                            entries,
                        );
                    assert(filter_view(Some(ds)) == Some(d@));
                    assert(index_listing(entries, rows, index_filter(path@)));
                }
            }
            assert(system_outcome(path@, r));
            r
        },
        SystemRoute::Glossary => {
            let ghost o0 = conn.calls().len() as int;
            let r = generate_glossary(conn);
            proof {
                if let Ok(o) = &r {
                    let rows = rows_answer(conn.calls(), o0);
                    let entries = choose|entries: Seq<GlossaryRow>|
                        #[trigger] glossary_listing(entries, rows) && o@ == glossary_text(entries);
                    assert(glossary_listing(entries, rows));
                }
            }
            assert(system_outcome(path@, r));
            r
        },
        SystemRoute::Recent(n) => {
            assert(n <= 100);
            let ghost o0 = conn.calls().len() as int;
            let r = generate_recent(conn, n);
            proof {
                if let Ok(o) = &r {
                    let rows = rows_answer(conn.calls(), o0);
                    let entries = choose|entries: Seq<RecentRow>|
                        #[trigger] recent_listing(entries, rows, n as nat) && o@ == recent_text(n as int, entries);
                    assert(recent_listing(entries, rows, recent_count(path@)));
                }
            }
            assert(system_outcome(path@, r));
            r
        },
        SystemRoute::Unknown => {
            let mut m = String::from_str("Unknown system URI: system://");
            m.append(path);
            Err(AppError::Internal(m))
        },
    }
}

} // verus!

verus! {

/// `system://recent` lists 10 memories by default and never more than 100.
pub proof fn lemma_recent_count(p: Seq<char>)
    ensures
        recent_count(p) <= 100,
        !starts_with(p, "recent/"@) ==> recent_count(p) == 10,
{
}

/// `parse_usize` reads back the decimal digits of a number that fits.
pub proof fn lemma_parse_usize_digits(n: nat)
    requires
        n <= usize::MAX,
    ensures
        parse_usize(dec_nat(n)) == Some(n),
    decreases n,
{
    lemma_dec_nat_digits(n);
    let s = dec_nat(n);
    assert(s[0] != '+') by {
        assert(is_digit(s[0]));
    }
}

/// The decimal form of a number is a nonempty run of digits that spells it.
pub proof fn lemma_dec_nat_digits(n: nat)
    ensures
        dec_nat(n).len() > 0,
        all_digits(dec_nat(n)),
        digits_value(dec_nat(n)) == n,
    decreases n,
{
    if n >= 10 {
        lemma_dec_nat_digits(n / 10);
        let s = dec_nat(n);
        assert(s.drop_last() =~= dec_nat(n / 10));
        assert forall|i: int| 0 <= i < s.len() implies is_digit(#[trigger] s[i]) by {
            if i < s.len() - 1 {
                assert(s[i] == dec_nat(n / 10)[i]);
            } else {
                lemma_digit_char(n % 10);
            }
        }
        lemma_digit_char(n % 10);
        assert(s.last() == crate::text::digit_char(n % 10));
        assert((n / 10) * 10 + n % 10 == n);
    } else {
        lemma_digit_char(n);
        let s = dec_nat(n);
        assert(s.drop_last() =~= Seq::<char>::empty());
        assert(digits_value(s.drop_last()) == 0);
        assert(digits_value(s) == digit_value(s.last()));
    }
}

proof fn lemma_digit_char(d: nat)
    requires
        d < 10,
    ensures
        is_digit(crate::text::digit_char(d)),
        digit_value(crate::text::digit_char(d)) == d,
{
}

} // verus!

verus! {

/// The boot view's header counts the core memories that were read: it
/// starts with `# Loaded: 2/2 memories` when both readings succeeded,
/// `1/2` when exactly one did, `0/2` when neither did; then it lists one
/// failure line per failed reading, `core://agent` before `core://user`,
/// each with the error's text.
pub proof fn lemma_boot_counts_loaded(r1: Result<String, AppError>, r2: Result<String, AppError>, recent: Seq<char>)
    ensures
        r1 is Ok && r2 is Ok ==> "# Loaded: 2/2 memories\n\n# Core Memories\n"@.is_prefix_of(
            boot_text(r1, r2, recent),
        ),
        r2 is Ok ==> (r1 matches Err(e) ==> ("# Loaded: 1/2 memories\n\n## Failed to load:\n- core://agent: "@
            + e.spec_message() + "\n\n# Core Memories\n"@).is_prefix_of(boot_text(r1, r2, recent))),
        r1 is Ok ==> (r2 matches Err(e) ==> ("# Loaded: 1/2 memories\n\n## Failed to load:\n- core://user: "@
            + e.spec_message() + "\n\n# Core Memories\n"@).is_prefix_of(boot_text(r1, r2, recent))),
        r1 matches Err(e1) ==> (r2 matches Err(e2) ==> ("# Loaded: 0/2 memories\n\n## Failed to load:\n- core://agent: "@
            + e1.spec_message() + "\n- core://user: "@ + e2.spec_message()
            + "\n\n# Core Memories\n"@).is_prefix_of(boot_text(r1, r2, recent))),
{
    reveal_strlit("# Loaded: 2/2 memories\n\n# Core Memories\n");
    reveal_strlit("# Loaded: 1/2 memories\n\n## Failed to load:\n- core://agent: ");
    reveal_strlit("# Loaded: 1/2 memories\n\n## Failed to load:\n- core://user: ");
    reveal_strlit("# Loaded: 0/2 memories\n\n## Failed to load:\n- core://agent: ");
    reveal_strlit("\n- core://user: ");
    reveal_strlit("\n\n# Core Memories\n");
    reveal_strlit("# Loaded: ");
    reveal_strlit("/2 memories\n");
    reveal_strlit("# Core Memories\n");
    reveal_strlit("\n## Failed to load:\n");
    reveal_strlit("\n\n");
    reveal_strlit("- ");
    reveal_strlit(": ");
    reveal_strlit("core://agent");
    reveal_strlit("core://user");
    let t = boot_text(r1, r2, recent);
    let failed = failure_lines("core://agent"@, r1) + failure_lines("core://user"@, r2);
    match (r1, r2) {
        (Ok(_), Ok(_)) => {
            assert(dec_nat(2) =~= seq!['2']);
            assert(failed.len() == 0);
            let p = "# Loaded: 2/2 memories\n\n# Core Memories\n"@;
            assert(t.take(p.len() as int) =~= p);
        },
        (Err(e), Ok(_)) => {
            assert(dec_nat(1) =~= seq!['1']);
            assert(failed =~= seq!["- "@ + "core://agent"@ + ": "@ + e.spec_message()]);
            assert(join(failed, seq!['\n']) == failed[0]);
            let p = "# Loaded: 1/2 memories\n\n## Failed to load:\n- core://agent: "@ + e.spec_message()
                + "\n\n# Core Memories\n"@;
            assert(t.take(p.len() as int) =~= p);
        },
        (Ok(_), Err(e)) => {
            assert(dec_nat(1) =~= seq!['1']);
            assert(failed =~= seq!["- "@ + "core://user"@ + ": "@ + e.spec_message()]);
            assert(join(failed, seq!['\n']) == failed[0]);
            let p = "# Loaded: 1/2 memories\n\n## Failed to load:\n- core://user: "@ + e.spec_message()
                + "\n\n# Core Memories\n"@;
            assert(t.take(p.len() as int) =~= p);
        },
        (Err(e1), Err(e2)) => {
            assert(dec_nat(0) =~= seq!['0']);
            let l1 = "- "@ + "core://agent"@ + ": "@ + e1.spec_message();
            let l2 = "- "@ + "core://user"@ + ": "@ + e2.spec_message();
            assert(failed =~= seq![l1, l2]);
            assert(failed.drop_last() =~= seq![l1]);
            assert(join(failed.drop_last(), seq!['\n']) == l1);
            assert(join(failed, seq!['\n']) == l1 + seq!['\n'] + l2);
            let p = "# Loaded: 0/2 memories\n\n## Failed to load:\n- core://agent: "@ + e1.spec_message()
                + "\n- core://user: "@ + e2.spec_message() + "\n\n# Core Memories\n"@;
            assert(t.take(p.len() as int) =~= p);
        },
    }
}

/// The heading of a row's domain in the index.
pub open spec fn domain_heading(r: IndexRow) -> Seq<char> {
    "\n## "@ + r.domain@ + "://\n"@
}

/// The line of a row in the index: its URI, priority tag and disclosure.
pub open spec fn path_line(r: IndexRow) -> Seq<char> {
    "- "@ + r.domain@ + "://"@ + r.path@ + prio_tag(r.priority as int) + (match r.disclosure {
        Some(d) => "  ("@ + d@ + ")"@,
        None => Seq::<char>::empty(),
    }) + "\n"@
}

proof fn lemma_entry_shape(rows: Seq<IndexRow>, i: int)
    requires
        0 <= i < rows.len(),
    ensures
        rows[i].domain@ != prev_domain(rows, i) ==> index_entry(rows, i) == domain_heading(rows[i]) + path_line(rows[i]),
        rows[i].domain@ == prev_domain(rows, i) ==> index_entry(rows, i) == path_line(rows[i]),
{
    reveal_strlit("://");
    reveal_strlit("://\n");
    reveal_strlit(")");
    reveal_strlit("\n");
    let r = rows[i];
    assert(sep() =~= "://"@);
    assert(")"@ =~= seq![')']);
    assert("\n"@ =~= seq!['\n']);
    assert("://\n"@ =~= sep() + seq!['\n']);
    if r.domain@ != prev_domain(rows, i) {
        assert(index_entry(rows, i) =~= domain_heading(r) + path_line(r));
    } else {
        assert(index_entry(rows, i) =~= path_line(r));
    }
}

/// In the index, a domain heading comes before a row exactly when its
/// domain differs from the row before it: the index with one more row is
/// the index without it followed by that row's line, with the domain's
/// heading before the line only when the domain changes; the first row
/// gets its heading (its domain being nonempty).
pub proof fn lemma_index_headings(rows: Seq<IndexRow>, r: IndexRow)
    ensures
        r.domain@.len() > 0 ==> index_text(seq![r]) == "# Memory Index\n\n"@ + domain_heading(r) + path_line(r),
        rows.len() > 0 && r.domain@ == rows.last().domain@ ==> index_text(rows.push(r)) == index_text(rows)
            + path_line(r),
        rows.len() > 0 && r.domain@ != rows.last().domain@ ==> index_text(rows.push(r)) == index_text(rows)
            + domain_heading(r) + path_line(r),
{
    let one = seq![r];
    assert(one.drop_last() =~= Seq::<IndexRow>::empty());
    assert(index_body(one.drop_last()) == Seq::<char>::empty());
    assert(one[0] == r);
    assert(index_body(one) =~= index_entry(one, 0));
    lemma_entry_shape(one, 0);
    let rp = rows.push(r);
    assert(rp.drop_last() =~= rows);
    assert(rp[rows.len() as int] == r);
    assert(index_body(rp) == index_body(rows) + index_entry(rp, rows.len() as int));
    lemma_entry_shape(rp, rows.len() as int);
    if rows.len() > 0 {
        assert(prev_domain(rp, rows.len() as int) == rows.last().domain@);
        assert(index_text(rp) =~= index_text(rows) + index_entry(rp, rows.len() as int));
    }
    assert(index_text(one) =~= "# Memory Index\n\n"@ + index_entry(one, 0));
}

} // verus!
