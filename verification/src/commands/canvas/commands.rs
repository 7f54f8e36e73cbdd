//! Canvas commands: cache freshness, course filtering and completion
//! tracking.
use vstd::prelude::*;

use crate::memory::db::{
    each_rows_of, extends_by, get_int, int_of, lemma_push_extends, params_of, ran, sent,
    Answer, Db, DbCall, Param, db_query_each,
};

use crate::commands::canvas::types::{CanvasAssignment, CanvasCourse, CanvasData};
use crate::commands::canvas::client::contains_id;
use crate::error::AppError;
use crate::memory::db::{
    db_error_text, db_err_msg, db_execute, row_fits, ColumnKind, SqlValue,
};

verus! {

/// Cached data is fresh while it is younger than the time to live:
/// `elapsed_secs` whole seconds have passed and the time to live is
/// `ttl_minutes` minutes.
pub fn is_cache_fresh(elapsed_secs: u64, ttl_minutes: u64) -> (r: bool)
    requires
        ttl_minutes * 60 <= u64::MAX,
    ensures
        r == (elapsed_secs < ttl_minutes * 60),
{
    elapsed_secs < ttl_minutes * 60
}

/// The assignments of the courses whose fetch succeeded, in order; the
/// courses whose fetch failed contribute nothing.
pub open spec fn fetched_assignments(results: Seq<Result<Vec<CanvasAssignment>, AppError>>) -> Seq<
    CanvasAssignment,
>
    decreases results.len(),
{
    if results.len() == 0 {
        Seq::<CanvasAssignment>::empty()
    } else {
        let rest = fetched_assignments(results.drop_last());
        match results.last() {
            Ok(v) => rest + v@,
            Err(_) => rest,
        }
    }
}

/// Gather the assignments of every course whose fetch succeeded, in order.
pub fn collect_assignments(results: Vec<Result<Vec<CanvasAssignment>, AppError>>) -> (r: Vec<
    CanvasAssignment,
>)
    ensures
        r@ == fetched_assignments(results@),
{
    let ghost all = results@;
    let n = results.len();
    let mut results = results;
    let mut rest: Vec<Result<Vec<CanvasAssignment>, AppError>> = Vec::new();
    std::mem::swap(&mut results, &mut rest);
    let mut out: Vec<CanvasAssignment> = Vec::new();
    let mut i: usize = 0;
    while rest.len() > 0
        invariant
            i + rest@.len() == all.len(),
            all.len() == n,
            rest@ == all.skip(i as int),
            out@ == fetched_assignments(all.take(i as int)),
        decreases rest@.len(),
    {
        let res = rest.remove(0);
        assert(res == all[i as int]);
        assert(all.take(i + 1).drop_last() =~= all.take(i as int));
        assert(all.take(i + 1).last() == all[i as int]);
        match res {
            Ok(v) => {
                let mut v = v;
                out.append(&mut v);
            },
            Err(_) => {},
        }
        assert(rest@ =~= all.skip(i + 1));
        i = i + 1;
    }
    assert(all.take(all.len() as int) =~= all);
    out
}

/// Text of the error for a missing API token.
pub open spec fn token_missing_msg() -> Seq<char> {
    "Canvas API token is not configured"@
}

/// Refuse to fetch without an API token.
///
/// Returns `AppError::Canvas` if the token is empty.
pub fn check_api_token(api_token: &str) -> (r: Result<(), AppError>)
    ensures
        api_token@.len() == 0 <==> r is Err,
        r matches Err(e) ==> (e matches AppError::Canvas(m) && m@ == token_missing_msg()),
{
    if api_token.unicode_len() == 0 {
        return Err(AppError::Canvas(String::from_str("Canvas API token is not configured")));
    }
    Ok(())
}

/// The courses whose ids are not ignored, in order.
pub open spec fn kept_courses(courses: Seq<CanvasCourse>, ignored: Seq<i64>) -> Seq<CanvasCourse>
    decreases courses.len(),
{
    if courses.len() == 0 {
        Seq::<CanvasCourse>::empty()
    } else {
        let rest = kept_courses(courses.drop_last(), ignored);
        if ignored.contains(courses.last().id) {
            rest
        } else {
            rest.push(courses.last())
        }
    }
}

fn copy_course(c: &CanvasCourse) -> (r: CanvasCourse)
    ensures
        r == *c,
{
    CanvasCourse { id: c.id, name: c.name.clone(), course_code: c.course_code.clone() }
}

/// The courses that are not ignored, in their order.
pub fn active_courses(courses: &Vec<CanvasCourse>, ignored: &Vec<i64>) -> (r: Vec<CanvasCourse>)
    ensures
        r@ == kept_courses(courses@, ignored@),
{
    let mut out: Vec<CanvasCourse> = Vec::new();
    let mut i: usize = 0;
    while i < courses.len()
        invariant
            i <= courses@.len(),
            out@ == kept_courses(courses@.take(i as int), ignored@),
        decreases courses@.len() - i,
    {
        let c = &courses[i];
        if !contains_id(ignored, c.id) {
            out.push(copy_course(c));
        }
        assert(courses@.take(i + 1).drop_last() =~= courses@.take(i as int));
        i = i + 1;
    }
    assert(courses@.take(courses@.len() as int) =~= courses@);
    out
}

/// `a` with its completion flag set to `completed` when it is assignment
/// `id`, unchanged otherwise.
pub open spec fn with_completion(a: CanvasAssignment, id: i64, completed: bool) -> CanvasAssignment {
    if a.id == id {
        CanvasAssignment { manually_completed: completed, ..a }
    } else {
        a
    }
}

/// Set the completion flag of assignment `assignment_id` in a list of
/// assignments; the others are unchanged.
pub fn mark_completion(assignments: &mut Vec<CanvasAssignment>, assignment_id: i64, completed: bool)
    ensures
        final(assignments)@.len() == old(assignments)@.len(),
        forall|i: int|
            0 <= i < old(assignments)@.len() ==> (#[trigger] final(assignments)@[i])
                == with_completion(old(assignments)@[i], assignment_id, completed),
{
    let ghost orig = assignments@;
    let mut rest: Vec<CanvasAssignment> = Vec::new();
    std::mem::swap(assignments, &mut rest);
    let n = rest.len();
    let mut i: usize = 0;
    while rest.len() > 0
        invariant
            n == orig.len(),
            i + rest@.len() == n,
            rest@ == orig.skip(i as int),
            assignments@.len() == i,
            forall|j: int|
                0 <= j < i ==> (#[trigger] assignments@[j]) == with_completion(
                    orig[j],
                    assignment_id,
                    completed,
                ),
        decreases rest@.len(),
    {
        let mut a = rest.remove(0);
        assert(a == orig[i as int]);
        if a.id == assignment_id {
            a.manually_completed = completed;
        }
        assignments.push(a);
        assert(rest@ =~= orig.skip(i + 1));
        i = i + 1;
    }
}

/// A Canvas database error under a context message.
pub open spec fn is_canvas_db_err(e: AppError, msg: Seq<char>) -> bool {
    exists|t: Seq<char>| #[trigger] db_err_msg(msg, t) == e->Canvas_0@ && e is Canvas
}

fn canvas_db_err(msg: &str, e: &rusqlite::Error) -> (r: AppError)
    ensures
        is_canvas_db_err(r, msg@),
{
    let t = db_error_text(e);
    let mut s = String::from_str(msg);
    s.append(": Error(\"");
    s.append(t.as_str());
    s.append("\")");
    let r = AppError::Canvas(s);
    assert(db_err_msg(msg@, t@) == r->Canvas_0@);
    r
}

/// The statement that records an assignment as completed (kept when
/// recorded already).
pub const MARK_COMPLETED_SQL: &'static str = "INSERT OR IGNORE INTO canvas_completed_tasks (assignment_id) VALUES (?1)";

/// The statement that forgets that an assignment was completed.
pub const UNMARK_COMPLETED_SQL: &'static str = "DELETE FROM canvas_completed_tasks WHERE assignment_id = ?1";

/// The query that lists the completed assignments.
pub const COMPLETED_SQL: &'static str = "SELECT assignment_id FROM canvas_completed_tasks";

/// The statement that records (`completed`) or forgets the completion of
/// assignment `id`.
pub open spec fn completion_plan(id: i64, completed: bool) -> (Seq<char>, Seq<Param>) {
    (if completed {
        MARK_COMPLETED_SQL@
    } else {
        UNMARK_COMPLETED_SQL@
    }, seq![Param::Int(id)])
}

/// What a statement does to the set of completed assignment ids: the
/// recording statement adds its id, the forgetting one removes it, any
/// other statement leaves the set as it is.
pub open spec fn completion_effect(done: Set<i64>, sql: Seq<char>, params: Seq<Param>) -> Set<i64> {
    if params.len() == 1 && params[0] is Int {
        let id = params[0]->Int_0;
        if sql == MARK_COMPLETED_SQL@ {
            done.insert(id)
        } else if sql == UNMARK_COMPLETED_SQL@ {
            done.remove(id)
        } else {
            done
        }
    } else {
        done
    }
}

/// Record (`completed`) or forget that an assignment was manually completed,
/// and reflect it in the cached data, if any.
///
/// Exactly one statement is sent: `completion_plan(assignment_id,
/// completed)`.
pub fn set_task_completion(
    conn: &mut Db,
    cache: &mut Option<CanvasData>,
    assignment_id: i64,
    completed: bool,
) -> (r: Result<(), AppError>)
    ensures
        extends_by(final(conn).calls(), old(conn).calls(), 1),
        sent(
            final(conn).calls(),
            old(conn).calls().len() as int,
            completion_plan(assignment_id, completed).0,
            completion_plan(assignment_id, completed).1,
        ),
        r is Ok <==> ran(
            final(conn).calls(),
            old(conn).calls().len() as int,
            completion_plan(assignment_id, completed).0,
            completion_plan(assignment_id, completed).1,
        ),
        r matches Err(e) ==> is_canvas_db_err(e, "Failed to update completion"@) && *final(cache)
            == *old(cache),
        r is Ok ==> match *old(cache) {
            None => *final(cache) is None,
            Some(d) => *final(cache) matches Some(nd) && nd.courses == d.courses && nd.fetched_at
                == d.fetched_at && nd.assignments@.len() == d.assignments@.len() && forall|i: int|
                0 <= i < d.assignments@.len() ==> (#[trigger] nd.assignments@[i]) == with_completion(
                    d.assignments@[i],
                    assignment_id,
                    completed,
                ),
        },
{
    let params = vec![SqlValue::Integer(assignment_id)];
    assert(params_of(params@) =~= seq![Param::Int(assignment_id)]);
    let sql = if completed {
        MARK_COMPLETED_SQL
    } else {
        UNMARK_COMPLETED_SQL
    };
    let res = db_execute(conn, sql, &params);
    proof {
        lemma_push_extends(old(conn).calls(), conn.calls().last());
        assert(conn.calls() =~= old(conn).calls().push(conn.calls().last()));
    }
    if let Err(e) = res {
        return Err(canvas_db_err("Failed to update completion", &e));
    }
    match cache {
        Some(data) => mark_completion(&mut data.assignments, assignment_id, completed),
        None => {},
    }
    Ok(())
}

/// The ids of the rows that were read, in order; a row that could not be
/// read as an id is skipped.
pub open spec fn ids_of_rows(rows: Seq<Option<Seq<SqlValue>>>) -> Seq<i64>
    decreases rows.len(),
{
    if rows.len() == 0 {
        Seq::<i64>::empty()
    } else {
        let rest = ids_of_rows(rows.drop_last());
        match rows.last() {
            Some(row) => rest.push(int_of(row[0])),
            None => rest,
        }
    }
}

/// The rows that query `i` of `calls` answered, each read on its own (none
/// where it failed).
pub open spec fn each_rows_answer(calls: Seq<DbCall>, i: int) -> Seq<Option<Seq<SqlValue>>> {
    match calls[i].answer {
        Answer::EachRow(Some(rows)) => rows,
        _ => Seq::<Option<Seq<SqlValue>>>::empty(),
    }
}

/// The ids held by the rows that were read, in order, skipping the rows
/// that could not be read.
pub fn completed_ids_from_rows(rows: &Vec<Option<Vec<SqlValue>>>) -> (r: Vec<i64>)
    requires
        forall|j: int|
            0 <= j < rows@.len() ==> (#[trigger] rows@[j] matches Some(row) ==> row_fits(
                row@,
                seq![ColumnKind::Int],
            )),
    ensures
        r@ == ids_of_rows(each_rows_of(rows@)),
{
    let ghost all = each_rows_of(rows@);
    let mut ids: Vec<i64> = Vec::new();
    let mut i: usize = 0;
    while i < rows.len()
        invariant
            i <= rows@.len(),
            all == each_rows_of(rows@),
            forall|j: int|
                0 <= j < rows@.len() ==> (#[trigger] rows@[j] matches Some(row) ==> row_fits(
                    row@,
                    seq![ColumnKind::Int],
                )),
            ids@ == ids_of_rows(all.take(i as int)),
        decreases rows@.len() - i,
    {
        assert(all.take(i + 1).drop_last() =~= all.take(i as int));
        assert(all.take(i + 1).last() == all[i as int]);
        match &rows[i] {
            Some(row) => {
                assert(row_fits(row@, seq![ColumnKind::Int]));
                ids.push(get_int(row, 0));
            },
            None => {},
        }
        i = i + 1;
    }
    assert(all.take(rows@.len() as int) =~= all);
    ids
}

/// Return all assignment ids that have been manually marked as completed.
///
/// Exactly one query is sent (`COMPLETED_SQL`, no parameters); the ids are
/// those of the rows it answered, in order, a row that cannot be read as an
/// id being skipped.
pub fn get_completed_tasks(conn: &mut Db) -> (r: Result<Vec<i64>, AppError>)
    ensures
        extends_by(final(conn).calls(), old(conn).calls(), 1),
        sent(final(conn).calls(), old(conn).calls().len() as int, COMPLETED_SQL@, Seq::<Param>::empty()),
        r matches Err(e) ==> is_canvas_db_err(e, "Failed to query completions"@),
        r matches Ok(ids) ==> final(conn).calls()[old(conn).calls().len() as int].answer is EachRow
            && final(conn).calls()[old(conn).calls().len() as int].answer->EachRow_0 is Some
            && ids@ == ids_of_rows(each_rows_answer(final(conn).calls(), old(conn).calls().len() as int)),
{
    let ghost o = conn.calls().len() as int;
    let kinds = vec![ColumnKind::Int];
    assert(kinds@ =~= seq![ColumnKind::Int]);
    let params: Vec<SqlValue> = Vec::new();
    assert(params_of(params@) =~= Seq::<Param>::empty());
    let res = db_query_each(conn, COMPLETED_SQL, &params, &kinds);
    proof {
        lemma_push_extends(old(conn).calls(), conn.calls().last());
        assert(conn.calls() =~= old(conn).calls().push(conn.calls().last()));
    }
    let rows = match res {
        Ok(rows) => rows,
        Err(e) => return Err(canvas_db_err("Failed to query completions", &e)),
    };
    let ids = completed_ids_from_rows(&rows);
    assert(each_rows_answer(conn.calls(), o) == each_rows_of(rows@));
    Ok(ids)
}

} // verus!

verus! {

/// Recording or forgetting a completion in the database is idempotent: the
/// statement that `set_task_completion` sends, run twice, leaves the set of
/// completed ids as running it once does; the last of two such statements
/// for one id decides alone.
pub proof fn lemma_completion_statement_idempotent(done: Set<i64>, id: i64, c1: bool, c2: bool)
    ensures
        ({
            let (sql, ps) = completion_plan(id, c1);
            completion_effect(completion_effect(done, sql, ps), sql, ps) == completion_effect(done, sql, ps)
        }),
        ({
            let (sql1, ps1) = completion_plan(id, c1);
            let (sql2, ps2) = completion_plan(id, c2);
            completion_effect(completion_effect(done, sql1, ps1), sql2, ps2) == completion_effect(done, sql2, ps2)
        }),
        completion_effect(done, completion_plan(id, true).0, completion_plan(id, true).1).contains(id),
        !completion_effect(done, completion_plan(id, false).0, completion_plan(id, false).1).contains(id),
{
    reveal_strlit("INSERT OR IGNORE INTO canvas_completed_tasks (assignment_id) VALUES (?1)");
    reveal_strlit("DELETE FROM canvas_completed_tasks WHERE assignment_id = ?1");
    assert(MARK_COMPLETED_SQL@ != UNMARK_COMPLETED_SQL@) by {
        assert(MARK_COMPLETED_SQL@[0] != UNMARK_COMPLETED_SQL@[0]);
    }
    let ins = done.insert(id);
    let rem = done.remove(id);
    assert(ins.insert(id) =~= ins);
    assert(rem.remove(id) =~= rem);
    assert(ins.remove(id) =~= rem);
    assert(rem.insert(id) =~= ins);
}

/// Marking an assignment twice is marking it once with the last value; other
/// assignments are never changed.
pub proof fn lemma_completion_last_write_wins(a: CanvasAssignment, id: i64, c1: bool, c2: bool)
    ensures
        with_completion(with_completion(a, id, c1), id, c2) == with_completion(a, id, c2),
        a.id != id ==> with_completion(a, id, c1) == a,
        a.id == id ==> with_completion(a, id, c1).manually_completed == c1,
{
}

/// The assignments with the completion of assignment `id` set to `c`.
pub open spec fn marked(s: Seq<CanvasAssignment>, id: i64, c: bool) -> Seq<CanvasAssignment> {
    Seq::new(s.len(), |i: int| with_completion(s[i], id, c))
}

/// Marking the cached assignments is idempotent: a second call of
/// `set_task_completion` with the same id and flag leaves the cached
/// assignments as one call does, and a later call decides alone.
pub proof fn lemma_completion_idempotent(s: Seq<CanvasAssignment>, id: i64, c1: bool, c2: bool)
    ensures
        marked(marked(s, id, c1), id, c1) == marked(s, id, c1),
        marked(marked(s, id, c1), id, c2) == marked(s, id, c2),
{
    assert(marked(marked(s, id, c1), id, c1) =~= marked(s, id, c1));
    assert(marked(marked(s, id, c1), id, c2) =~= marked(s, id, c2));
}

/// No ignored course is kept, and every course that is not ignored is.
pub proof fn lemma_kept_courses(courses: Seq<CanvasCourse>, ignored: Seq<i64>)
    ensures
        forall|i: int|
            0 <= i < kept_courses(courses, ignored).len() ==> !ignored.contains(
                #[trigger] kept_courses(courses, ignored)[i].id,
            ),
        forall|c: CanvasCourse| courses.contains(c) && !ignored.contains(c.id) ==> #[trigger] kept_courses(
            courses,
            ignored,
        ).contains(c),
        forall|c: CanvasCourse| #[trigger] kept_courses(courses, ignored).contains(c) ==> courses.contains(c),
    decreases courses.len(),
{
    if courses.len() > 0 {
        let rest = courses.drop_last();
        lemma_kept_courses(rest, ignored);
        let k = kept_courses(courses, ignored);
        let kr = kept_courses(rest, ignored);
        assert forall|c: CanvasCourse| courses.contains(c) && !ignored.contains(c.id) implies #[trigger] k.contains(c) by {
            let j = choose|j: int| 0 <= j < courses.len() && courses[j] == c;
            if j < courses.len() - 1 {
                assert(rest[j] == c);
                assert(rest.contains(c));
                assert(kr.contains(c));
                let m = choose|m: int| 0 <= m < kr.len() && kr[m] == c;
                if !ignored.contains(courses.last().id) {
                    assert(k[m] == c);
                } else {
                    assert(k[m] == c);
                }
            } else {
                assert(k[k.len() - 1] == c);
            }
        }
        assert forall|c: CanvasCourse| #[trigger] k.contains(c) implies courses.contains(c) by {
            let m = choose|m: int| 0 <= m < k.len() && k[m] == c;
            if m < kr.len() {
                assert(kr[m] == c);
                assert(kr.contains(c));
                let j = choose|j: int| 0 <= j < rest.len() && rest[j] == c;
                assert(courses[j] == c);
            } else {
                assert(courses[courses.len() - 1] == c);
            }
        }
    }
}

} // verus!
