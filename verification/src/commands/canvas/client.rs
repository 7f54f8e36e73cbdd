//! The Canvas API client's logic: request URLs, the authorization header,
//! conversion of API records and pagination links.
use vstd::prelude::*;

use crate::commands::canvas::types::{CanvasAssignment, CanvasCourse};
use crate::memory::uri::{ends_with, sub_chars};
use crate::text::{chars_of, dec_int, find_from, find_seq, matches_at, push_i64, string_of, trim, trim_bounds};

verus! {

/// A course as the Canvas API returns it.
#[derive(Debug, Clone, PartialEq, Eq)]
pub struct ApiCourse {
    pub id: i64,
    pub name: Option<String>,
    pub course_code: Option<String>,
}

/// An assignment as the Canvas API returns it; the possible points are
/// held as the bit pattern of the `f64` (`f64::to_bits`).
#[derive(Debug, Clone, PartialEq, Eq)]
pub struct ApiAssignment {
    pub id: i64,
    pub course_id: i64,
    pub name: Option<String>,
    pub due_at: Option<String>,
    pub points_possible_bits: Option<u64>,
    pub html_url: Option<String>,
    pub submission_types: Vec<String>,
    pub has_submitted_submissions: bool,
    pub is_quiz_assignment: bool,
}

/// The text of an optional string, empty when absent (`unwrap_or_default`).
pub open spec fn text_or_empty(s: Option<String>) -> Seq<char> {
    match s {
        Some(t) => t@,
        None => Seq::<char>::empty(),
    }
}

fn unwrap_text(s: Option<String>) -> (r: String)
    ensures
        r@ == text_or_empty(s),
{
    match s {
        Some(t) => t,
        None => String::new(),
    }
}

/// `s` without its trailing `c` characters (`str::trim_end_matches`).
pub open spec fn strip_end(s: Seq<char>, c: char) -> Seq<char>
    decreases s.len(),
{
    if s.len() > 0 && s.last() == c {
        strip_end(s.drop_last(), c)
    } else {
        s
    }
}

/// `s` without its leading `c` characters (`str::trim_start_matches`).
pub open spec fn strip_start(s: Seq<char>, c: char) -> Seq<char>
    decreases s.len(),
{
    if s.len() > 0 && s[0] == c {
        strip_start(s.drop_first(), c)
    } else {
        s
    }
}

/// A base URL without its trailing slashes.
pub fn normalize_base_url(base_url: &str) -> (r: String)
    ensures
        r@ == strip_end(base_url@, '/'),
{
    let v = chars_of(base_url);
    let mut hi = v.len();
    assert(v@.subrange(0, hi as int) =~= v@);
    while hi > 0 && v[hi - 1] == '/'
        invariant
            hi <= v@.len(),
            strip_end(v@, '/') == strip_end(v@.subrange(0, hi as int), '/'),
        decreases hi,
    {
        assert(v@.subrange(0, hi as int).drop_last() =~= v@.subrange(0, hi - 1));
        hi = hi - 1;
    }
    string_of(&v, 0, hi)
}

/// The value of the `Authorization` header for a personal access token.
pub fn authorization_value(token: &str) -> (r: String)
    ensures
        r@ == "Bearer "@ + token@,
{
    let mut r = String::from_str("Bearer ");
    r.append(token);
    r
}

/// The URL listing the user's active courses.
pub fn courses_url(base_url: &str) -> (r: String)
    ensures
        r@ == base_url@ + "/api/v1/courses?enrollment_state=active&per_page=100"@,
{
    let mut r = String::from_str(base_url);
    r.append("/api/v1/courses?enrollment_state=active&per_page=100");
    r
}

/// The URL listing a course's assignments with the user's submissions,
/// ordered by due date.
pub fn assignments_url(base_url: &str, course_id: i64) -> (r: String)
    ensures
        r@ == base_url@ + "/api/v1/courses/"@ + dec_int(course_id as int)
            + "/assignments?include[]=submission&per_page=100&order_by=due_at"@,
{
    let mut r = String::from_str(base_url);
    r.append("/api/v1/courses/");
    push_i64(&mut r, course_id);
    r.append("/assignments?include[]=submission&per_page=100&order_by=due_at");
    r
}

/// The course for an API course: missing texts become empty.
pub fn course_from_api(c: ApiCourse) -> (r: CanvasCourse)
    ensures
        r.id == c.id,
        r.name@ == text_or_empty(c.name),
        r.course_code@ == text_or_empty(c.course_code),
{
    CanvasCourse { id: c.id, name: unwrap_text(c.name), course_code: unwrap_text(c.course_code) }
}

/// The courses for a list of API courses, in order.
pub fn courses_from_api(items: Vec<ApiCourse>) -> (r: Vec<CanvasCourse>)
    ensures
        r@.len() == items@.len(),
        forall|i: int|
            0 <= i < items@.len() ==> (#[trigger] r@[i]).id == items@[i].id && r@[i].name@
                == text_or_empty(items@[i].name) && r@[i].course_code@ == text_or_empty(
                items@[i].course_code,
            ),
{
    let ghost orig = items@;
    let mut items = items;
    let mut out: Vec<CanvasCourse> = Vec::new();
    let mut i: usize = 0;
    let n = items.len();
    while items.len() > 0
        invariant
            n == orig.len(),
            out@.len() == i,
            i + items@.len() == n,
            items@ == orig.skip(i as int),
            forall|j: int|
                0 <= j < i ==> (#[trigger] out@[j]).id == orig[j].id && out@[j].name@
                    == text_or_empty(orig[j].name) && out@[j].course_code@ == text_or_empty(
                    orig[j].course_code,
                ),
        decreases items@.len(),
    {
        let c = items.remove(0);
        assert(c == orig[i as int]);
        out.push(course_from_api(c));
        assert(items@ =~= orig.skip(i + 1));
        i = i + 1;
    }
    out
}

/// Whether `ids` contains `id`.
pub fn contains_id(ids: &Vec<i64>, id: i64) -> (r: bool)
    ensures
        r == ids@.contains(id),
{
    let mut i: usize = 0;
    while i < ids.len()
        invariant
            i <= ids@.len(),
            forall|j: int| 0 <= j < i ==> ids@[j] != id,
        decreases ids@.len() - i,
    {
        if ids[i] == id {
            assert(ids@[i as int] == id);
            return true;
        }
        i = i + 1;
    }
    false
}

/// `r` is the assignment made from the API assignment `a` of course
/// `course_name`, marked completed when its id is among `completed_ids`.
pub open spec fn assignment_made_from(
    r: CanvasAssignment,
    a: ApiAssignment,
    course_name: Seq<char>,
    completed_ids: Seq<i64>,
) -> bool {
    &&& r.id == a.id
    &&& r.course_id == a.course_id
    &&& r.course_name@ == course_name
    &&& r.name@ == text_or_empty(a.name)
    &&& r.due_at == a.due_at
    &&& r.points_possible_bits == a.points_possible_bits
    &&& r.html_url@ == text_or_empty(a.html_url)
    &&& r.submission_types == a.submission_types
    &&& r.has_submitted_submissions == a.has_submitted_submissions
    &&& r.is_quiz == a.is_quiz_assignment
    &&& r.manually_completed == completed_ids.contains(a.id)
}

/// The assignment for an API assignment of course `course_name`.
pub fn assignment_from_api(a: ApiAssignment, course_name: &str, completed_ids: &Vec<i64>) -> (r:
    CanvasAssignment)
    ensures
        assignment_made_from(r, a, course_name@, completed_ids@),
{
    let done = contains_id(completed_ids, a.id);
    CanvasAssignment {
        id: a.id,
        course_id: a.course_id,
        course_name: String::from_str(course_name),
        name: unwrap_text(a.name),
        due_at: a.due_at,
        points_possible_bits: a.points_possible_bits,
        html_url: unwrap_text(a.html_url),
        submission_types: a.submission_types,
        has_submitted_submissions: a.has_submitted_submissions,
        is_quiz: a.is_quiz_assignment,
        manually_completed: done,
    }
}

/// The assignments for a list of API assignments of one course, in order.
pub fn assignments_from_api(
    items: Vec<ApiAssignment>,
    course_name: &str,
    completed_ids: &Vec<i64>,
) -> (r: Vec<CanvasAssignment>)
    ensures
        r@.len() == items@.len(),
        forall|i: int|
            0 <= i < items@.len() ==> assignment_made_from(
                #[trigger] r@[i],
                items@[i],
                course_name@,
                completed_ids@,
            ),
{
    let ghost orig = items@;
    let mut items = items;
    let mut out: Vec<CanvasAssignment> = Vec::new();
    let mut i: usize = 0;
    let n = items.len();
    while items.len() > 0
        invariant
            n == orig.len(),
            out@.len() == i,
            i + items@.len() == n,
            items@ == orig.skip(i as int),
            forall|j: int|
                0 <= j < i ==> assignment_made_from(
                    #[trigger] out@[j],
                    orig[j],
                    course_name@,
                    completed_ids@,
                ),
        decreases items@.len(),
    {
        let a = items.remove(0);
        assert(a == orig[i as int]);
        out.push(assignment_from_api(a, course_name, completed_ids));
        assert(items@ =~= orig.skip(i + 1));
        i = i + 1;
    }
    out
}

// ---------------------------------------------------------------------------
// Pagination
// ---------------------------------------------------------------------------

/// Index of the first `c` in `s`, or its length.
pub open spec fn first_pos(s: Seq<char>, c: char) -> int {
    match find_from(s, seq![c], 0) {
        Some(i) => i,
        None => s.len() as int,
    }
}

/// The URL of one link of a `Link` header: the text before the first `>`,
/// trimmed, without its leading `<`s.
pub open spec fn link_url(part: Seq<char>) -> Seq<char> {
    strip_start(trim(part.take(first_pos(part, '>'))), '<')
}

/// The `rel="next"` URL of a `Link` header: the first comma-separated part
/// that ends (once trimmed) with `rel="next"`.
pub open spec fn next_link(s: Seq<char>) -> Option<Seq<char>>
    decreases s.len(),
{
    let i = first_pos(s, ',');
    let part = trim(s.take(i));
    if ends_with(part, "rel=\"next\""@) {
        Some(link_url(part))
    } else if i >= s.len() || i < 0 {
        None
    } else {
        next_link(s.skip(i + 1))
    }
}

proof fn lemma_first_pos(s: Seq<char>, c: char)
    ensures
        0 <= first_pos(s, c) <= s.len(),
{
    crate::text::lemma_find_from(s, seq![c], 0);
}

/// Index of the first `c` in `v`, or its length.
fn first_pos_exec(v: &Vec<char>, c: char) -> (r: usize)
    ensures
        r == first_pos(v@, c),
{
    let p = vec![c];
    assert(p@ =~= seq![c]);
    proof {
        crate::text::lemma_find_from(v@, seq![c], 0);
    }
    match find_seq(v, &p) {
        Some(i) => i,
        None => v.len(),
    }
}

fn link_url_exec(part: &Vec<char>) -> (r: String)
    ensures
        r@ == link_url(part@),
{
    proof {
        lemma_first_pos(part@, '>');
    }
    let k = first_pos_exec(part, '>');
    let pre = sub_chars(part, 0, k);
    assert(pre@ =~= part@.take(k as int));
    let (lo, hi) = trim_bounds(&pre);
    let mut start = lo;
    let ghost t = trim(pre@);
    assert(pre@.subrange(start as int, hi as int) =~= t);
    while start < hi && pre[start] == '<'
        invariant
            lo <= start <= hi,
            hi <= pre@.len(),
            strip_start(t, '<') == strip_start(pre@.subrange(start as int, hi as int), '<'),
        decreases hi - start,
    {
        assert(pre@.subrange(start as int, hi as int).drop_first() =~= pre@.subrange(
            start + 1,
            hi as int,
        ));
        start = start + 1;
    }
    string_of(&pre, start, hi)
}

/// Extract the `rel="next"` URL from a `Link` response header.
pub fn parse_next_link(link_header: &str) -> (r: Option<String>)
    ensures
        match next_link(link_header@) {
            Some(u) => r matches Some(s) && s@ == u,
            None => r is None,
        },
{
    let rel = chars_of("rel=\"next\"");
    let mut rest = chars_of(link_header);
    loop
        invariant
            next_link(link_header@) == next_link(rest@),
            rel@ == "rel=\"next\""@,
        decreases rest@.len(),
    {
        proof {
            lemma_first_pos(rest@, ',');
        }
        let i = first_pos_exec(&rest, ',');
        let piece = sub_chars(&rest, 0, i);
        assert(piece@ =~= rest@.take(i as int));
        let (lo, hi) = trim_bounds(&piece);
        let part = sub_chars(&piece, lo, hi);
        let n = part.len();
        if n >= rel.len() && matches_at(&part, &rel, n - rel.len()) {
            return Some(link_url_exec(&part));
        }
        if i >= rest.len() {
            return None;
        }
        let next = sub_chars(&rest, i + 1, rest.len());
        assert(next@ =~= rest@.skip(i + 1));
        rest = next;
    }
}

} // verus!
