//! Data types of the Canvas LMS integration.
use vstd::prelude::*;

verus! {

/// Persistent configuration for the Canvas LMS integration.
#[derive(Debug, Clone, PartialEq, Eq)]
pub struct CanvasSettings {
    pub api_url: String,
    pub api_token: String,
    pub cache_ttl_minutes: u64,
    pub ignored_course_ids: Vec<i64>,
}

impl Default for CanvasSettings {
    /// The settings used when none were saved.
    fn default() -> (s: Self)
        ensures
            s.api_url@ == "https://canvas.uts.edu.au"@,
            s.api_token@ == Seq::<char>::empty(),
            s.cache_ttl_minutes == 30,
            s.ignored_course_ids@.len() == 0,
    {
        CanvasSettings {
            api_url: String::from_str("https://canvas.uts.edu.au"),
            api_token: String::new(),
            cache_ttl_minutes: 30,
            ignored_course_ids: Vec::new(),
        }
    }
}

/// A Canvas LMS course.
#[derive(Debug, Clone, PartialEq, Eq)]
pub struct CanvasCourse {
    pub id: i64,
    pub name: String,
    pub course_code: String,
}

/// A Canvas LMS assignment or quiz with local completion tracking.
///
/// The possible points are held as the bit pattern of the `f64` that the
/// Canvas API reports (`f64::to_bits`), so that the library keeps the exact
/// value without computing with it.
#[derive(Debug, Clone, PartialEq, Eq)]
pub struct CanvasAssignment {
    pub id: i64,
    pub course_id: i64,
    pub course_name: String,
    pub name: String,
    pub due_at: Option<String>,
    pub points_possible_bits: Option<u64>,
    pub html_url: String,
    pub submission_types: Vec<String>,
    pub has_submitted_submissions: bool,
    pub is_quiz: bool,
    pub manually_completed: bool,
}

/// A snapshot of Canvas data.
#[derive(Debug, Clone, PartialEq, Eq)]
pub struct CanvasData {
    pub courses: Vec<CanvasCourse>,
    pub assignments: Vec<CanvasAssignment>,
    pub fetched_at: String,
}

} // verus!
