use qtools::memory::db::Db;
use qtools::agent::types::{AgentSettings, AgentState, ApiFormat, MessageRole};
use qtools::commands::agent::chat::{complete_turn, conversation_title, finish_turn, start_turn};
use qtools::agent::types::StreamEvent;
use qtools::commands::agent::conversations::{
    create_conversation, delete_conversation, get_conversations, get_messages,
};
use qtools::commands::canvas::client::{
    assignment_from_api, assignments_url, authorization_value, course_from_api, courses_url,
    normalize_base_url, parse_next_link, ApiAssignment, ApiCourse,
};
use qtools::commands::canvas::commands::{
    active_courses, check_api_token, get_completed_tasks, is_cache_fresh, mark_completion,
    set_task_completion,
};
use qtools::commands::canvas::types::{CanvasAssignment, CanvasCourse, CanvasData, CanvasSettings};
use qtools::commands::data_dir::check_data_dir_path;
use qtools::commands::greeter::greet;
use qtools::data_dir::{data_dir_from_config, default_config, resolve_relative, DataDirConfig, DATA_FILES};
use qtools::error::AppError;
use qtools::memory::chat_store::{role_from_str, role_str};
use qtools::memory::db::init_db;
use qtools::memory::tools::{
    alias_call_summary, log_call, new_tool_call_log, tool_call_record, AddAliasArgs,
    MemoryToolError,
};
use rusqlite::Connection;

fn db() -> Connection {
    let conn = Connection::open_in_memory().unwrap();
    init_db(&mut Db::new(&conn)).unwrap();
    conn
}

#[test]
fn greet_formats_and_rejects_empty() {
    assert_eq!(greet("Ada").unwrap(), "Hello, Ada! You've been greeted from Rust!");
    assert_eq!(greet("").unwrap_err(), AppError::Internal("Name cannot be empty".to_string()));
}

#[test]
fn error_messages() {
    assert_eq!(AppError::Internal("x".into()).message(), "x");
    assert_eq!(AppError::Provider("x".into()).message(), "Provider error: x");
    assert_eq!(AppError::Settings("x".into()).message(), "Settings error: x");
    assert_eq!(AppError::ConversationNotFound("c1".into()).message(), "Conversation not found: c1");
    assert_eq!(AppError::Canvas("x".into()).message(), "Canvas error: x");
    let t = MemoryToolError::from_app_error(&AppError::Canvas("down".into()));
    assert_eq!(t.0, "Canvas error: down");
}

#[test]
fn defaults() {
    let s = AgentSettings::default();
    assert_eq!(s.base_url, "https://api.openai.com/v1");
    assert_eq!(s.api_key, "");
    assert_eq!(s.model, "gpt-4o");
    assert_eq!(s.api_format, ApiFormat::OpenAiChat);
    assert_eq!(s.system_prompt, "You are a helpful assistant.");
    let st = AgentState::default();
    assert!(st.conversations.is_empty());
    assert!(st.messages.is_empty());
    let c = CanvasSettings::default();
    assert_eq!(c.api_url, "https://canvas.uts.edu.au");
    assert_eq!(c.cache_ttl_minutes, 30);
    assert!(c.ignored_course_ids.is_empty());
    assert_eq!(default_config().data_dir, "./data");
}

#[test]
fn titles_are_cut_at_thirty_chars() {
    assert_eq!(conversation_title("short"), "short");
    let exact = "a".repeat(30);
    assert_eq!(conversation_title(&exact), exact);
    let long = "é".repeat(31);
    assert_eq!(conversation_title(&long), format!("{}...", "é".repeat(30)));
}

#[test]
fn roles_round_trip() {
    assert_eq!(role_str(MessageRole::User), "user");
    assert_eq!(role_str(MessageRole::Assistant), "assistant");
    assert_eq!(role_from_str("user"), MessageRole::User);
    assert_eq!(role_from_str("assistant"), MessageRole::Assistant);
    assert_eq!(role_from_str("other"), MessageRole::Assistant);
}

#[test]
fn conversation_lifecycle() {
    let raw = db();
    let conn = &mut Db::new(&raw);
    let c = create_conversation(conn, "c1", "2024-01-01T00:00:00Z").unwrap();
    assert_eq!(c.title, "New Chat");
    assert_eq!(c.created_at, c.updated_at);
    let history = start_turn(conn, "c1", "Hello there, this is a long first message", "m1", "t1").unwrap();
    assert_eq!(history, vec!["Hello there, this is a long first message".to_string()]);
    let convs = get_conversations(conn).unwrap();
    assert_eq!(convs.len(), 1);
    assert_eq!(convs[0].title, "Hello there, this is a long fi...");
    assert_eq!(convs[0].updated_at, "t1");
    let reply = finish_turn(conn, "c1", "Hi!".to_string(), "m2", "t2").unwrap();
    assert_eq!(reply.role, MessageRole::Assistant);
    let msgs = get_messages(conn, "c1").unwrap();
    assert_eq!(msgs.len(), 2);
    assert_eq!(msgs[0].role, MessageRole::User);
    assert_eq!(msgs[1].content, "Hi!");
    delete_conversation(conn, "c1").unwrap();
    assert_eq!(
        delete_conversation(conn, "c1").unwrap_err(),
        AppError::ConversationNotFound("c1".to_string())
    );
    assert_eq!(
        get_messages(conn, "c1").unwrap_err(),
        AppError::ConversationNotFound("c1".to_string())
    );
    assert_eq!(
        start_turn(conn, "nope", "x", "m3", "t3").unwrap_err(),
        AppError::ConversationNotFound("nope".to_string())
    );
}

#[test]
fn canvas_urls_and_headers() {
    assert_eq!(normalize_base_url("https://x.edu//"), "https://x.edu");
    assert_eq!(normalize_base_url("https://x.edu"), "https://x.edu");
    assert_eq!(authorization_value("tok"), "Bearer tok");
    assert_eq!(
        courses_url("https://x.edu"),
        "https://x.edu/api/v1/courses?enrollment_state=active&per_page=100"
    );
    assert_eq!(
        assignments_url("https://x.edu", 42),
        "https://x.edu/api/v1/courses/42/assignments?include[]=submission&per_page=100&order_by=due_at"
    );
    assert_eq!(
        assignments_url("b", -7),
        "b/api/v1/courses/-7/assignments?include[]=submission&per_page=100&order_by=due_at"
    );
}

#[test]
fn next_link_is_found() {
    let header = "<https://x/a?page=1>; rel=\"current\", <https://x/a?page=2>; rel=\"next\", <https://x/a?page=9>; rel=\"last\"";
    assert_eq!(parse_next_link(header), Some("https://x/a?page=2".to_string()));
    assert_eq!(parse_next_link("<https://x/a?page=9>; rel=\"last\""), None);
    assert_eq!(parse_next_link(""), None);
    assert_eq!(parse_next_link("  <<u>; rel=\"next\"  "), Some("u".to_string()));
}

fn api_assignment(id: i64) -> ApiAssignment {
    ApiAssignment {
        id,
        course_id: 5,
        name: None,
        due_at: Some("2024-05-01".to_string()),
        points_possible_bits: Some(10.5f64.to_bits()),
        html_url: Some("u".to_string()),
        submission_types: vec!["online_quiz".to_string()],
        has_submitted_submissions: false,
        is_quiz_assignment: true,
    }
}

#[test]
fn api_records_are_converted() {
    let c = course_from_api(ApiCourse { id: 3, name: None, course_code: Some("C1".into()) });
    assert_eq!(c, CanvasCourse { id: 3, name: String::new(), course_code: "C1".into() });
    let a = assignment_from_api(api_assignment(9), "Maths", &vec![1, 9]);
    assert_eq!(a.course_name, "Maths");
    assert_eq!(a.name, "");
    assert!(a.manually_completed);
    assert!(a.is_quiz);
    assert_eq!(f64::from_bits(a.points_possible_bits.unwrap()), 10.5);
    let b = assignment_from_api(api_assignment(2), "Maths", &vec![1, 9]);
    assert!(!b.manually_completed);
}

#[test]
fn cache_and_course_filtering() {
    assert!(is_cache_fresh(0, 30));
    assert!(is_cache_fresh(1799, 30));
    assert!(!is_cache_fresh(1800, 30));
    assert!(!is_cache_fresh(0, 0));
    assert_eq!(check_api_token("").unwrap_err(), AppError::Canvas("Canvas API token is not configured".into()));
    assert!(check_api_token("t").is_ok());
    let courses = vec![
        CanvasCourse { id: 1, name: "a".into(), course_code: "A".into() },
        CanvasCourse { id: 2, name: "b".into(), course_code: "B".into() },
        CanvasCourse { id: 3, name: "c".into(), course_code: "C".into() },
    ];
    let kept = active_courses(&courses, &vec![2]);
    assert_eq!(kept.iter().map(|c| c.id).collect::<Vec<_>>(), vec![1, 3]);
}

fn assignment(id: i64, done: bool) -> CanvasAssignment {
    CanvasAssignment {
        id,
        course_id: 1,
        course_name: "c".into(),
        name: "n".into(),
        due_at: None,
        points_possible_bits: None,
        html_url: "u".into(),
        submission_types: vec![],
        has_submitted_submissions: false,
        is_quiz: false,
        manually_completed: done,
    }
}

#[test]
fn completion_marks_only_the_assignment() {
    let mut list = vec![assignment(1, false), assignment(2, false), assignment(1, true)];
    mark_completion(&mut list, 1, true);
    assert_eq!(list.iter().map(|a| a.manually_completed).collect::<Vec<_>>(), vec![true, false, true]);
    mark_completion(&mut list, 1, false);
    assert_eq!(list.iter().map(|a| a.manually_completed).collect::<Vec<_>>(), vec![false, false, false]);
}

#[test]
fn completion_needs_its_table() {
    let raw = db();
    let conn = &mut Db::new(&raw);
    let mut cache = Some(CanvasData { courses: vec![], assignments: vec![assignment(4, false)], fetched_at: "t".into() });
    let e = set_task_completion(conn, &mut cache, 4, true).unwrap_err();
    match e {
        AppError::Canvas(m) => assert!(m.starts_with("Failed to update completion: Error(\"no such table")),
        other => panic!("{other:?}"),
    }
    assert!(!cache.as_ref().unwrap().assignments[0].manually_completed);
    raw.execute_batch("CREATE TABLE canvas_completed_tasks (assignment_id INTEGER PRIMARY KEY);").unwrap();
    set_task_completion(conn, &mut cache, 4, true).unwrap();
    assert!(cache.as_ref().unwrap().assignments[0].manually_completed);
    assert_eq!(get_completed_tasks(conn).unwrap(), vec![4]);
    set_task_completion(conn, &mut None, 4, false).unwrap();
    assert!(get_completed_tasks(conn).unwrap().is_empty());
}

#[test]
fn data_dir_paths() {
    assert_eq!(resolve_relative("/opt/app", "./data"), "/opt/app/./data");
    assert_eq!(resolve_relative("/opt/app/", "data"), "/opt/app/data");
    assert_eq!(resolve_relative("/opt/app", "/var/data"), "/var/data");
    assert_eq!(resolve_relative("", "data"), "data");
    assert_eq!(data_dir_from_config("/e", None), "/e/data");
    assert_eq!(data_dir_from_config("/e", Some(DataDirConfig { data_dir: "x".into() })), "/e/x");
    assert_eq!(DATA_FILES, ["qtools.db", "agent-settings.json", "canvas-settings.json"]);
    assert!(check_data_dir_path("  ").is_err());
    assert_eq!(check_data_dir_path("").unwrap_err(), AppError::Settings("data directory path cannot be empty".into()));
    assert!(check_data_dir_path(" /x ").is_ok());
}

#[test]
fn tool_log_records_calls() {
    let log = new_tool_call_log();
    log_call(&log, "read_memory", "core://a", "out");
    let v = log.lock().unwrap();
    assert_eq!(v.len(), 1);
    assert_eq!(v[0], tool_call_record("read_memory", "core://a", "out"));
    let args = AddAliasArgs { new_uri: "a".into(), target_uri: "b".into(), priority: 0, disclosure: None };
    assert_eq!(alias_call_summary(&args), "a -> b");
}

#[test]
fn completion_marking_is_idempotent_in_the_database() {
    let raw = db();
    raw.execute_batch("CREATE TABLE canvas_completed_tasks (assignment_id INTEGER PRIMARY KEY);").unwrap();
    let conn = &mut Db::new(&raw);
    set_task_completion(conn, &mut None, 8, true).unwrap();
    set_task_completion(conn, &mut None, 8, true).unwrap();
    assert_eq!(get_completed_tasks(conn).unwrap(), vec![8]);
    set_task_completion(conn, &mut None, 8, false).unwrap();
    set_task_completion(conn, &mut None, 8, false).unwrap();
    assert!(get_completed_tasks(conn).unwrap().is_empty());
}

#[test]
fn completed_turn_reports_tool_calls_then_the_stored_reply() {
    let raw = db();
    let conn = &mut Db::new(&raw);
    create_conversation(conn, "c1", "t0").unwrap();
    start_turn(conn, "c1", "hi", "m1", "t1").unwrap();
    let calls = vec![tool_call_record("read_memory", "{}", "ok")];
    let (events, res) = complete_turn(conn, "c1", Ok("hello".to_string()), &calls, "m2", "t2");
    assert!(res.is_ok());
    assert_eq!(events.len(), 2);
    assert_eq!(
        events[0],
        StreamEvent::ToolCall { name: "read_memory".into(), args: "{}".into(), result: "ok".into() }
    );
    match &events[1] {
        StreamEvent::Done { message } => {
            assert_eq!(message.id, "m2");
            assert_eq!(message.content, "hello");
            assert_eq!(message.role, MessageRole::Assistant);
        }
        other => panic!("{other:?}"),
    }
    assert_eq!(get_messages(conn, "c1").unwrap().len(), 2);
}

#[test]
fn failed_turn_reports_only_the_error_and_stores_nothing() {
    let raw = db();
    let conn = &mut Db::new(&raw);
    create_conversation(conn, "c1", "t0").unwrap();
    start_turn(conn, "c1", "hi", "m1", "t1").unwrap();
    let calls = vec![tool_call_record("read_memory", "{}", "ok")];
    let err = AppError::Provider("boom".into());
    let (events, res) = complete_turn(conn, "c1", Err(err.clone()), &calls, "m2", "t2");
    assert_eq!(res, Err(err.clone()));
    assert_eq!(events, vec![StreamEvent::Error { message: err.message() }]);
    let msgs = get_messages(conn, "c1").unwrap();
    assert_eq!(msgs.len(), 1);
    assert_eq!(msgs[0].role, MessageRole::User);
    assert_eq!(msgs[0].content, "hi");
}

#[test]
fn starting_a_turn_retitles_the_conversation() {
    let raw = db();
    let conn = &mut Db::new(&raw);
    create_conversation(conn, "c1", "t0").unwrap();
    start_turn(conn, "c1", "short", "m1", "t1").unwrap();
    let convs = get_conversations(conn).unwrap();
    assert_eq!(convs[0].title, "short");
    assert_eq!(convs[0].updated_at, "t1");
}
