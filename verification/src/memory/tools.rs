//! Support for the memory tools that the chat agent can call: their
//! arguments, their error, and the log of the calls made during a turn.
use std::sync::{Arc, Mutex};

use vstd::prelude::*;

use crate::error::AppError;

verus! {

#[verifier::external_type_specification]
#[verifier::external_body]
#[verifier::reject_recursive_types(T)]
pub struct ExMutex<T: ?Sized>(std::sync::Mutex<T>);

/// The error a memory tool reports: the text of the underlying error.
#[derive(Debug, Clone, PartialEq, Eq)]
pub struct MemoryToolError(pub String);

impl MemoryToolError {
    /// The tool error for an application error: its text.
    pub fn from_app_error(e: &AppError) -> (r: MemoryToolError)
        ensures
            r.0@ == e.spec_message(),
    {
        MemoryToolError(e.message())
    }
}

/// A recorded tool invocation.
#[derive(Debug, Clone, PartialEq, Eq)]
pub struct ToolCallRecord {
    pub name: String,
    pub args: String,
    pub result: String,
}

/// A tool invocation recorded from its name, arguments and result.
pub fn tool_call_record(name: &str, args: &str, result: &str) -> (r: ToolCallRecord)
    ensures
        r.name@ == name@,
        r.args@ == args@,
        r.result@ == result@,
{
    ToolCallRecord {
        name: String::from_str(name),
        args: String::from_str(args),
        result: String::from_str(result),
    }
}

/// Shared log of tool calls made during a single agent turn.
pub type ToolCallLog = Arc<Mutex<Vec<ToolCallRecord>>>;

/// A mutex holding `value` (`Mutex::new`).
///
/// Trusted: nothing is claimed of the mutex, whose contents Verus cannot see.
#[verifier::external_body]
fn new_mutex<T>(value: T) -> Mutex<T> {
    Mutex::new(value)
}

/// Appends a record to the log unless its lock is poisoned (`Mutex::lock`,
/// then `Vec::push`).
///
/// Trusted: nothing is claimed, since the log's contents sit behind the
/// mutex where Verus cannot see them.
#[verifier::external_body]
fn push_record(log: &ToolCallLog, record: ToolCallRecord) {
    if let Ok(mut v) = log.lock() {
        v.push(record);
    }
}

/// Create a new empty tool call log.
///
/// That the log starts empty is not stated: its contents sit behind a mutex.
pub fn new_tool_call_log() -> ToolCallLog {
    Arc::new(new_mutex(Vec::new()))
}

/// Record a tool invocation in the log.
///
/// What the log holds afterwards is not stated: its contents sit behind a
/// mutex.
pub fn log_call(log: &ToolCallLog, name: &str, args: &str, result: &str) {
    push_record(log, tool_call_record(name, args, result));
}

/// Arguments of the `read_memory` tool.
#[derive(Debug, Clone, PartialEq, Eq)]
pub struct ReadMemoryArgs {
    pub uri: String,
}

/// Arguments of the `create_memory` tool.
#[derive(Debug, Clone, PartialEq, Eq)]
pub struct CreateMemoryArgs {
    pub parent_uri: String,
    pub content: String,
    pub priority: i32,
    pub title: Option<String>,
    pub disclosure: Option<String>,
}

/// Arguments of the `update_memory` tool.
#[derive(Debug, Clone, PartialEq, Eq)]
pub struct UpdateMemoryArgs {
    pub uri: String,
    pub old_string: Option<String>,
    pub new_string: Option<String>,
    pub append: Option<String>,
    pub priority: Option<i32>,
    pub disclosure: Option<String>,
}

/// Arguments of the `delete_memory` tool.
#[derive(Debug, Clone, PartialEq, Eq)]
pub struct DeleteMemoryArgs {
    pub uri: String,
}

/// Arguments of the `add_alias` tool.
#[derive(Debug, Clone, PartialEq, Eq)]
pub struct AddAliasArgs {
    pub new_uri: String,
    pub target_uri: String,
    pub priority: i32,
    pub disclosure: Option<String>,
}

/// Arguments of the `manage_triggers` tool.
#[derive(Debug, Clone, PartialEq, Eq)]
pub struct ManageTriggersArgs {
    pub uri: String,
    pub add: Vec<String>,
    pub remove: Vec<String>,
}

/// Arguments of the `search_memory` tool.
#[derive(Debug, Clone, PartialEq, Eq)]
pub struct SearchMemoryArgs {
    pub query: String,
    pub domain: Option<String>,
    pub limit: Option<i64>,
}

/// The description of the `add_alias` call for the log: `new -> target`.
pub fn alias_call_summary(args: &AddAliasArgs) -> (r: String)
    ensures
        r@ == args.new_uri@ + " -> "@ + args.target_uri@,
{
    let mut r = args.new_uri.clone();
    r.append(" -> ");
    r.append(args.target_uri.as_str());
    r
}

} // verus!
