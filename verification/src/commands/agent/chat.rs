//! The database side of a chat turn: recording the user's message and the
//! assistant's reply around the call to the language model.
use vstd::prelude::*;

use crate::memory::db::{extends, extends_by, Db};

use crate::agent::types::{ChatMessage, MessageRole, StreamEvent};
use crate::memory::tools::ToolCallRecord;
use crate::commands::agent::conversations::is_not_found;
use crate::error::AppError;
use crate::memory::chat_store::{self, message_kind_seq, message_params, stored_message_params};
use crate::memory::db::{
    has_row, int_of, is_db_err, query_ok, ran, row_fits, rows_answer, sent, text_of, DbCall, Param,
    SqlValue,
};
use crate::memory::format::{preview, preview_of};

verus! {

/// The title a conversation gets from a message: its first 30 characters,
/// followed by `...` when it is longer.
pub open spec fn spec_conversation_title(content: Seq<char>) -> Seq<char> {
    preview(content, 30)
}

/// The title a conversation gets from a message.
pub fn conversation_title(content: &str) -> (r: String)
    ensures
        r@ == spec_conversation_title(content@),
{
    preview_of(content, 30)
}

/// `h` are the contents of the messages held by `rows`, one per row and in
/// order.
pub open spec fn contents_of_rows(h: Seq<String>, rows: Seq<Seq<SqlValue>>) -> bool {
    &&& rows.len() == h.len()
    &&& forall|i: int|
        0 <= i < rows.len() ==> row_fits(rows[i], message_kind_seq()) && (#[trigger] h[i])@
            == text_of(rows[i][3])
}

/// The contents of messages, in order: the history handed to the language
/// model.
pub fn message_contents(msgs: &Vec<ChatMessage>) -> (r: Vec<String>)
    ensures
        r@.len() == msgs@.len(),
        forall|j: int| 0 <= j < msgs@.len() ==> (#[trigger] r@[j])@ == msgs@[j].content@,
{
    let mut history: Vec<String> = Vec::new();
    let mut i: usize = 0;
    while i < msgs.len()
        invariant
            i <= msgs@.len(),
            history@.len() == i,
            forall|j: int| 0 <= j < i ==> (#[trigger] history@[j])@ == msgs@[j].content@,
        decreases msgs@.len() - i,
    {
        history.push(msgs[i].content.clone());
        i = i + 1;
    }
    history
}

/// The refusal of a turn in a conversation that does not exist (`exists`
/// is the answer of the existence check).
pub fn require_conversation(exists: bool, conversation_id: &str) -> (r: Result<(), AppError>)
    ensures
        exists <==> r is Ok,
        r matches Err(e) ==> is_not_found(e, conversation_id@),
{
    if !exists {
        return Err(AppError::ConversationNotFound(String::from_str(conversation_id)));
    }
    Ok(())
}

/// The record of a started turn from statement `o` on: the conversation was
/// counted and found; the user's message stored; the conversation's
/// messages listed; the conversation retitled after the message with `now`
/// as its update time; nothing else.
pub open spec fn turn_started(
    calls: Seq<DbCall>,
    o: int,
    conversation_id: Seq<char>,
    content: Seq<char>,
    message_id: Seq<char>,
    now: Seq<char>,
) -> bool {
    &&& sent(calls, o, chat_store::CONVERSATION_COUNT_SQL@, seq![Param::Text(conversation_id)])
    &&& has_row(calls, o)
    &&& int_of(rows_answer(calls, o)[0][0]) > 0
    &&& ran(
        calls,
        o + 1,
        chat_store::INSERT_MESSAGE_SQL@,
        stored_message_params(message_id, conversation_id, MessageRole::User, content, now),
    )
    &&& sent(calls, o + 2, chat_store::MESSAGES_SQL@, seq![Param::Text(conversation_id)])
    &&& query_ok(calls, o + 2)
    &&& sent(
        calls,
        o + 3,
        chat_store::UPDATE_CONVERSATION_SQL@,
        seq![Param::Text(spec_conversation_title(content)), Param::Text(now), Param::Text(conversation_id)],
    )
    &&& calls.len() == o + 4
}

/// Start a turn: record the user's message `content` (with id `message_id`
/// and time `now`) in an existing conversation, retitle the conversation
/// after the message, and return the contents of all its messages in
/// order, the new one included, as the history for the language model.
///
/// Returns `AppError::ConversationNotFound` if the conversation does not
/// exist. A failure to retitle is ignored.
pub fn start_turn(
    conn: &mut Db,
    conversation_id: &str,
    content: &str,
    message_id: &str,
    now: &str,
) -> (r: Result<Vec<String>, AppError>)
    ensures
        extends(final(conn).calls(), old(conn).calls()),
        r matches Err(e) ==> {
            ||| is_not_found(e, conversation_id@)
            ||| is_db_err(e, "Failed to check conversation"@)
            ||| is_db_err(e, "Failed to insert message"@)
            ||| is_db_err(e, "Failed to get messages"@)
        },
        r matches Ok(h) ==> turn_started(
            final(conn).calls(),
            old(conn).calls().len() as int,
            conversation_id@,
            content@,
            message_id@,
            now@,
        ) && contents_of_rows(h@, rows_answer(final(conn).calls(), old(conn).calls().len() as int + 2)),
        has_row(final(conn).calls(), old(conn).calls().len() as int) && int_of(
            rows_answer(final(conn).calls(), old(conn).calls().len() as int)[0][0],
        ) <= 0 ==> (r matches Err(e) && is_not_found(e, conversation_id@)),
{
    let ghost o = conn.calls().len() as int;
    let exists = chat_store::conversation_exists(conn, conversation_id)?;
    let ghost c0 = conn.calls();
    require_conversation(exists, conversation_id)?;
    let user_msg = ChatMessage {
        id: String::from_str(message_id),
        conversation_id: String::from_str(conversation_id),
        role: MessageRole::User,
        content: String::from_str(content),
        created_at: String::from_str(now),
    };
    assert(message_params(user_msg) == stored_message_params(
        message_id@,
        conversation_id@,
        MessageRole::User,
        content@,
        now@,
    ));
    chat_store::insert_message(conn, &user_msg)?;
    let ghost c1 = conn.calls();
    let msgs = chat_store::get_messages(conn, conversation_id)?;
    let ghost c2 = conn.calls();
    let history = message_contents(&msgs);
    let ghost rows = rows_answer(c2, o + 2);
    assert(forall|i: int| 0 <= i < rows.len() ==> msgs@[i].content@ == text_of(rows[i][3]));
    assert(contents_of_rows(history@, rows));
    let title = conversation_title(content);
    let _ = chat_store::update_conversation(conn, conversation_id, title.as_str(), now);
    let ghost c3 = conn.calls();
    assert(c3[o] == c0[o]);
    assert(c3[o + 1] == c1[o + 1]);
    assert(c3[o + 2] == c2[o + 2]);
    assert(turn_started(c3, o, conversation_id@, content@, message_id@, now@));
    Ok(history)
}

/// Finish a turn: record the assistant's reply `response` (with id
/// `message_id` and time `now`) and return the stored message.
pub fn finish_turn(
    conn: &mut Db,
    conversation_id: &str,
    response: String,
    message_id: &str,
    now: &str,
) -> (r: Result<ChatMessage, AppError>)
    ensures
        extends_by(final(conn).calls(), old(conn).calls(), 1),
        sent(
            final(conn).calls(),
            old(conn).calls().len() as int,
            chat_store::INSERT_MESSAGE_SQL@,
            stored_message_params(message_id@, conversation_id@, MessageRole::Assistant, response@, now@),
        ),
        r is Ok <==> ran(
            final(conn).calls(),
            old(conn).calls().len() as int,
            chat_store::INSERT_MESSAGE_SQL@,
            stored_message_params(message_id@, conversation_id@, MessageRole::Assistant, response@, now@),
        ),
        r matches Ok(m) ==> m.id@ == message_id@ && m.conversation_id@ == conversation_id@ && m.role
            == MessageRole::Assistant && m.content@ == response@ && m.created_at@ == now@,
        r matches Err(e) ==> is_db_err(e, "Failed to insert message"@),
{
    let msg = ChatMessage {
        id: String::from_str(message_id),
        conversation_id: String::from_str(conversation_id),
        role: MessageRole::Assistant,
        content: response,
        created_at: String::from_str(now),
    };
    assert(message_params(msg) == stored_message_params(
        message_id@,
        conversation_id@,
        MessageRole::Assistant,
        response@,
        now@,
    ));
    chat_store::insert_message(conn, &msg)?;
    Ok(msg)
}

/// Complete a turn once the language model has answered: `reply` is its
/// answer, `calls` the tool calls it made. The events for the frontend come
/// back in the order they are sent.
///
/// When the model failed, the one event is the error's, the error is
/// returned and nothing is stored (the user's message stays the last one
/// stored). When it answered, the reply is stored as the assistant's
/// message (with id `message_id` and time `now`), and the events are the
/// tool calls in order, then, once the reply is stored, the stored message.
pub fn complete_turn(
    conn: &mut Db,
    conversation_id: &str,
    reply: Result<String, AppError>,
    calls: &Vec<ToolCallRecord>,
    message_id: &str,
    now: &str,
) -> (r: (Vec<StreamEvent>, Result<(), AppError>))
    ensures
        match reply {
            Err(e) => {
                &&& final(conn).calls() == old(conn).calls()
                &&& r.0@.len() == 1
                &&& r.0@[0] matches StreamEvent::Error { message } && message@ == e.spec_message()
                &&& r.1 == Err::<(), AppError>(e)
            },
            Ok(text) => {
                &&& extends_by(final(conn).calls(), old(conn).calls(), 1)
                &&& sent(
                    final(conn).calls(),
                    old(conn).calls().len() as int,
                    chat_store::INSERT_MESSAGE_SQL@,
                    stored_message_params(message_id@, conversation_id@, MessageRole::Assistant, text@, now@),
                )
                &&& r.1 is Ok <==> ran(
                    final(conn).calls(),
                    old(conn).calls().len() as int,
                    chat_store::INSERT_MESSAGE_SQL@,
                    stored_message_params(message_id@, conversation_id@, MessageRole::Assistant, text@, now@),
                )
                &&& r.1 matches Err(e) ==> is_db_err(e, "Failed to insert message"@)
                &&& r.0@.len() == calls@.len() + (if r.1 is Ok { 1int } else { 0int })
                &&& forall|i: int| 0 <= i < calls@.len() ==> tool_event(#[trigger] r.0@[i], calls@[i])
                &&& r.1 is Ok ==> (r.0@.last() matches StreamEvent::Done { message } && message.id@
                    == message_id@ && message.conversation_id@ == conversation_id@ && message.role
                    == MessageRole::Assistant && message.content@ == text@ && message.created_at@
                    == now@)
            },
        },
{
    match reply {
        Err(e) => {
            let ev = error_event(&e);
            let mut events: Vec<StreamEvent> = Vec::new();
            events.push(ev);
            (events, Err(e))
        },
        Ok(text) => {
            let mut events = tool_call_events(calls);
            match finish_turn(conn, conversation_id, text, message_id, now) {
                Ok(message) => {
                    events.push(StreamEvent::Done { message });
                    (events, Ok(()))
                },
                Err(e) => (events, Err(e)),
            }
        },
    }
}

/// `ev` reports the tool call `c`: its name, arguments and result.
pub open spec fn tool_event(ev: StreamEvent, c: ToolCallRecord) -> bool {
    ev matches StreamEvent::ToolCall { name, args, result } && name@ == c.name@ && args@ == c.args@
        && result@ == c.result@
}

/// The events that report the tool calls of a turn, one per call in order.
pub fn tool_call_events(calls: &Vec<ToolCallRecord>) -> (r: Vec<StreamEvent>)
    ensures
        r@.len() == calls@.len(),
        forall|i: int|
            0 <= i < calls@.len() ==> tool_event(#[trigger] r@[i], calls@[i]),
{
    let mut out: Vec<StreamEvent> = Vec::new();
    let mut i: usize = 0;
    while i < calls.len()
        invariant
            i <= calls@.len(),
            out@.len() == i,
            forall|j: int|
                0 <= j < i ==> tool_event(#[trigger] out@[j], calls@[j]),
        decreases calls@.len() - i,
    {
        let c = &calls[i];
        out.push(
            StreamEvent::ToolCall {
                name: c.name.clone(),
                args: c.args.clone(),
                result: c.result.clone(),
            },
        );
        i = i + 1;
    }
    out
}

/// The event that reports a failed turn: the error's text.
pub fn error_event(e: &AppError) -> (r: StreamEvent)
    ensures
        r matches StreamEvent::Error { message } && message@ == e.spec_message(),
{
    StreamEvent::Error { message: e.message() }
}

} // verus!
