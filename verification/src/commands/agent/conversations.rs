//! Conversation commands.
use vstd::prelude::*;

use crate::memory::db::{
    extends, extends_by, has_row, int_of, query_ok, rows_answer, sent, Answer, Db, Param,
};

use crate::agent::types::{ChatMessage, Conversation};
use crate::error::AppError;
use crate::memory::chat_store::{self, conversations_of_rows, messages_of_rows};
use crate::memory::db::is_db_err;

verus! {

/// `e` reports that the conversation `id` was not found.
pub open spec fn is_not_found(e: AppError, id: Seq<char>) -> bool {
    e matches AppError::ConversationNotFound(c) && c@ == id
}

/// Return all conversations, newest first.
pub fn get_conversations(conn: &mut Db) -> (r: Result<Vec<Conversation>, AppError>)
    ensures
        extends_by(final(conn).calls(), old(conn).calls(), 1),
        sent(final(conn).calls(), old(conn).calls().len() as int, chat_store::CONVERSATIONS_SQL@, Seq::<Param>::empty()),
        r matches Err(e) ==> is_db_err(e, "Failed to get conversations"@),
        r matches Ok(v) ==> query_ok(final(conn).calls(), old(conn).calls().len() as int)
            && conversations_of_rows(v@, rows_answer(final(conn).calls(), old(conn).calls().len() as int)),
{
    chat_store::get_conversations(conn)
}

/// Create a new empty conversation titled "New Chat" with the given id and
/// creation time, and return it.
pub fn create_conversation(conn: &mut Db, id: &str, now: &str) -> (r: Result<
    Conversation,
    AppError,
>)
    ensures
        extends_by(final(conn).calls(), old(conn).calls(), 1),
        sent(
            final(conn).calls(),
            old(conn).calls().len() as int,
            chat_store::CREATE_CONVERSATION_SQL@,
            seq![Param::Text(id@), Param::Text("New Chat"@), Param::Text(now@), Param::Text(now@)],
        ),
        r is Ok <==> final(conn).calls()[old(conn).calls().len() as int].answer is Changed
            && final(conn).calls()[old(conn).calls().len() as int].answer->Changed_0 is Some,
        r matches Ok(c) ==> c.id@ == id@ && c.title@ == "New Chat"@ && c.created_at@ == now@
            && c.updated_at@ == now@,
        r matches Err(e) ==> is_db_err(e, "Failed to create conversation"@),
{
    let conv = Conversation {
        id: String::from_str(id),
        title: String::from_str("New Chat"),
        created_at: String::from_str(now),
        updated_at: String::from_str(now),
    };
    proof {
        reveal_strlit("New Chat");
    }
    assert(conv.title@ == "New Chat"@);
    chat_store::create_conversation(conn, &conv)?;
    Ok(conv)
}

/// Delete a conversation and its messages.
///
/// Returns `AppError::ConversationNotFound` if there was no such conversation.
pub fn delete_conversation(conn: &mut Db, conversation_id: &str) -> (r: Result<(), AppError>)
    ensures
        extends_by(final(conn).calls(), old(conn).calls(), 1),
        sent(
            final(conn).calls(),
            old(conn).calls().len() as int,
            chat_store::DELETE_CONVERSATION_SQL@,
            seq![Param::Text(conversation_id@)],
        ),
        final(conn).calls()[old(conn).calls().len() as int].answer matches Answer::Changed(Some(n)) ==> (
        r is Ok <==> n > 0),
        r is Ok ==> (final(conn).calls()[old(conn).calls().len() as int].answer matches Answer::Changed(
            Some(n),
        ) && n > 0),
        r matches Err(e) ==> (final(conn).calls()[old(conn).calls().len() as int].answer is Changed
            && final(conn).calls()[old(conn).calls().len() as int].answer->Changed_0 is Some ==> is_not_found(
            e,
            conversation_id@,
        )),
        r matches Err(e) ==> is_not_found(e, conversation_id@) || is_db_err(
            e,
            "Failed to delete conversation"@,
        ),
{
    let deleted = chat_store::delete_conversation(conn, conversation_id)?;
    if !deleted {
        return Err(AppError::ConversationNotFound(String::from_str(conversation_id)));
    }
    Ok(())
}

/// Return all messages of a conversation, oldest first.
///
/// Returns `AppError::ConversationNotFound` if there is no such conversation.
pub fn get_messages(conn: &mut Db, conversation_id: &str) -> (r: Result<
    Vec<ChatMessage>,
    AppError,
>)
    ensures
        extends(final(conn).calls(), old(conn).calls()),
        sent(
            final(conn).calls(),
            old(conn).calls().len() as int,
            chat_store::CONVERSATION_COUNT_SQL@,
            seq![Param::Text(conversation_id@)],
        ),
        r matches Err(e) ==> is_not_found(e, conversation_id@) || is_db_err(
            e,
            "Failed to check conversation"@,
        ) || is_db_err(e, "Failed to get messages"@),
        has_row(final(conn).calls(), old(conn).calls().len() as int) && int_of(
            rows_answer(final(conn).calls(), old(conn).calls().len() as int)[0][0],
        ) <= 0 ==> (r matches Err(e) && is_not_found(e, conversation_id@)),
        r matches Ok(v) ==> has_row(final(conn).calls(), old(conn).calls().len() as int) && int_of(
            rows_answer(final(conn).calls(), old(conn).calls().len() as int)[0][0],
        ) > 0 && sent(
            final(conn).calls(),
            old(conn).calls().len() as int + 1,
            chat_store::MESSAGES_SQL@,
            seq![Param::Text(conversation_id@)],
        ) && final(conn).calls().len() == old(conn).calls().len() + 2 && messages_of_rows(
            v@,
            rows_answer(final(conn).calls(), old(conn).calls().len() as int + 1),
        ),
{
    let ghost o = conn.calls().len() as int;
    if !chat_store::conversation_exists(conn, conversation_id)? {
        return Err(AppError::ConversationNotFound(String::from_str(conversation_id)));
    }
    let ghost c0 = conn.calls();
    let r = chat_store::get_messages(conn, conversation_id);
    assert(conn.calls()[o] == c0[o]);
    r
}

} // verus!
