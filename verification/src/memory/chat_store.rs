//! SQLite-backed storage for conversations and messages.
use vstd::prelude::*;

use crate::memory::db::{ extends_by, has_row, int_of, lemma_push_extends, params_of, query_ok, ran, rows_answer,
    rows_of, sent, Answer, Db, Param,
};

use crate::agent::types::{ChatMessage, Conversation, MessageRole};
use crate::error::AppError;
use crate::memory::db::{
    db_execute, db_query, get_int, get_text, is_db_err, map_db_err, query_one, row_fits,
    text_of, text_param, ColumnKind, SqlValue,
};
use crate::text::str_eq;

verus! {

/// How a role is stored.
pub open spec fn spec_role_str(role: MessageRole) -> Seq<char> {
    match role {
        MessageRole::User => "user"@,
        MessageRole::Assistant => "assistant"@,
    }
}

/// How a role is stored.
pub fn role_str(role: MessageRole) -> (r: &'static str)
    ensures
        r@ == spec_role_str(role),
{
    match role {
        MessageRole::User => "user",
        MessageRole::Assistant => "assistant",
    }
}

/// The role that a stored role text stands for: `user`, or else assistant.
pub open spec fn spec_role_from_str(s: Seq<char>) -> MessageRole {
    if s == "user"@ {
        MessageRole::User
    } else {
        MessageRole::Assistant
    }
}

/// The role that a stored role text stands for.
pub fn role_from_str(s: &str) -> (r: MessageRole)
    ensures
        r == spec_role_from_str(s@),
{
    if str_eq(s, "user") {
        MessageRole::User
    } else {
        MessageRole::Assistant
    }
}

/// A role read back from its stored text is the role that was stored.
pub proof fn lemma_role_round_trip(role: MessageRole)
    ensures
        spec_role_from_str(spec_role_str(role)) == role,
{
    reveal_strlit("user");
    reveal_strlit("assistant");
    assert("user"@ != "assistant"@ ==> true);
    if role == MessageRole::Assistant {
        assert("assistant"@[0] != "user"@[0]);
    }
}

/// The query that lists the conversations, most recently updated first.
pub const CONVERSATIONS_SQL: &'static str = "SELECT id, title, created_at, updated_at FROM conversations ORDER BY updated_at DESC";

/// The statement that creates a conversation.
pub const CREATE_CONVERSATION_SQL: &'static str = "INSERT INTO conversations (id, title, created_at, updated_at) VALUES (?1, ?2, ?3, ?4)";

/// The statement that deletes a conversation (its messages go with it).
pub const DELETE_CONVERSATION_SQL: &'static str = "DELETE FROM conversations WHERE id = ?1";

/// The statement that retitles a conversation and sets its update time.
pub const UPDATE_CONVERSATION_SQL: &'static str = "UPDATE conversations SET title = ?1, updated_at = ?2 WHERE id = ?3";

/// The query that lists the messages of a conversation, oldest first.
pub const MESSAGES_SQL: &'static str = "SELECT id, conversation_id, role, content, created_at FROM messages WHERE conversation_id = ?1 ORDER BY created_at ASC";

/// The statement that stores a message.
pub const INSERT_MESSAGE_SQL: &'static str = "INSERT INTO messages (id, conversation_id, role, content, created_at) VALUES (?1, ?2, ?3, ?4, ?5)";

/// The query that counts the conversations with an id.
pub const CONVERSATION_COUNT_SQL: &'static str = "SELECT COUNT(*) FROM conversations WHERE id = ?1";

/// The parameters that store message `m`: its id, conversation, role text,
/// content and time.
pub open spec fn message_params(m: ChatMessage) -> Seq<Param> {
    stored_message_params(m.id@, m.conversation_id@, m.role, m.content@, m.created_at@)
}

/// The parameters that store a message with these fields.
pub open spec fn stored_message_params(
    id: Seq<char>,
    conversation_id: Seq<char>,
    role: MessageRole,
    content: Seq<char>,
    created_at: Seq<char>,
) -> Seq<Param> {
    seq![
        Param::Text(id),
        Param::Text(conversation_id),
        Param::Text(spec_role_str(role)),
        Param::Text(content),
        Param::Text(created_at),
    ]
}

/// Column kinds of a conversation row: id, title, creation and update time.
pub open spec fn conversation_kind_seq() -> Seq<ColumnKind> {
    seq![ColumnKind::Text, ColumnKind::Text, ColumnKind::Text, ColumnKind::Text]
}

/// `c` is the conversation held by `row`.
pub open spec fn conversation_row(c: Conversation, row: Seq<SqlValue>) -> bool {
    &&& c.id@ == text_of(row[0])
    &&& c.title@ == text_of(row[1])
    &&& c.created_at@ == text_of(row[2])
    &&& c.updated_at@ == text_of(row[3])
}

/// `v` are the conversations held by `rows`, one per row and in order.
pub open spec fn conversations_of_rows(v: Seq<Conversation>, rows: Seq<Seq<SqlValue>>) -> bool {
    &&& rows.len() == v.len()
    &&& forall|i: int|
        0 <= i < rows.len() ==> row_fits(rows[i], conversation_kind_seq()) && conversation_row(
            #[trigger] v[i],
            rows[i],
        )
}

/// The conversations held by conversation rows, in order.
pub fn conversations_from_rows(rows: &Vec<Vec<SqlValue>>) -> (r: Vec<Conversation>)
    requires
        forall|j: int| 0 <= j < rows@.len() ==> row_fits(#[trigger] rows@[j]@, conversation_kind_seq()),
    ensures
        r@.len() == rows@.len(),
        forall|i: int| 0 <= i < rows@.len() ==> conversation_row(#[trigger] r@[i], rows@[i]@),
{
    let mut out: Vec<Conversation> = Vec::new();
    let mut i: usize = 0;
    while i < rows.len()
        invariant
            i <= rows@.len(),
            out@.len() == i,
            forall|j: int| 0 <= j < rows@.len() ==> row_fits(#[trigger] rows@[j]@, conversation_kind_seq()),
            forall|j: int| 0 <= j < i ==> conversation_row(#[trigger] out@[j], rows@[j]@),
        decreases rows@.len() - i,
    {
        let row = &rows[i];
        assert(row_fits(rows@[i as int]@, conversation_kind_seq()));
        out.push(
            Conversation {
                id: get_text(row, 0),
                title: get_text(row, 1),
                created_at: get_text(row, 2),
                updated_at: get_text(row, 3),
            },
        );
        i = i + 1;
    }
    out
}

/// Fetch all conversations ordered by most recently updated.
pub fn get_conversations(conn: &mut Db) -> (r: Result<Vec<Conversation>, AppError>)
    ensures
        extends_by(final(conn).calls(), old(conn).calls(), 1),
        sent(final(conn).calls(), old(conn).calls().len() as int, CONVERSATIONS_SQL@, Seq::<Param>::empty()),
        r matches Err(e) ==> is_db_err(e, "Failed to get conversations"@),
        r matches Ok(v) ==> query_ok(final(conn).calls(), old(conn).calls().len() as int)
            && conversations_of_rows(v@, rows_answer(final(conn).calls(), old(conn).calls().len() as int)),
{
    let kinds = vec![ColumnKind::Text, ColumnKind::Text, ColumnKind::Text, ColumnKind::Text];
    assert(kinds@ == conversation_kind_seq());
    let params: Vec<SqlValue> = Vec::new();
    assert(params_of(params@) =~= Seq::<Param>::empty());
    let res = db_query(conn, CONVERSATIONS_SQL, &params, &kinds);
    proof {
        lemma_push_extends(old(conn).calls(), conn.calls().last());
        assert(conn.calls() =~= old(conn).calls().push(conn.calls().last()));
    }
    let rows = match res {
        Ok(rows) => rows,
        Err(e) => return Err(map_db_err("Failed to get conversations", &e)),
    };
    let out = conversations_from_rows(&rows);
    let ghost rs = rows_of(rows@);
    assert(forall|i: int| 0 <= i < rs.len() ==> rs[i] == rows@[i]@);
    assert(rows_answer(conn.calls(), old(conn).calls().len() as int) == rs);
    let r: Result<Vec<Conversation>, AppError> = Ok(out);
    assert(conversations_of_rows(r->Ok_0@, rs));
    r
}

/// Create a new conversation.
pub fn create_conversation(conn: &mut Db, conv: &Conversation) -> (r: Result<(), AppError>)
    ensures
        extends_by(final(conn).calls(), old(conn).calls(), 1),
        sent(
            final(conn).calls(),
            old(conn).calls().len() as int,
            CREATE_CONVERSATION_SQL@,
            seq![Param::Text(conv.id@), Param::Text(conv.title@), Param::Text(conv.created_at@), Param::Text(conv.updated_at@)],
        ),
        r is Ok <==> final(conn).calls()[old(conn).calls().len() as int].answer is Changed
            && final(conn).calls()[old(conn).calls().len() as int].answer->Changed_0 is Some,
        r matches Err(e) ==> is_db_err(e, "Failed to create conversation"@),
{
    let params = vec![
        text_param(conv.id.as_str()),
        text_param(conv.title.as_str()),
        text_param(conv.created_at.as_str()),
        text_param(conv.updated_at.as_str()),
    ];
    assert(params_of(params@) =~= seq![Param::Text(conv.id@), Param::Text(conv.title@), Param::Text(conv.created_at@), Param::Text(conv.updated_at@)]);
    let res = db_execute(conn, CREATE_CONVERSATION_SQL, &params);
    proof {
        lemma_push_extends(old(conn).calls(), conn.calls().last());
        assert(conn.calls() =~= old(conn).calls().push(conn.calls().last()));
    }
    match res {
        Ok(_) => Ok(()),
        Err(e) => Err(map_db_err("Failed to create conversation", &e)),
    }
}

/// Delete a conversation and its messages (cascade); whether one was deleted.
pub fn delete_conversation(conn: &mut Db, id: &str) -> (r: Result<bool, AppError>)
    ensures
        extends_by(final(conn).calls(), old(conn).calls(), 1),
        sent(final(conn).calls(), old(conn).calls().len() as int, DELETE_CONVERSATION_SQL@, seq![Param::Text(id@)]),
        r is Ok <==> final(conn).calls()[old(conn).calls().len() as int].answer is Changed
            && final(conn).calls()[old(conn).calls().len() as int].answer->Changed_0 is Some,
        r matches Ok(b) ==> final(conn).calls()[old(conn).calls().len() as int].answer matches Answer::Changed(
            Some(n),
        ) && b == (n > 0),
        r matches Err(e) ==> is_db_err(e, "Failed to delete conversation"@),
{
    let params = vec![text_param(id)];
    assert(params_of(params@) =~= seq![Param::Text(id@)]);
    let res = db_execute(conn, DELETE_CONVERSATION_SQL, &params);
    proof {
        lemma_push_extends(old(conn).calls(), conn.calls().last());
        assert(conn.calls() =~= old(conn).calls().push(conn.calls().last()));
    }
    match res {
        Ok(affected) => Ok(affected > 0),
        Err(e) => Err(map_db_err("Failed to delete conversation", &e)),
    }
}

/// Update a conversation's title and updated_at timestamp.
pub fn update_conversation(conn: &mut Db, id: &str, title: &str, updated_at: &str) -> (r:
    Result<(), AppError>)
    ensures
        extends_by(final(conn).calls(), old(conn).calls(), 1),
        sent(
            final(conn).calls(),
            old(conn).calls().len() as int,
            UPDATE_CONVERSATION_SQL@,
            seq![Param::Text(title@), Param::Text(updated_at@), Param::Text(id@)],
        ),
        r is Ok <==> final(conn).calls()[old(conn).calls().len() as int].answer is Changed
            && final(conn).calls()[old(conn).calls().len() as int].answer->Changed_0 is Some,
        r matches Err(e) ==> is_db_err(e, "Failed to update conversation"@),
{
    let params = vec![text_param(title), text_param(updated_at), text_param(id)];
    assert(params_of(params@) =~= seq![Param::Text(title@), Param::Text(updated_at@), Param::Text(id@)]);
    let res = db_execute(conn, UPDATE_CONVERSATION_SQL, &params);
    proof {
        lemma_push_extends(old(conn).calls(), conn.calls().last());
        assert(conn.calls() =~= old(conn).calls().push(conn.calls().last()));
    }
    match res {
        Ok(_) => Ok(()),
        Err(e) => Err(map_db_err("Failed to update conversation", &e)),
    }
}

/// Column kinds of a message row: id, conversation, role, content, time.
pub open spec fn message_kind_seq() -> Seq<ColumnKind> {
    seq![ColumnKind::Text, ColumnKind::Text, ColumnKind::Text, ColumnKind::Text, ColumnKind::Text]
}

/// `m` is the message held by `row`, its role read from the stored text.
pub open spec fn message_row(m: ChatMessage, row: Seq<SqlValue>) -> bool {
    &&& m.id@ == text_of(row[0])
    &&& m.conversation_id@ == text_of(row[1])
    &&& m.role == spec_role_from_str(text_of(row[2]))
    &&& m.content@ == text_of(row[3])
    &&& m.created_at@ == text_of(row[4])
}

/// `v` are the messages held by `rows`, one per row and in order.
pub open spec fn messages_of_rows(v: Seq<ChatMessage>, rows: Seq<Seq<SqlValue>>) -> bool {
    &&& rows.len() == v.len()
    &&& forall|i: int|
        0 <= i < rows.len() ==> row_fits(rows[i], message_kind_seq()) && message_row(
            #[trigger] v[i],
            rows[i],
        )
}

/// The messages held by message rows, in order.
pub fn messages_from_rows(rows: &Vec<Vec<SqlValue>>) -> (r: Vec<ChatMessage>)
    requires
        forall|j: int| 0 <= j < rows@.len() ==> row_fits(#[trigger] rows@[j]@, message_kind_seq()),
    ensures
        r@.len() == rows@.len(),
        forall|i: int| 0 <= i < rows@.len() ==> message_row(#[trigger] r@[i], rows@[i]@),
{
    let mut out: Vec<ChatMessage> = Vec::new();
    let mut i: usize = 0;
    while i < rows.len()
        invariant
            i <= rows@.len(),
            out@.len() == i,
            forall|j: int| 0 <= j < rows@.len() ==> row_fits(#[trigger] rows@[j]@, message_kind_seq()),
            forall|j: int| 0 <= j < i ==> message_row(#[trigger] out@[j], rows@[j]@),
        decreases rows@.len() - i,
    {
        let row = &rows[i];
        assert(row_fits(rows@[i as int]@, message_kind_seq()));
        let role_text = get_text(row, 2);
        out.push(
            ChatMessage {
                id: get_text(row, 0),
                conversation_id: get_text(row, 1),
                role: role_from_str(role_text.as_str()),
                content: get_text(row, 3),
                created_at: get_text(row, 4),
            },
        );
        i = i + 1;
    }
    out
}

/// Fetch all messages for a conversation in chronological order.
pub fn get_messages(conn: &mut Db, conversation_id: &str) -> (r: Result<
    Vec<ChatMessage>,
    AppError,
>)
    ensures
        extends_by(final(conn).calls(), old(conn).calls(), 1),
        sent(final(conn).calls(), old(conn).calls().len() as int, MESSAGES_SQL@, seq![Param::Text(conversation_id@)]),
        r matches Err(e) ==> is_db_err(e, "Failed to get messages"@),
        r matches Ok(v) ==> query_ok(final(conn).calls(), old(conn).calls().len() as int)
            && messages_of_rows(v@, rows_answer(final(conn).calls(), old(conn).calls().len() as int)),
{
    let kinds = vec![
        ColumnKind::Text,
        ColumnKind::Text,
        ColumnKind::Text,
        ColumnKind::Text,
        ColumnKind::Text,
    ];
    assert(kinds@ == message_kind_seq());
    let params = vec![text_param(conversation_id)];
    assert(params_of(params@) =~= seq![Param::Text(conversation_id@)]);
    let res = db_query(conn, MESSAGES_SQL, &params, &kinds);
    proof {
        lemma_push_extends(old(conn).calls(), conn.calls().last());
        assert(conn.calls() =~= old(conn).calls().push(conn.calls().last()));
    }
    let rows = match res {
        Ok(rows) => rows,
        Err(e) => return Err(map_db_err("Failed to get messages", &e)),
    };
    let out = messages_from_rows(&rows);
    let ghost rs = rows_of(rows@);
    assert(forall|i: int| 0 <= i < rs.len() ==> rs[i] == rows@[i]@);
    assert(rows_answer(conn.calls(), old(conn).calls().len() as int) == rs);
    let r: Result<Vec<ChatMessage>, AppError> = Ok(out);
    assert(messages_of_rows(r->Ok_0@, rs));
    r
}

/// Insert a single message.
pub fn insert_message(conn: &mut Db, msg: &ChatMessage) -> (r: Result<(), AppError>)
    ensures
        extends_by(final(conn).calls(), old(conn).calls(), 1),
        sent(final(conn).calls(), old(conn).calls().len() as int, INSERT_MESSAGE_SQL@, message_params(*msg)),
        r is Ok <==> ran(final(conn).calls(), old(conn).calls().len() as int, INSERT_MESSAGE_SQL@, message_params(*msg)),
        r matches Err(e) ==> is_db_err(e, "Failed to insert message"@),
{
    let params = vec![
        text_param(msg.id.as_str()),
        text_param(msg.conversation_id.as_str()),
        text_param(role_str(msg.role)),
        text_param(msg.content.as_str()),
        text_param(msg.created_at.as_str()),
    ];
    assert(params_of(params@) =~= message_params(*msg));
    let res = db_execute(conn, INSERT_MESSAGE_SQL, &params);
    proof {
        lemma_push_extends(old(conn).calls(), conn.calls().last());
        assert(conn.calls() =~= old(conn).calls().push(conn.calls().last()));
    }
    match res {
        Ok(_) => Ok(()),
        Err(e) => Err(map_db_err("Failed to insert message", &e)),
    }
}

/// Check whether a conversation exists.
pub fn conversation_exists(conn: &mut Db, id: &str) -> (r: Result<bool, AppError>)
    ensures
        extends_by(final(conn).calls(), old(conn).calls(), 1),
        sent(final(conn).calls(), old(conn).calls().len() as int, CONVERSATION_COUNT_SQL@, seq![Param::Text(id@)]),
        r matches Err(e) ==> is_db_err(e, "Failed to check conversation"@) && !has_row(
            final(conn).calls(),
            old(conn).calls().len() as int,
        ),
        r matches Ok(b) ==> has_row(final(conn).calls(), old(conn).calls().len() as int) && b == (int_of(
            rows_answer(final(conn).calls(), old(conn).calls().len() as int)[0][0],
        ) > 0),
{
    let kinds = vec![ColumnKind::Int];
    let params = vec![text_param(id)];
    assert(params_of(params@) =~= seq![Param::Text(id@)]);
    match query_one(conn, CONVERSATION_COUNT_SQL, &params, &kinds) {
        Ok(row) => Ok(get_int(&row, 0) > 0),
        Err(e) => Err(map_db_err("Failed to check conversation", &e)),
    }
}

} // verus!
