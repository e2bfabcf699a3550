//! Shapes of the chat-message endpoints' requests.
use vstd::prelude::*;
use crate::time::Timestamp;

verus! {

/// Who wrote a message.
#[derive(Debug, Clone, Copy, PartialEq, Eq, Structural)]
pub enum MessageSender {
    Ai,
    Human,
}

/// What kind of message it is.
#[derive(Debug, Clone, Copy, PartialEq, Eq, Structural)]
pub enum MessageType {
    Text,
    DaySummary,
}

/// A message a user sends.
pub struct SendMessageRequest {
    pub text: String,
    pub file_ids: Vec<String>,
}

/// Which messages to list.
pub struct GetMessagesQuery {
    pub app_id: Option<String>,
    pub limit: usize,
}

/// The app a message request is about.
pub struct MessageAppQuery {
    pub app_id: Option<String>,
}

/// The page size of a message listing that names none.
pub fn default_limit() -> (r: usize)
    ensures
        r == 50,
{
    50
}

/// The wire name of a sender.
pub open spec fn sender_name(s: MessageSender) -> Seq<char> {
    match s {
        MessageSender::Ai => "ai"@,
        MessageSender::Human => "human"@,
    }
}

/// The wire name of a sender.
pub fn sender_wire_name(s: MessageSender) -> (r: &'static str)
    ensures
        r@ == sender_name(s),
{
    match s {
        MessageSender::Ai => "ai",
        MessageSender::Human => "human",
    }
}

/// The wire name of a message type.
pub open spec fn message_type_name(t: MessageType) -> Seq<char> {
    match t {
        MessageType::Text => "text"@,
        MessageType::DaySummary => "day_summary"@,
    }
}

/// The wire name of a message type.
pub fn message_type_wire_name(t: MessageType) -> (r: &'static str)
    ensures
        r@ == message_type_name(t),
{
    match t {
        MessageType::Text => "text",
        MessageType::DaySummary => "day_summary",
    }
}

impl Default for MessageSender {
    fn default() -> (r: MessageSender)
        ensures
            r == MessageSender::Human,
    {
        MessageSender::Human
    }
}

impl Default for MessageType {
    fn default() -> (r: MessageType)
        ensures
            r == MessageType::Text,
    {
        MessageType::Text
    }
}

/// A chat message.
pub struct Message {
    pub id: String,
    pub text: String,
    pub created_at: Timestamp,
    pub sender: MessageSender,
    pub app_id: Option<String>,
    pub message_type: MessageType,
    pub memories_id: Vec<String>,
    pub chat_session_id: Option<String>,
}

/// A chat session.
pub struct ChatSession {
    pub id: String,
    pub created_at: Timestamp,
    pub message_ids: Vec<String>,
    pub app_id: Option<String>,
}

impl Message {
    /// A text message written by the user at `now`, with id `id`.
    pub fn human(id: String, text: String, app_id: Option<String>, session_id: Option<String>, now: Timestamp) -> (r: Message)
        ensures
            r.id == id,
            r.text == text,
            r.created_at == now,
            r.sender == MessageSender::Human,
            r.app_id == app_id,
            r.message_type == MessageType::Text,
            r.memories_id@.len() == 0,
            r.chat_session_id == session_id,
    {
        Message {
            id,
            text,
            created_at: now,
            sender: MessageSender::Human,
            app_id,
            message_type: MessageType::Text,
            memories_id: Vec::new(),
            chat_session_id: session_id,
        }
    }

    /// A text message of the assistant at `now`, with id `id`, citing the
    /// memories `memories_id`.
    pub fn ai(
        id: String,
        text: String,
        app_id: Option<String>,
        session_id: Option<String>,
        memories_id: Vec<String>,
        now: Timestamp,
    ) -> (r: Message)
        ensures
            r.id == id,
            r.text == text,
            r.created_at == now,
            r.sender == MessageSender::Ai,
            r.app_id == app_id,
            r.message_type == MessageType::Text,
            r.memories_id == memories_id,
            r.chat_session_id == session_id,
    {
        Message {
            id,
            text,
            created_at: now,
            sender: MessageSender::Ai,
            app_id,
            message_type: MessageType::Text,
            memories_id,
            chat_session_id: session_id,
        }
    }
}

impl ChatSession {
    /// An empty chat session opened at `now`, with id `id`.
    pub fn new(id: String, app_id: Option<String>, now: Timestamp) -> (r: ChatSession)
        ensures
            r.id == id,
            r.created_at == now,
            r.message_ids@.len() == 0,
            r.app_id == app_id,
    {
        ChatSession { id, created_at: now, message_ids: Vec::new(), app_id }
    }
}

} // verus!
