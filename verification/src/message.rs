//! Messages of a conversation and their textual weight.

use vstd::prelude::*;
use vstd::utf8::encode_utf8;

verus! {

/// One entry of the conversation log.
///
/// `ToolCall` pairs the canonical encoding of a call with the text the tool
/// returned; `Status` pairs the reserved status-tool name with a snapshot of
/// the tool state.
#[derive(Clone, Debug, PartialEq, Eq)]
pub enum Message {
    System(String),
    User(String),
    Assistant(String),
    ToolCall(String, String),
    Status(String, String),
}

/// The mathematical content of a [`Message`].
pub enum MessageView {
    System(Seq<char>),
    User(Seq<char>),
    Assistant(Seq<char>),
    ToolCall(Seq<char>, Seq<char>),
    Status(Seq<char>, Seq<char>),
}

impl View for Message {
    type V = MessageView;

    open spec fn view(&self) -> MessageView {
        match self {
            Message::System(text) => MessageView::System(text@),
            Message::User(text) => MessageView::User(text@),
            Message::Assistant(text) => MessageView::Assistant(text@),
            Message::ToolCall(call, result) => MessageView::ToolCall(call@, result@),
            Message::Status(call, status) => MessageView::Status(call@, status@),
        }
    }
}

impl DeepView for Message {
    type V = MessageView;

    open spec fn deep_view(&self) -> MessageView {
        self@
    }
}

/// Length of a text in bytes of its UTF-8 encoding.
pub open spec fn text_len(text: Seq<char>) -> nat {
    encode_utf8(text).len()
}

impl MessageView {
    /// Whether the message is a status snapshot.
    pub open spec fn is_status(self) -> bool {
        self is Status
    }

    /// Textual weight: the summed byte lengths of every text the message
    /// carries, both sides of a pair included.
    pub open spec fn weight(self) -> nat {
        match self {
            MessageView::System(text) => text_len(text),
            MessageView::User(text) => text_len(text),
            MessageView::Assistant(text) => text_len(text),
            MessageView::ToolCall(call, result) => text_len(call) + text_len(result),
            MessageView::Status(call, status) => text_len(call) + text_len(status),
        }
    }
}

/// Byte length of a string.
fn byte_len(text: &String) -> (len: usize)
    ensures
        len == text_len(text@),
{
    text.as_str().as_bytes().len()
}

/// Whether `msg` is a status snapshot.
pub fn is_status(msg: &Message) -> (status: bool)
    ensures
        status == msg@.is_status(),
{
    match msg {
        Message::Status(_, _) => true,
        _ => false,
    }
}

impl Message {
    /// Textual weight of the message, see [`MessageView::weight`].
    pub fn weight(&self) -> (weight: u128)
        ensures
            weight == self@.weight(),
    {
        match self {
            Message::System(text) => byte_len(text) as u128,
            Message::User(text) => byte_len(text) as u128,
            Message::Assistant(text) => byte_len(text) as u128,
            Message::ToolCall(call, result) => byte_len(call) as u128 + byte_len(result) as u128,
            Message::Status(call, status) => byte_len(call) as u128 + byte_len(status) as u128,
        }
    }
}

} // verus!
