//! Messages that the child emits and accepts.

use serde_json::Value;
use std::sync::Arc;
use vstd::prelude::*;

verus! {

/// Who wrote a message.
#[derive(Clone, Copy, Debug, PartialEq, Eq, Structural)]
pub enum APIUserMessageRole {
    User,
    Assistant,
}

/// The kinds of data message that the child emits.
#[derive(Clone, Copy, Debug, PartialEq, Eq, Structural)]
pub enum SDKMessageTyped {
    Assistant,
    User,
    Result,
    System,
    StreamEvent,
}

impl SDKMessageTyped {
    /// The kind as the `type` member of a frame spells it.
    pub open spec fn wire_value(self) -> Seq<char> {
        match self {
            SDKMessageTyped::Assistant => "assistant"@,
            SDKMessageTyped::User => "user"@,
            SDKMessageTyped::Result => "result"@,
            SDKMessageTyped::System => "system"@,
            SDKMessageTyped::StreamEvent => "stream_event"@,
        }
    }

    pub fn wire_name(&self) -> (r: &'static str)
        ensures
            r@ == self.wire_value(),
    {
        match self {
            SDKMessageTyped::Assistant => "assistant",
            SDKMessageTyped::User => "user",
            SDKMessageTyped::Result => "result",
            SDKMessageTyped::System => "system",
            SDKMessageTyped::StreamEvent => "stream_event",
        }
    }
}

/// One data message of the child: the session it belongs to, its kind, and
/// the whole frame as it arrived.
#[derive(Clone, Debug, PartialEq)]
pub struct SDKMessage {
    pub session_id: String,
    pub typed: SDKMessageTyped,
    pub body: Value,
}

/// What a user says: plain text, or a list of content blocks.
#[derive(Clone, Debug, PartialEq)]
pub enum UserContent {
    String(Arc<String>),
    Vec(Vec<Value>),
}

#[derive(Clone, Debug, PartialEq)]
pub struct APIUserMessage {
    pub content: UserContent,
    pub role: APIUserMessageRole,
}

/// A user message on its way to the child.
#[derive(Clone, Debug, PartialEq)]
pub struct SDKUserMessage {
    pub uuid: Option<String>,
    pub message: APIUserMessage,
    pub parent_tool_use_id: Option<String>,
}

} // verus!
