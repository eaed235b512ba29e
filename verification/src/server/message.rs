//! Messages between a client and the chat manager.

use crate::cli::info::{ModelInfo, SlashCommand};
use crate::types::can_use_tool::{PermissionResult, PermissionUpdate};
use crate::types::message::SDKMessage;
use crate::types::options::PermissionMode;
use crate::types::tool_input::ToolUseParams;
use std::sync::Arc;
use vstd::prelude::*;

verus! {

/// The name that a client gives to a conversation.
pub type ChatId = String;

/// Text that a user typed.
#[derive(Clone, Debug, PartialEq)]
pub struct UserInput {
    pub content: Arc<String>,
}

/// What a client asks of the manager.
#[derive(Clone, Debug, PartialEq)]
pub enum ClientMessageData {
    RegisterChat,
    UserInput(UserInput),
    PermissionResp(Arc<PermissionResult>),
    SetMode { mode: PermissionMode },
    GetInfo,
    StopSession,
    Interrupt,
}

#[derive(Clone, Debug, PartialEq)]
pub struct ClientMessage {
    pub chat_id: ChatId,
    pub data: ClientMessageData,
}

/// An error that is shown to the user.
#[derive(Clone, Debug, PartialEq)]
pub struct ServerError {
    pub error: String,
}

/// The child's question whether it may use a tool.
#[derive(Clone, Debug, PartialEq)]
pub struct CanUseToolParams {
    pub tool_use: ToolUseParams,
    pub suggestions: Option<Vec<PermissionUpdate>>,
}

/// The commands and models of a session's child.
#[derive(Clone, Debug, PartialEq)]
pub struct ClaudeSystemInfo {
    pub commands: Vec<SlashCommand>,
    pub models: Vec<ModelInfo>,
}

/// What the manager tells a client.
#[derive(Clone, Debug, PartialEq)]
pub enum ServerMessageData {
    /// A data message of the child, as it came.
    Claude(Arc<SDKMessage>),
    ServerError(ServerError),
    SystemInfo(Arc<ClaudeSystemInfo>),
    CanUseTool(Arc<CanUseToolParams>),
    /// The chat no longer belongs to a session.
    ChatRemoved,
}

#[derive(Clone, Debug, PartialEq)]
pub struct ServerMessage {
    pub chat_id: ChatId,
    pub data: ServerMessageData,
}

/// Calls `Arc::clone`, which hands out a second handle to the same value.
#[verifier::external_body]
pub(crate) fn share<T>(a: &Arc<T>) -> (r: Arc<T>)
    ensures
        r == *a,
{
    Arc::clone(a)
}

} // verus!
