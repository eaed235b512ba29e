//! The session actor: it owns one transport and does what the manager, the
//! permission callback and the child ask of it.

use crate::cli::query::{QueryCommand, QueryError, QueryStream};
use crate::cli::stop::ClaudeStreamError;
use crate::json::{
    json_from_items, json_from_text, json_insert, json_is_object, json_items, json_members,
    json_new_object, json_null, json_string, json_text_member,
};
use crate::server::chat::{CliId, SessionCommand, StartChatOptions};
use crate::server::message::{CanUseToolParams, ClaudeSystemInfo, ServerError, ServerMessageData};
use crate::text::opt_text;
use crate::types::can_use_tool::PermissionResult;
use crate::types::message::{
    APIUserMessage, APIUserMessageRole, SDKMessage, SDKUserMessage, UserContent,
};
use crate::types::options::{ClaudeCodeOptions, PermissionMode};
use serde_json::Value;
use std::sync::Arc;
use vstd::prelude::*;

verus! {

/// A message in the mailbox of a session actor. `R` takes the answer to a
/// permission question.
pub enum ClaudeCliMessage<R> {
    UserInput(Arc<String>),
    PermissionResp(Arc<PermissionResult>),
    SetMode(PermissionMode),
    SetModel(String),
    GetInfo,
    CanUseTool(CanUseToolParams, R),
    Stop,
    Interrupt,
}

impl<R> ClaudeCliMessage<R> {
    /// The name of the message's kind.
    pub open spec fn kind_name(&self) -> Seq<char> {
        match self {
            ClaudeCliMessage::UserInput(..) => "UserInput"@,
            ClaudeCliMessage::PermissionResp(..) => "PermissionResp"@,
            ClaudeCliMessage::SetMode(..) => "SetMode"@,
            ClaudeCliMessage::SetModel(..) => "SetModel"@,
            ClaudeCliMessage::GetInfo => "GetInfo"@,
            ClaudeCliMessage::CanUseTool(..) => "CanUseTool"@,
            ClaudeCliMessage::Stop => "Stop"@,
            ClaudeCliMessage::Interrupt => "Interrupt"@,
        }
    }

    /// The name of the message's kind.
    pub fn name(&self) -> (r: &'static str)
        ensures
            r@ == self.kind_name(),
    {
        match self {
            ClaudeCliMessage::UserInput(..) => "UserInput",
            ClaudeCliMessage::PermissionResp(..) => "PermissionResp",
            ClaudeCliMessage::SetMode(..) => "SetMode",
            ClaudeCliMessage::SetModel(..) => "SetModel",
            ClaudeCliMessage::GetInfo => "GetInfo",
            ClaudeCliMessage::CanUseTool(..) => "CanUseTool",
            ClaudeCliMessage::Stop => "Stop",
            ClaudeCliMessage::Interrupt => "Interrupt",
        }
    }

    #[must_use]
    pub fn is_stop(&self) -> (r: bool)
        ensures
            r == (self is Stop),
    {
        match self {
            ClaudeCliMessage::Stop => true,
            _ => false,
        }
    }

    /// The message that carries a command of the manager.
    pub fn from_command(command: SessionCommand) -> (r: Self)
        ensures
            r == (match command {
                SessionCommand::UserInput(t) => ClaudeCliMessage::<R>::UserInput(t),
                SessionCommand::PermissionResp(p) => ClaudeCliMessage::PermissionResp(p),
                SessionCommand::SetMode(m) => ClaudeCliMessage::SetMode(m),
                SessionCommand::GetInfo => ClaudeCliMessage::GetInfo,
                SessionCommand::Interrupt => ClaudeCliMessage::Interrupt,
                SessionCommand::Stop => ClaudeCliMessage::Stop,
            }),
    {
        match command {
            SessionCommand::UserInput(t) => ClaudeCliMessage::UserInput(t),
            SessionCommand::PermissionResp(p) => ClaudeCliMessage::PermissionResp(p),
            SessionCommand::SetMode(m) => ClaudeCliMessage::SetMode(m),
            SessionCommand::GetInfo => ClaudeCliMessage::GetInfo,
            SessionCommand::Interrupt => ClaudeCliMessage::Interrupt,
            SessionCommand::Stop => ClaudeCliMessage::Stop,
        }
    }
}

/// What a session actor does with one message of its mailbox.
pub enum CliStep<R> {
    /// The user's message goes to the child through the prompt channel.
    Prompt(SDKUserMessage),
    /// The permission question that waits is answered.
    Answer { responder: R, result: Arc<PermissionResult> },
    /// An answer came and no permission question waits: it is dropped.
    Dropped,
    /// The child is sent this control request; no answer is awaited.
    Control(QueryCommand),
    /// This goes to the manager.
    ToManager(ServerMessageData),
    /// The permission question goes to the manager, and its responder
    /// waits. A responder that waited before is handed back, to be dropped.
    Asked { forward: ServerMessageData, displaced: Option<R> },
    /// The transport stops and the actor ends.
    Stop,
    /// The child has not reported its commands and models: the actor ends
    /// with this error.
    Failed(QueryError),
}

/// The state of a session actor.
pub struct ClaudeCli<R> {
    pub cli_id: CliId,
    /// The responder of the permission question that waits for an answer.
    pub can_use_tool_responder: Option<R>,
}

/// The message for the child that holds the text that a user typed.
pub fn build_prompt(prompt: Arc<String>) -> (r: SDKUserMessage)
    ensures
        r == (SDKUserMessage {
            uuid: None,
            message: APIUserMessage {
                content: UserContent::String(prompt),
                role: APIUserMessageRole::User,
            },
            parent_tool_use_id: None,
        }),
{
    SDKUserMessage {
        uuid: None,
        message: APIUserMessage { content: UserContent::String(prompt), role: APIUserMessageRole::User },
        parent_tool_use_id: None,
    }
}

/// What the manager is told of something that the stream yields: a data
/// message as it is, an error by its text.
pub fn server_data_from(item: Result<SDKMessage, ClaudeStreamError>) -> (r: ServerMessageData)
    ensures
        match item {
            Ok(m) => r == ServerMessageData::Claude(Arc::new(m)),
            Err(e) => r matches ServerMessageData::ServerError(s) && s.error@ == e.text(),
        },
{
    match item {
        Ok(m) => ServerMessageData::Claude(Arc::new(m)),
        Err(e) => ServerMessageData::ServerError(ServerError { error: e.message() }),
    }
}

impl<R> ClaudeCli<R> {
    /// An actor for the session `cli_id`, for which no permission question
    /// waits.
    pub fn new(cli_id: CliId) -> (r: Self)
        ensures
            r.cli_id == cli_id,
            r.can_use_tool_responder is None,
    {
        ClaudeCli { cli_id, can_use_tool_responder: None }
    }

    /// Takes one message of the mailbox.
    ///
    /// Text goes to the child as a user message. An answer to a permission
    /// question goes to the responder that waits, which then waits no
    /// longer; without one the answer is dropped. A change of mode or of
    /// model and an interrupt become control requests. A question about the child is
    /// answered from what the child reported when the stream was opened. A
    /// permission question goes to the manager and its responder waits, in
    /// place of any that waited before.
    pub fn handle_msg(&mut self, stream: &QueryStream, msg: ClaudeCliMessage<R>) -> (r: CliStep<R>)
        ensures
            final(self).cli_id == old(self).cli_id,
            match msg {
                ClaudeCliMessage::UserInput(t) => {
                    &&& r matches CliStep::Prompt(p) && p == build_prompt_spec(t)
                    &&& final(self).can_use_tool_responder == old(self).can_use_tool_responder
                },
                ClaudeCliMessage::PermissionResp(p) => {
                    &&& final(self).can_use_tool_responder is None
                    &&& match old(self).can_use_tool_responder {
                        Some(w) => r matches CliStep::Answer { responder, result } && responder == w
                            && result == p,
                        None => r is Dropped,
                    }
                },
                ClaudeCliMessage::SetMode(mode) => {
                    &&& r matches CliStep::Control(c) && c == (QueryCommand::SetPermissionMode {
                        mode,
                    })
                    &&& final(self).can_use_tool_responder == old(self).can_use_tool_responder
                },
                ClaudeCliMessage::SetModel(model) => {
                    &&& r matches CliStep::Control(c) && c == (QueryCommand::SetModel { model })
                    &&& final(self).can_use_tool_responder == old(self).can_use_tool_responder
                },
                ClaudeCliMessage::Interrupt => {
                    &&& r matches CliStep::Control(c) && c == (QueryCommand::Interrupt {  })
                    &&& final(self).can_use_tool_responder == old(self).can_use_tool_responder
                },
                ClaudeCliMessage::GetInfo => {
                    &&& final(self).can_use_tool_responder == old(self).can_use_tool_responder
                    &&& match stream.claude_sys_info {
                        Some(info) => {
                            &&& r matches CliStep::ToManager(ServerMessageData::SystemInfo(i))
                            &&& i.commands@ == info.supported_commands@
                            &&& i.models@ == info.models@
                        },
                        None => r matches CliStep::Failed(e) && e == QueryError::NoSysInfo,
                    }
                },
                ClaudeCliMessage::CanUseTool(params, responder) => {
                    &&& final(self).can_use_tool_responder == Some(responder)
                    &&& r matches CliStep::Asked { forward, displaced }
                    &&& forward == ServerMessageData::CanUseTool(Arc::new(params))
                    &&& displaced == old(self).can_use_tool_responder
                },
                ClaudeCliMessage::Stop => {
                    &&& r is Stop
                    &&& final(self).can_use_tool_responder == old(self).can_use_tool_responder
                },
            },
    {
        match msg {
            ClaudeCliMessage::UserInput(input) => CliStep::Prompt(build_prompt(input)),
            ClaudeCliMessage::PermissionResp(result) => {
                match self.can_use_tool_responder.take() {
                    Some(responder) => CliStep::Answer { responder, result },
                    None => CliStep::Dropped,
                }
            },
            ClaudeCliMessage::SetMode(mode) => CliStep::Control(
                QueryCommand::SetPermissionMode { mode },
            ),
            ClaudeCliMessage::SetModel(model) => CliStep::Control(QueryCommand::SetModel { model }),
            ClaudeCliMessage::GetInfo => {
                let commands = match stream.supported_commands() {
                    Ok(c) => c,
                    Err(e) => {
                        return CliStep::Failed(e);
                    },
                };
                let models = match stream.supported_models() {
                    Ok(m) => m,
                    Err(e) => {
                        return CliStep::Failed(e);
                    },
                };
                CliStep::ToManager(
                    ServerMessageData::SystemInfo(Arc::new(ClaudeSystemInfo { commands, models })),
                )
            },
            ClaudeCliMessage::CanUseTool(params, responder) => {
                let displaced = self.can_use_tool_responder.take();
                self.can_use_tool_responder = Some(responder);
                CliStep::Asked {
                    forward: ServerMessageData::CanUseTool(Arc::new(params)),
                    displaced,
                }
            },
            ClaudeCliMessage::Stop => CliStep::Stop,
            ClaudeCliMessage::Interrupt => CliStep::Control(QueryCommand::Interrupt {  }),
        }
    }
}

/// Whether every option but the permission callback, the session to go on
/// with, the working directory and the permission mode is left unset.
pub open spec fn only_session_options<C, E>(o: ClaudeCodeOptions<C, E>) -> bool {
    (ClaudeCodeOptions::<C, E> {
        can_use_tool: None,
        resume: None,
        cwd: None,
        permission_mode: None,
        ..o
    }).is_unset()
}

/// The options with which the child of a chat is started: the permission
/// callback, the session to go on with, the working directory and the
/// permission mode, and nothing else.
pub fn session_options<C, E>(start: &StartChatOptions, callback: C) -> (r: ClaudeCodeOptions<C, E>)
    ensures
        only_session_options(r),
        r.can_use_tool == Some(callback),
        opt_text(r.resume) == opt_text(start.resume),
        opt_text(r.cwd) == Some(start.work_dir@),
        r.permission_mode == start.mode,
{
    let mut o: ClaudeCodeOptions<C, E> = ClaudeCodeOptions::default();
    o.can_use_tool = Some(callback);
    o.resume = match &start.resume {
        Some(s) => Some(s.clone()),
        None => None,
    };
    o.cwd = Some(start.work_dir.clone());
    o.permission_mode = start.mode;
    o
}

/// The options with which a child is started only to learn its commands and
/// models: the working directory, and nothing else.
pub fn info_options<C, E>(work_dir: &str) -> (r: ClaudeCodeOptions<C, E>)
    ensures
        only_session_options(r),
        r.can_use_tool is None,
        r.resume is None,
        opt_text(r.cwd) == Some(work_dir@),
        r.permission_mode is None,
{
    let mut o: ClaudeCodeOptions<C, E> = ClaudeCodeOptions::default();
    o.cwd = Some(work_dir.to_owned());
    o
}

/// The message for the child that holds the text that a user typed.
pub open spec fn build_prompt_spec(prompt: Arc<String>) -> SDKUserMessage {
    SDKUserMessage {
        uuid: None,
        message: APIUserMessage {
            content: UserContent::String(prompt),
            role: APIUserMessageRole::User,
        },
        parent_tool_use_id: None,
    }
}

/// Whether `v` is null or the string `text`, as `text` is absent or present.
pub open spec fn is_optional_text(v: Value, text: Option<String>) -> bool {
    match text {
        Some(t) => json_string(v) == Some(t@),
        None => json_string(v) is None && !json_is_object(v),
    }
}

/// Whether `v` holds what a user says: the text as a string, or the blocks
/// as an array.
pub open spec fn is_content(v: Value, content: UserContent) -> bool {
    match content {
        UserContent::String(t) => json_string(v) == Some(t@),
        UserContent::Vec(blocks) => json_items(v) == Some(blocks@),
    }
}

/// The role as the wire spells it.
pub open spec fn role_name(role: APIUserMessageRole) -> Seq<char> {
    match role {
        APIUserMessageRole::User => "user"@,
        APIUserMessageRole::Assistant => "assistant"@,
    }
}

/// Whether `v` is the frame that carries the user message `prompt` to the
/// child: an object with the members `type`, which is `user`, `session_id`,
/// which is empty, `uuid`, `message`, which holds `role` and `content`, and
/// `parent_tool_use_id`.
pub open spec fn is_user_frame(v: Value, prompt: SDKUserMessage) -> bool {
    let message = json_members(v)["message"@];
    &&& json_is_object(v)
    &&& json_members(v).dom() == set![
        "type"@,
        "session_id"@,
        "uuid"@,
        "message"@,
        "parent_tool_use_id"@,
    ]
    &&& json_text_member(v, "type"@) == Some("user"@)
    &&& json_text_member(v, "session_id"@) == Some(""@)
    &&& is_optional_text(json_members(v)["uuid"@], prompt.uuid)
    &&& is_optional_text(json_members(v)["parent_tool_use_id"@], prompt.parent_tool_use_id)
    &&& json_is_object(message)
    &&& json_members(message).dom() == set!["role"@, "content"@]
    &&& json_text_member(message, "role"@) == Some(role_name(prompt.message.role))
    &&& is_content(json_members(message)["content"@], prompt.message.content)
}

/// Null, or the text as a JSON string.
fn optional_text(text: &Option<String>) -> (r: Value)
    ensures
        is_optional_text(r, *text),
{
    match text {
        Some(t) => json_from_text(t.as_str()),
        None => json_null(),
    }
}

/// The frame that carries a user message to the child.
pub fn user_frame(prompt: SDKUserMessage) -> (r: Value)
    ensures
        is_user_frame(r, prompt),
{
    proof {
        reveal_strlit("type");
        reveal_strlit("session_id");
        reveal_strlit("uuid");
        reveal_strlit("message");
        reveal_strlit("parent_tool_use_id");
        reveal_strlit("role");
        reveal_strlit("content");
        assert("type"@.len() == 4 && "session_id"@.len() == 10 && "uuid"@.len() == 4
            && "message"@.len() == 7 && "parent_tool_use_id"@.len() == 18 && "role"@.len() == 4
            && "content"@.len() == 7);
        assert("type"@[0] == 't' && "uuid"@[0] == 'u' && "role"@[0] == 'r');
        assert("message"@[0] == 'm' && "content"@[0] == 'c');
    }
    let role = match prompt.message.role {
        APIUserMessageRole::User => "user",
        APIUserMessageRole::Assistant => "assistant",
    };
    let content = match prompt.message.content {
        UserContent::String(t) => json_from_text(t.as_str()),
        UserContent::Vec(blocks) => json_from_items(blocks),
    };
    let mut message = json_new_object();
    json_insert(&mut message, "role", json_from_text(role));
    json_insert(&mut message, "content", content);
    assert(json_members(message).dom() =~= set!["role"@, "content"@]);
    let mut frame = json_new_object();
    json_insert(&mut frame, "type", json_from_text("user"));
    json_insert(&mut frame, "session_id", json_from_text(""));
    json_insert(&mut frame, "uuid", optional_text(&prompt.uuid));
    json_insert(&mut frame, "message", message);
    json_insert(&mut frame, "parent_tool_use_id", optional_text(&prompt.parent_tool_use_id));
    assert(json_members(frame).dom() =~= set![
        "type"@,
        "session_id"@,
        "uuid"@,
        "message"@,
        "parent_tool_use_id"@,
    ]);
    frame
}

} // verus!
