use niu_code::cli::info::{ClaudeSysInfo, ModelInfo, SlashCommand};
use niu_code::cli::query::{QueryCommand, QueryError, QueryStream};
use niu_code::cli::stop::ClaudeStreamError;
use niu_code::server::chat::{CliId, SessionCommand, StartChatOptions};
use niu_code::server::claude::{
    build_prompt, info_options, server_data_from, session_options, user_frame, ClaudeCli,
    ClaudeCliMessage, CliStep,
};
use niu_code::server::message::{
    CanUseToolParams, ClaudeSystemInfo, ServerError, ServerMessageData,
};
use niu_code::types::can_use_tool::{
    PermissionAllow, PermissionDeny, PermissionResult,
};
use niu_code::types::message::{
    APIUserMessage, APIUserMessageRole, SDKMessage, SDKMessageTyped, SDKUserMessage, UserContent,
};
use niu_code::types::options::{ClaudeCodeOptions, PermissionMode};
use niu_code::types::tool_input::{BashInput, ToolUseParams, UntaggedToolUseParams};
use serde_json::Value;
use std::sync::Arc;

fn json(text: &str) -> Value {
    serde_json::from_str(text).unwrap()
}

fn streaming() -> QueryStream {
    QueryStream {
        has_writer: true,
        claude_sys_info: Some(ClaudeSysInfo {
            supported_commands: vec![SlashCommand {
                name: "help".to_string(),
                description: "d".to_string(),
                argument_hint: "h".to_string(),
            }],
            models: vec![ModelInfo {
                value: "v".to_string(),
                display_name: "V".to_string(),
                description: "d".to_string(),
            }],
        }),
        session_id: None,
    }
}

fn question() -> CanUseToolParams {
    CanUseToolParams {
        tool_use: ToolUseParams::Bash {
            input: BashInput {
                command: "ls".to_string(),
                timeout: None,
                description: None,
                run_in_background: None,
            },
        },
        suggestions: None,
    }
}

#[test]
fn text_becomes_a_user_message() {
    let mut actor: ClaudeCli<u8> = ClaudeCli::new(CliId(3));
    let text = Arc::new("Hello".to_string());
    match actor.handle_msg(&streaming(), ClaudeCliMessage::UserInput(text.clone())) {
        CliStep::Prompt(p) => {
            assert_eq!(
                p,
                SDKUserMessage {
                    uuid: None,
                    message: APIUserMessage {
                        content: UserContent::String(text),
                        role: APIUserMessageRole::User,
                    },
                    parent_tool_use_id: None,
                }
            );
            assert_eq!(
                user_frame(p),
                json(r#"{"type":"user","session_id":"","uuid":null,"parent_tool_use_id":null,"message":{"role":"user","content":"Hello"}}"#)
            );
        }
        _ => panic!("unexpected step"),
    }
    assert_eq!(actor.cli_id, CliId(3));
}

#[test]
fn blocks_and_ids_are_written_into_the_frame() {
    let p = SDKUserMessage {
        uuid: Some("u1".to_string()),
        message: APIUserMessage {
            content: UserContent::Vec(vec![json(r#"{"type":"text","text":"hi"}"#)]),
            role: APIUserMessageRole::Assistant,
        },
        parent_tool_use_id: Some("t1".to_string()),
    };
    assert_eq!(
        user_frame(p),
        json(r#"{"type":"user","session_id":"","uuid":"u1","parent_tool_use_id":"t1","message":{"role":"assistant","content":[{"type":"text","text":"hi"}]}}"#)
    );
}

#[test]
fn one_permission_question_waits_at_a_time() {
    let mut actor: ClaudeCli<u8> = ClaudeCli::new(CliId(0));
    let stream = streaming();
    match actor.handle_msg(&stream, ClaudeCliMessage::CanUseTool(question(), 1)) {
        CliStep::Asked { forward, displaced } => {
            assert_eq!(forward, ServerMessageData::CanUseTool(Arc::new(question())));
            assert_eq!(displaced, None);
        }
        _ => panic!("unexpected step"),
    }
    assert_eq!(actor.can_use_tool_responder, Some(1));
    match actor.handle_msg(&stream, ClaudeCliMessage::CanUseTool(question(), 2)) {
        CliStep::Asked { displaced, .. } => assert_eq!(displaced, Some(1)),
        _ => panic!("unexpected step"),
    }
    assert_eq!(actor.can_use_tool_responder, Some(2));
}

#[test]
fn an_allow_answers_the_question_that_waits() {
    let mut actor: ClaudeCli<u8> = ClaudeCli::new(CliId(0));
    let stream = streaming();
    actor.handle_msg(&stream, ClaudeCliMessage::CanUseTool(question(), 7));
    let allow = Arc::new(PermissionResult::Allow(PermissionAllow {
        updated_input: UntaggedToolUseParams(json(r#"{"command":"ls"}"#)),
        updated_permissions: None,
    }));
    match actor.handle_msg(&stream, ClaudeCliMessage::PermissionResp(allow.clone())) {
        CliStep::Answer { responder, result } => {
            assert_eq!(responder, 7);
            assert_eq!(result, allow);
        }
        _ => panic!("unexpected step"),
    }
    assert_eq!(actor.can_use_tool_responder, None);
}

#[test]
fn a_deny_without_a_question_is_dropped() {
    let mut actor: ClaudeCli<u8> = ClaudeCli::new(CliId(0));
    let deny = Arc::new(PermissionResult::Deny(PermissionDeny {
        message: "no".to_string(),
        interrupt: None,
    }));
    assert!(matches!(
        actor.handle_msg(&streaming(), ClaudeCliMessage::PermissionResp(deny)),
        CliStep::Dropped
    ));
    assert_eq!(actor.can_use_tool_responder, None);
}

#[test]
fn mode_and_interrupt_become_control_requests() {
    let mut actor: ClaudeCli<u8> = ClaudeCli::new(CliId(0));
    let stream = streaming();
    assert!(matches!(
        actor.handle_msg(&stream, ClaudeCliMessage::SetMode(PermissionMode::Plan)),
        CliStep::Control(QueryCommand::SetPermissionMode { mode: PermissionMode::Plan })
    ));
    assert!(matches!(
        actor.handle_msg(&stream, ClaudeCliMessage::Interrupt),
        CliStep::Control(QueryCommand::Interrupt {})
    ));
    assert!(matches!(actor.handle_msg(&stream, ClaudeCliMessage::Stop), CliStep::Stop));
}

#[test]
fn info_is_answered_from_what_the_child_reported() {
    let mut actor: ClaudeCli<u8> = ClaudeCli::new(CliId(0));
    let stream = streaming();
    match actor.handle_msg(&stream, ClaudeCliMessage::GetInfo) {
        CliStep::ToManager(ServerMessageData::SystemInfo(info)) => {
            let reported = stream.claude_sys_info.clone().unwrap();
            assert_eq!(
                *info,
                ClaudeSystemInfo { commands: reported.supported_commands, models: reported.models }
            );
        }
        _ => panic!("unexpected step"),
    }
    let oneshot = QueryStream { has_writer: false, claude_sys_info: None, session_id: None };
    assert!(matches!(
        actor.handle_msg(&oneshot, ClaudeCliMessage::GetInfo),
        CliStep::Failed(QueryError::NoSysInfo)
    ));
}

#[test]
fn messages_have_names_and_come_from_commands() {
    let stop: ClaudeCliMessage<u8> = ClaudeCliMessage::from_command(SessionCommand::Stop);
    assert!(stop.is_stop());
    assert_eq!(stop.name(), "Stop");
    let m: ClaudeCliMessage<u8> =
        ClaudeCliMessage::from_command(SessionCommand::UserInput(Arc::new("x".to_string())));
    assert!(!m.is_stop());
    assert_eq!(m.name(), "UserInput");
    let m: ClaudeCliMessage<u8> = ClaudeCliMessage::from_command(SessionCommand::GetInfo);
    assert_eq!(m.name(), "GetInfo");
    let m: ClaudeCliMessage<u8> = ClaudeCliMessage::CanUseTool(question(), 1);
    assert_eq!(m.name(), "CanUseTool");
    let m: ClaudeCliMessage<u8> =
        ClaudeCliMessage::from_command(SessionCommand::SetMode(PermissionMode::Default));
    assert_eq!(m.name(), "SetMode");
    let m: ClaudeCliMessage<u8> = ClaudeCliMessage::from_command(SessionCommand::Interrupt);
    assert_eq!(m.name(), "Interrupt");
}

#[test]
fn stream_items_become_messages_for_the_manager() {
    let m = SDKMessage { session_id: "S".to_string(), typed: SDKMessageTyped::Result, body: Value::Null };
    assert_eq!(server_data_from(Ok(m.clone())), ServerMessageData::Claude(Arc::new(m)));
    assert_eq!(
        server_data_from(Err(ClaudeStreamError::CannotWriteToClaude("gone".to_string()))),
        ServerMessageData::ServerError(ServerError { error: "gone".to_string() })
    );
    assert_eq!(
        build_prompt(Arc::new("a".to_string())).message.role,
        APIUserMessageRole::User
    );
}

#[test]
fn a_chat_starts_its_child_with_callback_directory_mode_and_session() {
    let start = StartChatOptions {
        chat_id: "c".to_string(),
        work_dir: "/w".to_string(),
        mode: Some(PermissionMode::Plan),
        config_name: None,
        resume: Some("S".to_string()),
    };
    let o: ClaudeCodeOptions<u8, ()> = session_options(&start, 9);
    assert_eq!(o.can_use_tool, Some(9));
    assert_eq!(o.resume.as_deref(), Some("S"));
    assert_eq!(o.cwd.as_deref(), Some("/w"));
    assert_eq!(o.permission_mode, Some(PermissionMode::Plan));
    assert!(o.model.is_none() && o.env.is_none() && o.extra_args.is_none());
    let i: ClaudeCodeOptions<u8, ()> = info_options("/w");
    assert_eq!(i.cwd.as_deref(), Some("/w"));
    assert!(i.can_use_tool.is_none() && i.resume.is_none() && i.permission_mode.is_none());
}
