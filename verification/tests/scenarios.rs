use niu_code::cli::control::{
    callback_frame, handle_ctrl_req, CanUseToolRequest, ControlDecision, ControlRequstMessage,
    ControlRequstMessageWrapper,
};
use niu_code::cli::query::QueryStream;
use niu_code::cli::reader::{handle_claude_msg, ReaderStep};
use niu_code::cli::spawn::{build_cli_args, Prompt};
use niu_code::cli::stop::StopReason;
use niu_code::cli::writer::{handle_prompt, WriterStep};
use niu_code::server::chat::{
    ChatManager, ClientStep, ConnId, ManagerAction, SessionCommand, StartChatOptions, StartPlan,
};
use niu_code::server::claude::{
    server_data_from, session_options, ClaudeCli, ClaudeCliMessage, CliStep,
};
use niu_code::server::hub::{ChatHub, ChatManagerMessage, ManagerReply, WriterClosed, WsWriter};
use niu_code::server::message::{
    CanUseToolParams, ClientMessage, ClientMessageData, ServerMessage, ServerMessageData,
    UserInput,
};
use niu_code::server::resume::{transcript_records, ClaudeLog, ClaudeLogTypes, ClaudeSession};
use niu_code::types::can_use_tool::{PermissionAllow, PermissionDeny, PermissionResult};
use niu_code::types::message::SDKMessageTyped;
use niu_code::types::options::ClaudeCodeOptions;
use niu_code::types::tool_input::{BashInput, ToolUseParams, UntaggedToolUseParams};
use serde_json::Value;
use std::cell::RefCell;
use std::rc::Rc;
use std::sync::Arc;

fn json(text: &str) -> Value {
    serde_json::from_str(text).unwrap()
}

fn line(text: &str) -> Option<Result<String, String>> {
    Some(Ok(text.to_string()))
}

fn output(text: &str) -> ServerMessageData {
    match handle_claude_msg(line(text)) {
        step @ ReaderStep::Output(_) => server_data_from(step.into_item().unwrap()),
        other => panic!("unexpected {:?}", other),
    }
}

#[derive(Clone)]
struct Socket {
    sent: Rc<RefCell<Vec<ServerMessage>>>,
}

impl Socket {
    fn new() -> Self {
        Socket { sent: Rc::new(RefCell::new(Vec::new())) }
    }

    fn bodies(&self) -> Vec<Value> {
        self.sent
            .borrow()
            .iter()
            .map(|m| match &m.data {
                ServerMessageData::Claude(d) => d.body.clone(),
                other => panic!("unexpected {:?}", other),
            })
            .collect()
    }
}

impl WsWriter for Socket {
    fn send_msg(&self, msg: ServerMessage) -> Result<(), WriterClosed> {
        self.sent.borrow_mut().push(msg);
        Ok(())
    }
}

#[test]
fn oneshot_question_and_answer() {
    let prompt: Prompt<()> = Prompt::Oneshot("What is 2+2?".to_string());
    let options: ClaudeCodeOptions<(), ()> = ClaudeCodeOptions::default();
    let args = build_cli_args(&prompt, &options).unwrap();
    assert_eq!(&args[args.len() - 3..], ["--print", "--", "What is 2+2?"]);

    let result = r#"{"type":"result","subtype":"success","session_id":"S","result":"4"}"#;
    match handle_claude_msg(line(result)) {
        ReaderStep::Output(m) => {
            assert_eq!(m.typed, SDKMessageTyped::Result);
            assert_eq!(m.body, json(result));
        }
        other => panic!("unexpected {:?}", other),
    }
    let end = handle_claude_msg(None);
    assert!(end.is_break());
    assert_eq!(end.stop_reason(), Some(StopReason::NoMoreClaudeMsg));
}

#[test]
fn two_turns_of_a_streaming_chat() {
    let mut hub: ChatHub<Socket> = ChatHub::new();
    let socket = Socket::new();
    hub.new_connect(ConnId(1), socket.clone());
    hub.regiter_chat(ConnId(1), "chat".to_string());
    let cli = hub.attach_session("chat", "/w".to_string(), None, Vec::new(), 0).unwrap().unwrap();
    let mut actor: ClaudeCli<u8> = ClaudeCli::new(cli);
    let stream = QueryStream { has_writer: true, claude_sys_info: None, session_id: None };

    let turns = [
        (
            "Hello",
            vec![
                r#"{"type":"system","subtype":"init","session_id":"S"}"#,
                r#"{"type":"assistant","session_id":"S","message":{"content":"Hi"}}"#,
                r#"{"type":"result","subtype":"success","session_id":"S","result":"Hi"}"#,
            ],
        ),
        (
            "What is your source?",
            vec![
                r#"{"type":"stream_event","session_id":"S","event":{}}"#,
                r#"{"type":"result","subtype":"success","session_id":"S","result":"text"}"#,
            ],
        ),
    ];
    let mut expected: Vec<Value> = Vec::new();
    let mut now = 1;
    for (text, answers) in turns {
        let input = ClientMessageData::UserInput(UserInput { content: Arc::new(text.to_string()) });
        let reply = hub.handle_msg(
            ChatManagerMessage::ClientMessage {
                conn_id: ConnId(1),
                msg: ClientMessage { chat_id: "chat".to_string(), data: input },
            },
            now,
        );
        let command = match reply {
            ManagerReply::Commands(mut c) => match c.remove(0) {
                ManagerAction::Forward { cli_id, command } => {
                    assert_eq!(cli_id, cli);
                    command
                }
                other => panic!("unexpected {:?}", other),
            },
            _ => panic!("unexpected reply"),
        };
        let written = match actor.handle_msg(&stream, ClaudeCliMessage::from_command(command)) {
            CliStep::Prompt(p) => handle_prompt(Some(p)),
            _ => panic!("unexpected step"),
        };
        match written {
            WriterStep::Write(l) => assert_eq!(json(&l)["message"]["content"], Value::String(text.to_string())),
            other => panic!("unexpected {:?}", other),
        }
        for answer in answers {
            now += 1;
            let delivered = hub.handle_msg(
                ChatManagerMessage::CliMessage { cli_id: cli, data: output(answer) },
                now,
            );
            assert!(matches!(delivered, ManagerReply::Delivered(true)));
            expected.push(json(answer));
        }
        assert_eq!(socket.bodies().last().unwrap()["type"], json(r#""result""#));
    }
    assert_eq!(socket.bodies(), expected);
    assert_eq!(handle_prompt(None), WriterStep::Finished);
    let infos = hub.manager().handle_get_active_sessions("/w");
    assert_eq!(infos[0].session_id, "S");
    assert_eq!(infos[0].message_count, 7);
    assert_eq!(infos[0].last_user_input.as_deref().map(|s| s.as_str()), Some("What is your source?"));
}

fn permission_round(answer: PermissionResult, payload: &str) -> Value {
    let mut manager = ChatManager::new();
    manager.new_connect(ConnId(1));
    manager.regiter_chat(ConnId(1), "chat".to_string());
    let cli = manager.attach_session("chat", "/w".to_string(), None, Vec::new(), 0).unwrap().unwrap();
    let mut actor: ClaudeCli<&'static str> = ClaudeCli::new(cli);
    let stream = QueryStream { has_writer: true, claude_sys_info: None, session_id: None };

    let request = r#"{"type":"control_request","request_id":"req-1","request":{"subtype":"can_use_tool","tool_name":"Bash","input":{"command":"ls"}}}"#;
    assert_eq!(handle_claude_msg(line(request)), ReaderStep::ControlRequest(json(request)));
    let tool_use = ToolUseParams::Bash {
        input: BashInput { command: "ls".to_string(), timeout: None, description: None, run_in_background: None },
    };
    let decoded = ControlRequstMessageWrapper {
        request_id: "req-1".to_string(),
        request: ControlRequstMessage::CanUseTool(CanUseToolRequest {
            tool_use: tool_use.clone(),
            permission_suggestions: None,
        }),
    };
    let (request_id, params) = match handle_ctrl_req(Ok(decoded), true) {
        ControlDecision::Ask { request_id, tool_use, suggestions } => {
            (request_id, CanUseToolParams { tool_use, suggestions })
        }
        other => panic!("unexpected {:?}", other),
    };
    let forward = match actor.handle_msg(&stream, ClaudeCliMessage::CanUseTool(params.clone(), "waiting")) {
        CliStep::Asked { forward, displaced } => {
            assert!(displaced.is_none());
            forward
        }
        _ => panic!("unexpected step"),
    };
    let delivery = manager.handle_cli_message(cli, forward, 1).unwrap();
    assert_eq!(delivery.conn, ConnId(1));
    assert_eq!(
        delivery.msg,
        ServerMessage { chat_id: "chat".to_string(), data: ServerMessageData::CanUseTool(Arc::new(params)) }
    );

    let answer = Arc::new(answer);
    let step = manager.handle_client_msg(
        ConnId(1),
        ClientMessage { chat_id: "chat".to_string(), data: ClientMessageData::PermissionResp(answer.clone()) },
        2,
    );
    let command = match step {
        ClientStep::Done(mut a) => match a.remove(0) {
            ManagerAction::Forward { command, .. } => command,
            other => panic!("unexpected {:?}", other),
        },
        ClientStep::Registered(_) => panic!("not a registration"),
    };
    assert_eq!(command, SessionCommand::PermissionResp(answer.clone()));
    match actor.handle_msg(&stream, ClaudeCliMessage::from_command(command)) {
        CliStep::Answer { responder, result } => {
            assert_eq!(responder, "waiting");
            assert_eq!(result, answer);
        }
        _ => panic!("unexpected step"),
    }
    callback_frame(&request_id, Ok(json(payload)))
}

#[test]
fn a_permission_prompt_that_is_allowed() {
    let allow = PermissionResult::Allow(PermissionAllow {
        updated_input: UntaggedToolUseParams(json(r#"{"command":"ls"}"#)),
        updated_permissions: None,
    });
    let frame = permission_round(allow, r#"{"behavior":"allow","updatedInput":{"command":"ls"}}"#);
    assert_eq!(
        frame,
        json(r#"{"type":"control_response","response":{"subtype":"success","request_id":"req-1","response":{"behavior":"allow","updatedInput":{"command":"ls"}}}}"#)
    );
}

#[test]
fn a_permission_prompt_that_is_denied() {
    let deny = PermissionResult::Deny(PermissionDeny { message: "no".to_string(), interrupt: None });
    let frame = permission_round(deny, r#"{"behavior":"deny","message":"no"}"#);
    assert_eq!(
        frame,
        json(r#"{"type":"control_response","response":{"subtype":"success","request_id":"req-1","response":{"behavior":"deny","message":"no"}}}"#)
    );
}

#[test]
fn disconnect_then_reconnect_with_lag() {
    let mut hub: ChatHub<Socket> = ChatHub::new();
    let first = Socket::new();
    hub.new_connect(ConnId(1), first.clone());
    hub.regiter_chat(ConnId(1), "chat".to_string());
    let cli = hub.attach_session("chat", "/w".to_string(), None, Vec::new(), 0).unwrap().unwrap();
    let frame = |n: u32| format!(r#"{{"type":"assistant","session_id":"S","n":{}}}"#, n);
    hub.handle_cli_message(cli, output(&frame(0)), 1);
    hub.handle_msg(
        ChatManagerMessage::ClientMessage {
            conn_id: ConnId(1),
            msg: ClientMessage {
                chat_id: "chat".to_string(),
                data: ClientMessageData::UserInput(UserInput { content: Arc::new("go on".to_string()) }),
            },
        },
        2,
    );
    hub.connection_closed(ConnId(1));
    for n in 1..4 {
        assert!(!hub.handle_cli_message(cli, output(&frame(n)), 2 + n as i64));
    }
    assert_eq!(first.bodies(), vec![json(&frame(0))]);

    let second = Socket::new();
    hub.new_connect(ConnId(2), second.clone());
    assert_eq!(hub.regiter_chat(ConnId(2), "chat".to_string()), 3);
    assert_eq!(second.bodies(), vec![json(&frame(1)), json(&frame(2)), json(&frame(3))]);
    assert!(hub.handle_cli_message(cli, output(&frame(4)), 9));
    assert_eq!(second.bodies().len(), 4);
    assert_eq!(second.bodies()[3], json(&frame(4)));
    assert!(second.sent.borrow().iter().all(|m| m.chat_id == "chat"));
}

fn log(kind: &str, session: &str, uuid: &str, message: &str) -> ClaudeLogTypes {
    let l = ClaudeLog {
        parent_uuid: None,
        is_sidechain: false,
        user_type: "external".to_string(),
        cwd: "/w".to_string(),
        session_id: session.to_string(),
        version: "1".to_string(),
        git_branch: None,
        message: json(message),
        is_meta: None,
        uuid: uuid.to_string(),
        timestamp: "2025-01-02T03:04:05Z".to_string(),
        thinking_metadata: None,
        tool_use_result: None,
        is_visible_in_transcript_only: None,
        is_compact_summary: None,
        is_api_error_message: None,
    };
    if kind == "user" {
        ClaudeLogTypes::User(l)
    } else {
        ClaudeLogTypes::Assistant(l)
    }
}

#[test]
fn resume_from_disk() {
    let mut manager = ChatManager::new();
    manager.new_connect(ConnId(1));
    manager.regiter_chat(ConnId(1), "chat".to_string());
    let start = StartChatOptions {
        chat_id: "chat".to_string(),
        work_dir: "/w".to_string(),
        mode: None,
        config_name: None,
        resume: Some("S".to_string()),
    };
    assert_eq!(manager.plan_start_chat(&start), StartPlan::LoadTranscript);

    let transcript = ClaudeSession {
        logs: vec![
            log("user", "S", "u1", r#"{"role":"user","content":"hi"}"#),
            ClaudeLogTypes::System(Value::Null),
            log("assistant", "S", "a1", r#"{"role":"assistant","content":[]}"#),
        ],
    };
    let records = transcript_records(transcript).unwrap();
    assert_eq!(records.len(), 2);
    for r in &records {
        match &r.message {
            niu_code::server::model::CacheMessage::CliData(m) => assert_eq!(m.session_id, "S"),
            other => panic!("unexpected {:?}", other),
        }
    }

    let options: ClaudeCodeOptions<u8, ()> = session_options(&start, 0);
    let prompt: Prompt<()> = Prompt::Stream(());
    let args = build_cli_args(&prompt, &options).unwrap();
    assert!(args.windows(2).any(|w| w[0] == "--resume" && w[1] == "S"));
    assert!(args.windows(2).any(|w| w[0] == "--permission-prompt-tool" && w[1] == "stdio"));

    let cli = manager
        .attach_session("chat", "/w".to_string(), Some("S".to_string()), records.clone(), 10)
        .unwrap()
        .unwrap();
    let infos = manager.handle_get_active_sessions("/w");
    assert_eq!(infos.len(), 1);
    assert_eq!(infos[0].session_id, "S");
    assert_eq!(infos[0].message_count, 2);
    assert_eq!(manager.plan_start_chat(&start), StartPlan::ResumeActive(cli));
    let resumed = manager.resume_active("chat", cli, None).unwrap();
    assert_eq!(resumed.messages, records);
    assert!(resumed.actions.is_empty());
}
