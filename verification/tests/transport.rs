use niu_code::cli::control::{
    callback_frame, error_frame, handle_ctrl_req, success_frame, CanUseToolRequest,
    ClaudeWriterMessage, ControlDecision, ControlHandler, ControlRequstMessage,
    ControlRequstMessageWrapper, HookCallbackRequest, McpMessageRequest,
};
use niu_code::cli::info::{parse_sys_info, ClaudeSysInfo, ModelInfo, SlashCommand};
use niu_code::cli::query::{
    control_request_frame, initialize_frame, QueryCommand, QueryError,
    QueryStream,
};
use niu_code::cli::reader::{handle_claude_msg, route, ReaderStep, Route};
use niu_code::cli::stop::{reader_handle_stop, ClaudeStreamError, StopNotify, StopReason};
use niu_code::cli::writer::{frame_line, handle_msg, handle_prompt, write_failed, WriterStep};
use niu_code::server::claude::build_prompt;
use niu_code::types::message::SDKMessageTyped;
use niu_code::types::options::PermissionMode;
use niu_code::types::tool_input::{BashInput, ToolUseParams};
use serde_json::Value;
use std::sync::Arc;

fn json(text: &str) -> Value {
    serde_json::from_str(text).unwrap()
}

fn line(text: &str) -> Option<Result<String, String>> {
    Some(Ok(text.to_string()))
}

#[test]
fn a_result_message_is_delivered_as_it_came() {
    let text = r#"{"type":"result","subtype":"success","session_id":"S","result":"4","is_error":false}"#;
    match handle_claude_msg(line(text)) {
        ReaderStep::Output(m) => {
            assert_eq!(m.session_id, "S");
            assert_eq!(m.typed, SDKMessageTyped::Result);
            assert_eq!(m.body, json(text));
        }
        other => panic!("unexpected {:?}", other),
    }
    let end = handle_claude_msg(None);
    assert_eq!(end, ReaderStep::Finished);
    assert_eq!(end.stop_reason(), Some(StopReason::NoMoreClaudeMsg));
    assert!(end.is_break());
}

#[test]
fn frames_are_routed_by_their_type() {
    assert_eq!(route("control_response"), Route::ControlResponse);
    assert_eq!(route("control_request"), Route::ControlRequest);
    assert_eq!(route("control_cancel_request"), Route::ControlCancel);
    assert_eq!(route("assistant"), Route::Data);
    let resp = r#"{"type":"control_response","response":{"request_id":"r1","subtype":"success"}}"#;
    assert_eq!(handle_claude_msg(line(resp)), ReaderStep::ControlResponse(json(resp)));
    let req = r#"{"type":"control_request","request_id":"q","request":{"subtype":"can_use_tool"}}"#;
    assert_eq!(handle_claude_msg(line(req)), ReaderStep::ControlRequest(json(req)));
    let cancel = r#"{"type":"control_cancel_request","request_id":"q"}"#;
    let step = handle_claude_msg(line(cancel));
    assert_eq!(step, ReaderStep::Ignored);
    assert!(!step.is_break());
    assert_eq!(step.stop_reason(), None);
    assert_eq!(step.into_item(), None);
}

#[test]
fn every_kind_of_data_message_is_decoded() {
    for (name, kind) in [
        ("assistant", SDKMessageTyped::Assistant),
        ("user", SDKMessageTyped::User),
        ("result", SDKMessageTyped::Result),
        ("system", SDKMessageTyped::System),
        ("stream_event", SDKMessageTyped::StreamEvent),
    ] {
        let text = format!(r#"{{"type":"{}","session_id":"S"}}"#, name);
        match handle_claude_msg(line(&text)) {
            ReaderStep::Output(m) => assert_eq!(m.typed, kind),
            other => panic!("unexpected {:?}", other),
        }
    }
}

#[test]
fn lines_that_are_no_frames_stop_the_transport() {
    let step = handle_claude_msg(line("not json"));
    assert!(matches!(step, ReaderStep::Invalid(_)));
    assert_eq!(step.stop_reason(), Some(StopReason::InvalidClaudeOutput));
    assert!(step.is_break());
    let step = handle_claude_msg(line(r#"{"no_type":1}"#));
    assert!(matches!(step, ReaderStep::Invalid(_)));
    let step = handle_claude_msg(line(r#"{"type":7}"#));
    assert!(matches!(step, ReaderStep::Invalid(_)));
    let step = handle_claude_msg(line(r#"[1,2]"#));
    assert!(matches!(step, ReaderStep::Invalid(_)));
}

#[test]
fn undecodable_data_is_reported_and_stops_the_transport() {
    let step = handle_claude_msg(line(r#"{"type":"mystery","session_id":"S"}"#));
    assert!(matches!(step, ReaderStep::Undecodable(_)));
    assert_eq!(step.stop_reason(), Some(StopReason::ParseClaudeSDKMessage));
    assert!(step.is_break());
    assert!(matches!(step.into_item(), Some(Err(ClaudeStreamError::CannotDeserialize(_)))));
    let step = handle_claude_msg(line(r#"{"type":"assistant"}"#));
    assert!(matches!(step, ReaderStep::Undecodable(_)));
    let step = handle_claude_msg(Some(Err("broken pipe".to_string())));
    assert_eq!(step, ReaderStep::ReadFailed("broken pipe".to_string()));
    assert_eq!(step.stop_reason(), None);
    assert!(step.is_break());
}

#[test]
fn the_reader_reports_only_write_and_control_failures_on_stop() {
    assert_eq!(reader_handle_stop(StopReason::User), None);
    assert_eq!(reader_handle_stop(StopReason::OutStreamDropped), None);
    assert_eq!(
        reader_handle_stop(StopReason::CannotWriteToClaude("w".to_string())),
        Some(ClaudeStreamError::CannotWriteToClaude("w".to_string()))
    );
    assert_eq!(
        reader_handle_stop(StopReason::ParseClaudeControlRequest("p".to_string())),
        Some(ClaudeStreamError::CannotDeserialize("p".to_string()))
    );
    assert_eq!(ClaudeStreamError::CannotDeserialize("p".to_string()).message(), "p");
}

#[test]
fn the_stop_signal_stays_set_and_the_last_reason_wins() {
    let mut s = StopNotify::new();
    assert!(!s.is_stopped());
    s.stream_dropped();
    assert_eq!(s.reason, Some(StopReason::OutStreamDropped));
    s.notify(StopReason::User);
    assert!(s.is_stopped());
    assert_eq!(s.reason, Some(StopReason::User));
    s.notify(StopReason::NoMoreClaudeMsg);
    assert_eq!(s.reason, Some(StopReason::NoMoreClaudeMsg));
    s.stream_dropped();
    assert_eq!(s.reason, Some(StopReason::NoMoreClaudeMsg));
}

#[test]
fn control_requests_have_the_wire_shape() {
    assert_eq!(
        control_request_frame("r1", &QueryCommand::Interrupt {}),
        json(r#"{"request_id":"r1","type":"control_request","request":{"subtype":"interrupt"}}"#)
    );
    assert_eq!(
        control_request_frame("r2", &QueryCommand::SetPermissionMode { mode: PermissionMode::AcceptEdits }),
        json(r#"{"request_id":"r2","type":"control_request","request":{"subtype":"set_permission_mode","mode":"acceptEdits"}}"#)
    );
    assert_eq!(
        control_request_frame("r3", &QueryCommand::SetModel { model: "opus".to_string() }),
        json(r#"{"request_id":"r3","type":"control_request","request":{"subtype":"set_model","model":"opus"}}"#)
    );
    assert_eq!(
        initialize_frame("r4"),
        json(r#"{"request_id":"r4","type":"control_request","request":{"subtype":"initialize"}}"#)
    );
    assert_eq!(QueryCommand::Interrupt {}.name(), "interrupt");
    assert_eq!(QueryCommand::SetModel { model: String::new() }.name(), "set_model");
    assert_eq!(
        QueryCommand::SetPermissionMode { mode: PermissionMode::Plan }.name(),
        "set_permission_mode"
    );
}

#[test]
fn requests_need_a_stream_that_takes_input() {
    let oneshot = QueryStream { has_writer: false, claude_sys_info: None, session_id: None };
    assert_eq!(
        oneshot.interrupt(),
        Err(QueryError::RequiresStreaming("interrupt".to_string()))
    );
    assert_eq!(
        oneshot.set_model("m".to_string()),
        Err(QueryError::RequiresStreaming("set_model".to_string()))
    );
    assert_eq!(oneshot.supported_commands(), Err(QueryError::NoSysInfo));
    assert_eq!(oneshot.supported_models(), Err(QueryError::NoSysInfo));
    assert_eq!(oneshot.session_id(), None);
    let info = ClaudeSysInfo {
        supported_commands: vec![SlashCommand {
            name: "help".to_string(),
            description: "d".to_string(),
            argument_hint: "".to_string(),
        }],
        models: vec![ModelInfo {
            value: "opus".to_string(),
            display_name: "Opus".to_string(),
            description: "big".to_string(),
        }],
    };
    let stream = QueryStream {
        has_writer: true,
        claude_sys_info: Some(info.clone()),
        session_id: Some("S".to_string()),
    };
    let frame = stream.set_permission_mode(PermissionMode::Plan).unwrap();
    assert_eq!(frame["type"], json(r#""control_request""#));
    assert_eq!(frame["request"], json(r#"{"subtype":"set_permission_mode","mode":"plan"}"#));
    assert_eq!(frame["request_id"].as_str().unwrap().chars().count(), 21);
    let again = stream.interrupt().unwrap();
    assert_ne!(frame["request_id"], again["request_id"]);
    assert_eq!(stream.supported_commands().unwrap(), info.supported_commands);
    assert_eq!(stream.supported_models().unwrap(), info.models);
    assert_eq!(stream.session_id(), Some("S"));
}

#[test]
fn the_answer_to_initialize_lists_commands_and_models() {
    let answer = json(
        r#"{"subtype":"success","request_id":"r","response":{
            "commands":[{"name":"help","description":"shows help","argumentHint":"[topic]","extra":1}],
            "models":[{"value":"opus","displayName":"Opus","description":"big"}]}}"#,
    );
    let info = parse_sys_info(&answer).unwrap();
    assert_eq!(
        info,
        ClaudeSysInfo {
            supported_commands: vec![SlashCommand {
                name: "help".to_string(),
                description: "shows help".to_string(),
                argument_hint: "[topic]".to_string(),
            }],
            models: vec![ModelInfo {
                value: "opus".to_string(),
                display_name: "Opus".to_string(),
                description: "big".to_string(),
            }],
        }
    );
    assert!(parse_sys_info(&json(r#"{"response":{"commands":[]}}"#)).is_err());
    assert!(parse_sys_info(&json(r#"{"response":{"commands":[{"name":"x"}],"models":[]}}"#)).is_err());
    assert!(parse_sys_info(&json(r#"{"commands":[],"models":[]}"#)).is_err());
    assert_eq!(
        parse_sys_info(&json(r#"{"response":{"commands":[],"models":[]}}"#)).unwrap(),
        ClaudeSysInfo { supported_commands: vec![], models: vec![] }
    );
}

#[test]
fn permission_allow_is_answered_with_success() {
    let result = json(r#"{"behavior":"allow","updatedInput":{"command":"ls"}}"#);
    assert_eq!(
        callback_frame("req-1", Ok(result)),
        json(
            r#"{"type":"control_response","response":{"subtype":"success","request_id":"req-1",
                "response":{"behavior":"allow","updatedInput":{"command":"ls"}}}}"#
        )
    );
}

#[test]
fn permission_deny_is_answered_with_success_too() {
    let result = json(r#"{"behavior":"deny","message":"no"}"#);
    assert_eq!(
        success_frame("req-2", result),
        json(
            r#"{"type":"control_response","response":{"subtype":"success","request_id":"req-2",
                "response":{"behavior":"deny","message":"no"}}}"#
        )
    );
}

#[test]
fn a_failed_callback_is_answered_with_an_error() {
    assert_eq!(
        callback_frame("req-3", Err("There's no answer".to_string())),
        json(
            r#"{"type":"control_response","response":{"subtype":"error","request_id":"req-3",
                "error":"There's no answer"}}"#
        )
    );
    assert_eq!(error_frame("x", "y"), callback_frame("x", Err("y".to_string())));
}

fn bash_request(id: &str) -> ControlRequstMessageWrapper {
    ControlRequstMessageWrapper {
        request_id: id.to_string(),
        request: ControlRequstMessage::CanUseTool(CanUseToolRequest {
            tool_use: ToolUseParams::Bash {
                input: BashInput {
                    command: "ls".to_string(),
                    timeout: None,
                    description: None,
                    run_in_background: None,
                },
            },
            permission_suggestions: None,
        }),
    }
}

#[test]
fn a_permission_question_goes_to_the_callback() {
    let decision = handle_ctrl_req(Ok(bash_request("q1")), true);
    match decision {
        ControlDecision::Ask { request_id, tool_use, suggestions } => {
            assert_eq!(request_id, "q1");
            assert_eq!(tool_use.tool_name(), "Bash");
            assert_eq!(suggestions, None);
        }
        other => panic!("unexpected {:?}", other),
    }
}

#[test]
fn requests_that_cannot_be_served_are_answered_with_an_error() {
    assert_eq!(
        handle_ctrl_req(Ok(bash_request("q1")), false),
        ControlDecision::Reply(error_frame("q1", "canUseTool callback is not provided."))
    );
    let hook = ControlRequstMessageWrapper {
        request_id: "q2".to_string(),
        request: ControlRequstMessage::HookCallback(HookCallbackRequest {
            callback_id: "c".to_string(),
            input: Value::Null,
            tool_use_id: "t".to_string(),
        }),
    };
    assert_eq!(
        handle_ctrl_req(Ok(hook), true),
        ControlDecision::Reply(error_frame("q2", "unsupported HookCallback"))
    );
    let mcp = ControlRequstMessageWrapper {
        request_id: "q3".to_string(),
        request: ControlRequstMessage::McpMessage(McpMessageRequest {
            server_name: "s".to_string(),
            message: Value::Null,
        }),
    };
    assert_eq!(
        handle_ctrl_req(Ok(mcp), true),
        ControlDecision::Reply(error_frame("q3", "unsupported McpMessage"))
    );
    assert_eq!(
        handle_ctrl_req(Err("bad".to_string()), true),
        ControlDecision::Stop(StopReason::ParseClaudeControlRequest("bad".to_string()))
    );
}

#[test]
fn answers_find_the_request_that_waits_for_them() {
    let mut handler: ControlHandler<u32> = ControlHandler::new();
    assert_eq!(handler.register_resp_chan("a".to_string(), 1), None);
    assert_eq!(handler.register_resp_chan("b".to_string(), 2), None);
    let answer = json(r#"{"type":"control_response","response":{"request_id":"b","subtype":"success","response":{"x":1}}}"#);
    let reply = handler.handle_ctrl_resp(&answer).unwrap();
    assert_eq!(reply.chan, 2);
    assert_eq!(reply.response, json(r#"{"request_id":"b","subtype":"success","response":{"x":1}}"#));
    assert!(handler.handle_ctrl_resp(&answer).is_none());
    let first = json(r#"{"type":"control_response","response":{"request_id":"a"}}"#);
    assert_eq!(handler.handle_ctrl_resp(&first).unwrap().chan, 1);
}

#[test]
fn an_answer_to_an_unknown_request_changes_nothing() {
    let mut handler: ControlHandler<u32> = ControlHandler::new();
    handler.register_resp_chan("a".to_string(), 1);
    for text in [
        r#"{"type":"control_response","response":{"request_id":"zzz"}}"#,
        r#"{"type":"control_response","response":{"request_id":7}}"#,
        r#"{"type":"control_response","response":"a"}"#,
        r#"{"type":"control_response"}"#,
    ] {
        assert!(handler.handle_ctrl_resp(&json(text)).is_none());
    }
    let known = json(r#"{"response":{"request_id":"a"}}"#);
    assert_eq!(handler.handle_ctrl_resp(&known).unwrap().chan, 1);
}

#[test]
fn a_second_registration_displaces_the_first_and_stop_drops_all() {
    let mut handler: ControlHandler<u32> = ControlHandler::new();
    handler.register_resp_chan("a".to_string(), 1);
    assert_eq!(handler.register_resp_chan("a".to_string(), 2), Some(1));
    handler.register_resp_chan("b".to_string(), 3);
    let mut dropped = handler.cancel_all();
    dropped.sort();
    assert_eq!(dropped, vec![2, 3]);
    assert!(handler.cancel_all().is_empty());
    assert!(handler.handle_ctrl_resp(&json(r#"{"response":{"request_id":"a"}}"#)).is_none());
}

#[test]
fn frames_go_out_one_on_each_line() {
    let v = json(r#"{"b":1,"a":"x"}"#);
    assert_eq!(frame_line(&v).unwrap(), format!("{}\n", serde_json::to_string(&v).unwrap()));
    assert_eq!(
        handle_msg(ClaudeWriterMessage::Write(v.clone())),
        WriterStep::Write(format!("{}\n", serde_json::to_string(&v).unwrap()))
    );
    assert_eq!(handle_prompt(None), WriterStep::Finished);
    match handle_prompt(Some(build_prompt(Arc::new("Hello".to_string())))) {
        WriterStep::Write(l) => {
            assert!(l.ends_with('\n'));
            assert_eq!(
                json(&l),
                json(r#"{"type":"user","session_id":"","uuid":null,"parent_tool_use_id":null,"message":{"role":"user","content":"Hello"}}"#)
            );
        }
        other => panic!("unexpected {:?}", other),
    }
    assert_eq!(write_failed("e".to_string()), StopReason::CannotWriteToClaude("e".to_string()));
}
