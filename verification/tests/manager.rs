use niu_code::server::chat::{
    ChatManager, CliId, ClientStep, ConnId, ManagerAction, SessionCommand, StartChatError,
    StartChatOptions, StartPlan,
};
use niu_code::server::hub::{ChatHub, ChatManagerMessage, ManagerReply, WriterClosed, WsWriter};
use niu_code::server::message::{
    ClientMessage, ClientMessageData, ServerError, ServerMessage, ServerMessageData, UserInput,
};
use niu_code::server::model::{CacheMessage, MessageRecord};
use niu_code::types::can_use_tool::{PermissionDeny, PermissionResult};
use niu_code::types::message::{SDKMessage, SDKMessageTyped};
use niu_code::types::options::PermissionMode;
use std::cell::RefCell;
use std::rc::Rc;
use std::sync::Arc;

fn data(session: &str, text: &str) -> ServerMessageData {
    ServerMessageData::Claude(Arc::new(SDKMessage {
        session_id: session.to_string(),
        typed: SDKMessageTyped::Assistant,
        body: serde_json::Value::String(text.to_string()),
    }))
}

fn client(chat: &str, data: ClientMessageData) -> ClientMessage {
    ClientMessage { chat_id: chat.to_string(), data }
}

fn started(manager: &mut ChatManager, conn: u32, chat: &str, dir: &str) -> CliId {
    manager.new_connect(ConnId(conn));
    manager.regiter_chat(ConnId(conn), chat.to_string());
    manager
        .attach_session(chat, dir.to_string(), None, Vec::new(), 1_000)
        .unwrap()
        .unwrap()
}

#[test]
fn start_chat_needs_a_registered_chat() {
    let mut manager = ChatManager::new();
    let options = StartChatOptions {
        chat_id: "c1".to_string(),
        work_dir: "/w".to_string(),
        mode: None,
        config_name: None,
        resume: None,
    };
    assert_eq!(
        manager.plan_start_chat(&options),
        StartPlan::Rejected(StartChatError::ChatNotRegistered)
    );
    assert_eq!(
        manager.attach_session("c1", "/w".to_string(), None, Vec::new(), 0).unwrap(),
        Err(StartChatError::ChatNotRegistered)
    );
    manager.new_connect(ConnId(1));
    manager.regiter_chat(ConnId(1), "c1".to_string());
    assert_eq!(manager.plan_start_chat(&options), StartPlan::Spawn);
}

#[test]
fn registration_on_unknown_connection_is_dropped() {
    let mut manager = ChatManager::new();
    let replay = manager.regiter_chat(ConnId(9), "c1".to_string());
    assert_eq!(replay.cli, None);
    assert!(replay.messages.is_empty());
    let options = StartChatOptions {
        chat_id: "c1".to_string(),
        work_dir: "/w".to_string(),
        mode: None,
        config_name: None,
        resume: None,
    };
    assert_eq!(
        manager.plan_start_chat(&options),
        StartPlan::Rejected(StartChatError::ChatNotRegistered)
    );
}

#[test]
fn live_message_goes_to_the_subscriber_unchanged() {
    let mut manager = ChatManager::new();
    let cli = started(&mut manager, 1, "c1", "/w");
    let m = data("S", "hello");
    let delivery = manager.handle_cli_message(cli, m.clone(), 2_000).unwrap();
    assert_eq!(delivery.conn, ConnId(1));
    assert_eq!(delivery.msg, ServerMessage { chat_id: "c1".to_string(), data: m });
}

#[test]
fn first_data_message_names_the_session() {
    let mut manager = ChatManager::new();
    let cli = started(&mut manager, 1, "c1", "/w");
    assert!(manager.handle_get_active_sessions("/w").is_empty());
    manager.handle_cli_message(cli, data("S", "one"), 2_000);
    manager.handle_cli_message(cli, data("T", "two"), 3_000);
    let infos = manager.handle_get_active_sessions("/w");
    assert_eq!(infos.len(), 1);
    assert_eq!(infos[0].session_id, "S");
    assert_eq!(infos[0].work_dir, "/w");
    assert_eq!(infos[0].created_at, 1_000);
    assert_eq!(infos[0].last_activity, 3_000);
    assert_eq!(infos[0].message_count, 2);
    assert_eq!(infos[0].last_user_input, None);
    assert!(manager.handle_get_active_sessions("/other").is_empty());
}

#[test]
fn a_name_in_use_is_not_given_twice() {
    let mut manager = ChatManager::new();
    let a = started(&mut manager, 1, "c1", "/w");
    manager.regiter_chat(ConnId(1), "c2".to_string());
    let b = manager.attach_session("c2", "/w".to_string(), None, Vec::new(), 1_000).unwrap().unwrap();
    assert_ne!(a, b);
    manager.handle_cli_message(a, data("S", "one"), 2_000);
    manager.handle_cli_message(b, data("S", "two"), 2_000);
    let infos = manager.handle_get_active_sessions("/w");
    assert_eq!(infos.len(), 1);
    assert_eq!(infos[0].session_id, "S");
    assert_eq!(infos[0].message_count, 1);
}

#[test]
fn user_input_is_cached_and_forwarded() {
    let mut manager = ChatManager::new();
    let cli = started(&mut manager, 1, "c1", "/w");
    manager.handle_cli_message(cli, data("S", "hi"), 1_500);
    let text = Arc::new("Hello".to_string());
    let step = manager.handle_client_msg(
        ConnId(1),
        client("c1", ClientMessageData::UserInput(UserInput { content: text.clone() })),
        2_000,
    );
    match step {
        ClientStep::Done(actions) => assert_eq!(
            actions,
            vec![ManagerAction::Forward { cli_id: cli, command: SessionCommand::UserInput(text.clone()) }]
        ),
        ClientStep::Registered(_) => panic!("not a registration"),
    }
    let infos = manager.handle_get_active_sessions("/w");
    assert_eq!(infos[0].message_count, 2);
    assert_eq!(infos[0].last_user_input, Some(text));
    assert_eq!(infos[0].last_activity, 2_000);
}

#[test]
fn input_without_session_is_answered_with_an_error() {
    let mut manager = ChatManager::new();
    manager.new_connect(ConnId(1));
    manager.regiter_chat(ConnId(1), "c1".to_string());
    let step = manager.handle_client_msg(ConnId(1), client("c1", ClientMessageData::GetInfo), 0);
    match step {
        ClientStep::Done(actions) => {
            assert_eq!(actions.len(), 1);
            match &actions[0] {
                ManagerAction::Send { conn, msg } => {
                    assert_eq!(*conn, ConnId(1));
                    assert_eq!(msg.chat_id, "c1");
                    assert!(matches!(msg.data, ServerMessageData::ServerError(ServerError { .. })));
                }
                other => panic!("unexpected {:?}", other),
            }
        }
        ClientStep::Registered(_) => panic!("not a registration"),
    }
    let step = manager.handle_client_msg(ConnId(1), client("nobody", ClientMessageData::Interrupt), 0);
    assert!(matches!(step, ClientStep::Done(a) if a.is_empty()));
}

#[test]
fn mode_interrupt_and_permission_answers_are_forwarded() {
    let mut manager = ChatManager::new();
    let cli = started(&mut manager, 1, "c1", "/w");
    let step = manager.handle_client_msg(
        ConnId(1),
        client("c1", ClientMessageData::SetMode { mode: PermissionMode::Plan }),
        0,
    );
    assert!(matches!(step, ClientStep::Done(a)
        if a == vec![ManagerAction::Forward { cli_id: cli, command: SessionCommand::SetMode(PermissionMode::Plan) }]));
    let step = manager.handle_client_msg(ConnId(1), client("c1", ClientMessageData::Interrupt), 0);
    assert!(matches!(step, ClientStep::Done(a)
        if a == vec![ManagerAction::Forward { cli_id: cli, command: SessionCommand::Interrupt }]));
    let answer = Arc::new(PermissionResult::Deny(PermissionDeny { message: "no".to_string(), interrupt: None }));
    let step = manager.handle_client_msg(
        ConnId(1),
        client("c1", ClientMessageData::PermissionResp(answer.clone())),
        5,
    );
    assert!(matches!(step, ClientStep::Done(a)
        if a == vec![ManagerAction::Forward { cli_id: cli, command: SessionCommand::PermissionResp(answer.clone()) }]));
    assert_eq!(manager.handle_get_active_sessions("/w").len(), 0);
}

#[test]
fn stop_is_idempotent() {
    let mut manager = ChatManager::new();
    let cli = started(&mut manager, 1, "c1", "/w");
    let first = manager.stop_cli(cli);
    assert_eq!(
        first,
        vec![
            ManagerAction::Forward { cli_id: cli, command: SessionCommand::Stop },
            ManagerAction::Send {
                conn: ConnId(1),
                msg: ServerMessage { chat_id: "c1".to_string(), data: ServerMessageData::ChatRemoved },
            },
        ]
    );
    assert!(manager.stop_cli(cli).is_empty());
    let step = manager.handle_client_msg(ConnId(1), client("c1", ClientMessageData::StopSession), 0);
    assert!(matches!(step, ClientStep::Done(a) if a.is_empty()));
    assert!(manager.handle_cli_message(cli, data("S", "late"), 0).is_none());
}

#[test]
fn closed_connection_leaves_session_running_and_lagging() {
    let mut manager = ChatManager::new();
    let cli = started(&mut manager, 1, "c1", "/w");
    manager.handle_cli_message(cli, data("S", "m0"), 1_100);
    manager.connection_closed(ConnId(1));
    assert!(!manager.has_connection(ConnId(1)));
    assert!(manager.handle_cli_message(cli, data("S", "m1"), 1_200).is_none());
    let step = manager.handle_client_msg(
        ConnId(7),
        client("c1", ClientMessageData::UserInput(UserInput { content: Arc::new("typed".to_string()) })),
        1_250,
    );
    assert!(matches!(step, ClientStep::Done(_)));
    assert!(manager.handle_cli_message(cli, data("S", "m2"), 1_300).is_none());
    assert_eq!(manager.handle_get_active_sessions("/w")[0].message_count, 4);

    manager.new_connect(ConnId(2));
    let replay = manager.regiter_chat(ConnId(2), "c1".to_string());
    assert_eq!(replay.cli, Some(cli));
    assert_eq!(replay.conn, ConnId(2));
    assert_eq!(
        replay.messages,
        vec![
            ServerMessage { chat_id: "c1".to_string(), data: data("S", "m2") },
        ]
    );
    manager.replay_settled(cli, 1);
    let delivery = manager.handle_cli_message(cli, data("S", "m3"), 1_400).unwrap();
    assert_eq!(delivery.conn, ConnId(2));
    let again = manager.regiter_chat(ConnId(2), "c1".to_string());
    assert!(again.messages.is_empty());
}

#[test]
fn replay_skips_what_the_client_sent_and_keeps_order() {
    let mut manager = ChatManager::new();
    let cli = started(&mut manager, 1, "c1", "/w");
    manager.connection_closed(ConnId(1));
    manager.handle_cli_message(cli, data("S", "a"), 1);
    manager.handle_cli_message(cli, data("S", "b"), 2);
    manager.handle_cli_message(cli, data("S", "c"), 3);
    manager.new_connect(ConnId(2));
    let replay = manager.regiter_chat(ConnId(2), "c1".to_string());
    let texts: Vec<ServerMessageData> = replay.messages.into_iter().map(|m| m.data).collect();
    assert_eq!(texts, vec![data("S", "a"), data("S", "b"), data("S", "c")]);
    manager.replay_settled(cli, 1);
    let replay = manager.regiter_chat(ConnId(2), "c1".to_string());
    let texts: Vec<ServerMessageData> = replay.messages.into_iter().map(|m| m.data).collect();
    assert_eq!(texts, vec![data("S", "b"), data("S", "c")]);
    manager.replay_settled(cli, 2);
    assert!(manager.regiter_chat(ConnId(2), "c1".to_string()).messages.is_empty());
}

#[test]
fn errors_and_removal_notices_are_not_cached() {
    let mut manager = ChatManager::new();
    let cli = started(&mut manager, 1, "c1", "/w");
    manager.handle_cli_message(cli, data("S", "a"), 1);
    let d = manager
        .handle_cli_message(
            cli,
            ServerMessageData::ServerError(ServerError { error: "broken".to_string() }),
            2,
        )
        .unwrap();
    assert_eq!(d.msg.data, ServerMessageData::ServerError(ServerError { error: "broken".to_string() }));
    manager.handle_cli_message(cli, ServerMessageData::ChatRemoved, 3);
    assert_eq!(manager.handle_get_active_sessions("/w")[0].message_count, 1);
}

#[test]
fn idle_sessions_are_stopped_and_their_chat_is_told() {
    let mut manager = ChatManager::with_idle_ttl(600_000);
    let old = started(&mut manager, 1, "c1", "/w");
    manager.regiter_chat(ConnId(1), "c2".to_string());
    let fresh = manager.attach_session("c2", "/w".to_string(), None, Vec::new(), 500_000).unwrap().unwrap();
    manager.handle_cli_message(old, data("S1", "a"), 1_000);
    manager.handle_cli_message(fresh, data("S2", "b"), 500_000);
    assert!(manager.cleanup_inactive_sessions(601_000).is_empty());
    let actions = manager.cleanup_inactive_sessions(601_001);
    assert_eq!(
        actions,
        vec![
            ManagerAction::Forward { cli_id: old, command: SessionCommand::Stop },
            ManagerAction::Send {
                conn: ConnId(1),
                msg: ServerMessage { chat_id: "c1".to_string(), data: ServerMessageData::ChatRemoved },
            },
        ]
    );
    let infos = manager.handle_get_active_sessions("/w");
    assert_eq!(infos.len(), 1);
    assert_eq!(infos[0].session_id, "S2");
}

#[test]
fn resume_of_active_session_swaps_subscribers() {
    let mut manager = ChatManager::new();
    let cli = started(&mut manager, 1, "c1", "/w");
    manager.handle_cli_message(cli, data("S", "a"), 1);
    manager.handle_cli_message(cli, data("S", "b"), 2);
    manager.new_connect(ConnId(2));
    manager.regiter_chat(ConnId(2), "c2".to_string());
    let options = StartChatOptions {
        chat_id: "c2".to_string(),
        work_dir: "/w".to_string(),
        mode: Some(PermissionMode::AcceptEdits),
        config_name: None,
        resume: Some("S".to_string()),
    };
    assert_eq!(manager.plan_start_chat(&options), StartPlan::ResumeActive(cli));
    let resumed = manager.resume_active("c2", cli, options.mode).unwrap();
    assert_eq!(
        resumed.messages,
        vec![
            MessageRecord { timestamp: 1, message: CacheMessage::CliData(match data("S", "a") {
                ServerMessageData::Claude(m) => m,
                _ => unreachable!(),
            }) },
            MessageRecord { timestamp: 2, message: CacheMessage::CliData(match data("S", "b") {
                ServerMessageData::Claude(m) => m,
                _ => unreachable!(),
            }) },
        ]
    );
    assert_eq!(
        resumed.actions,
        vec![
            ManagerAction::Send {
                conn: ConnId(1),
                msg: ServerMessage { chat_id: "c1".to_string(), data: ServerMessageData::ChatRemoved },
            },
            ManagerAction::Forward { cli_id: cli, command: SessionCommand::SetMode(PermissionMode::AcceptEdits) },
        ]
    );
    let delivery = manager.handle_cli_message(cli, data("S", "c"), 3).unwrap();
    assert_eq!(delivery.conn, ConnId(2));
    assert_eq!(delivery.msg.chat_id, "c2");
    assert_eq!(manager.handle_get_active_sessions("/w").len(), 1);
    options_unknown_session_needs_transcript(&manager);
}

fn options_unknown_session_needs_transcript(manager: &ChatManager) {
    let options = StartChatOptions {
        chat_id: "c2".to_string(),
        work_dir: "/w".to_string(),
        mode: None,
        config_name: None,
        resume: Some("gone".to_string()),
    };
    assert_eq!(manager.plan_start_chat(&options), StartPlan::LoadTranscript);
}

#[test]
fn resume_from_disk_seeds_the_cache() {
    let mut manager = ChatManager::new();
    manager.new_connect(ConnId(1));
    manager.regiter_chat(ConnId(1), "c1".to_string());
    let seed = vec![MessageRecord {
        timestamp: 42,
        message: CacheMessage::CliData(Arc::new(SDKMessage {
            session_id: "S".to_string(),
            typed: SDKMessageTyped::User,
            body: serde_json::Value::Null,
        })),
    }];
    let cli = manager
        .attach_session("c1", "/w".to_string(), Some("S".to_string()), seed, 100)
        .unwrap()
        .unwrap();
    let infos = manager.handle_get_active_sessions("/w");
    assert_eq!(infos.len(), 1);
    assert_eq!(infos[0].session_id, "S");
    assert_eq!(infos[0].message_count, 1);
    let options = StartChatOptions {
        chat_id: "c1".to_string(),
        work_dir: "/w".to_string(),
        mode: None,
        config_name: None,
        resume: Some("S".to_string()),
    };
    assert_eq!(manager.plan_start_chat(&options), StartPlan::ResumeActive(cli));
}

#[test]
fn unreachable_session_is_reported_and_stopped() {
    let mut manager = ChatManager::new();
    let cli = started(&mut manager, 1, "c1", "/w");
    let actions = manager.session_unreachable(cli);
    assert_eq!(
        actions,
        vec![
            ManagerAction::Send {
                conn: ConnId(1),
                msg: ServerMessage {
                    chat_id: "c1".to_string(),
                    data: ServerMessageData::ServerError(ServerError { error: "Session closed".to_string() }),
                },
            },
            ManagerAction::Forward { cli_id: cli, command: SessionCommand::Stop },
            ManagerAction::Send {
                conn: ConnId(1),
                msg: ServerMessage { chat_id: "c1".to_string(), data: ServerMessageData::ChatRemoved },
            },
        ]
    );
}

#[test]
fn conn_ids_count_up_and_wrap() {
    let mut counter = 0u32;
    assert_eq!(ConnId::generate(&mut counter), ConnId(0));
    assert_eq!(ConnId::generate(&mut counter), ConnId(1));
    let mut last = u32::MAX;
    assert_eq!(CliId::next(&mut last), CliId(u32::MAX));
    assert_eq!(last, 0);
}

#[derive(Clone)]
struct Recorder {
    sent: Rc<RefCell<Vec<ServerMessage>>>,
    open: Rc<RefCell<bool>>,
}

impl Recorder {
    fn new() -> Self {
        Recorder { sent: Rc::new(RefCell::new(Vec::new())), open: Rc::new(RefCell::new(true)) }
    }
}

impl WsWriter for Recorder {
    fn send_msg(&self, msg: ServerMessage) -> Result<(), WriterClosed> {
        if *self.open.borrow() {
            self.sent.borrow_mut().push(msg);
            Ok(())
        } else {
            Err(WriterClosed)
        }
    }
}

#[test]
fn hub_sends_live_messages_and_counts_failures_as_lag() {
    let mut hub: ChatHub<Recorder> = ChatHub::new();
    let w1 = Recorder::new();
    hub.handle_msg(ChatManagerMessage::NewConnect { conn_id: ConnId(1), ws_writer: w1.clone() }, 0);
    let reply = hub.handle_msg(
        ChatManagerMessage::ClientMessage { conn_id: ConnId(1), msg: client("c1", ClientMessageData::RegisterChat) },
        0,
    );
    assert!(matches!(reply, ManagerReply::Replayed(0)));
    let cli = hub.attach_session("c1", "/w".to_string(), None, Vec::new(), 0).unwrap().unwrap();
    let reply = hub.handle_msg(ChatManagerMessage::CliMessage { cli_id: cli, data: data("S", "m0") }, 1);
    assert!(matches!(reply, ManagerReply::Delivered(true)));
    assert_eq!(*w1.sent.borrow(), vec![ServerMessage { chat_id: "c1".to_string(), data: data("S", "m0") }]);

    *w1.open.borrow_mut() = false;
    let reply = hub.handle_msg(ChatManagerMessage::CliMessage { cli_id: cli, data: data("S", "m1") }, 2);
    assert!(matches!(reply, ManagerReply::Delivered(false)));
    hub.handle_msg(ChatManagerMessage::ConnectionClosed { conn_id: ConnId(1) }, 3);
    hub.handle_msg(ChatManagerMessage::CliMessage { cli_id: cli, data: data("S", "m2") }, 4);
    assert_eq!(hub.manager().handle_get_active_sessions("/w")[0].message_count, 3);

    let w2 = Recorder::new();
    hub.handle_msg(ChatManagerMessage::NewConnect { conn_id: ConnId(2), ws_writer: w2.clone() }, 5);
    let reply = hub.handle_msg(
        ChatManagerMessage::ClientMessage { conn_id: ConnId(2), msg: client("c1", ClientMessageData::RegisterChat) },
        5,
    );
    assert!(matches!(reply, ManagerReply::Replayed(2)));
    assert_eq!(
        *w2.sent.borrow(),
        vec![
            ServerMessage { chat_id: "c1".to_string(), data: data("S", "m1") },
            ServerMessage { chat_id: "c1".to_string(), data: data("S", "m2") },
        ]
    );
    hub.handle_msg(ChatManagerMessage::CliMessage { cli_id: cli, data: data("S", "m3") }, 6);
    assert_eq!(w2.sent.borrow().len(), 3);
}

#[test]
fn hub_replay_stops_at_the_first_failure_and_resumes_there() {
    let mut hub: ChatHub<Recorder> = ChatHub::new();
    let w1 = Recorder::new();
    hub.new_connect(ConnId(1), w1.clone());
    hub.regiter_chat(ConnId(1), "c1".to_string());
    let cli = hub.attach_session("c1", "/w".to_string(), None, Vec::new(), 0).unwrap().unwrap();
    hub.connection_closed(ConnId(1));
    hub.handle_cli_message(cli, data("S", "a"), 1);
    hub.handle_cli_message(cli, data("S", "b"), 2);
    let w2 = Recorder::new();
    *w2.open.borrow_mut() = false;
    hub.new_connect(ConnId(2), w2.clone());
    assert_eq!(hub.regiter_chat(ConnId(2), "c1".to_string()), 0);
    *w2.open.borrow_mut() = true;
    assert_eq!(hub.regiter_chat(ConnId(2), "c1".to_string()), 2);
    assert_eq!(hub.regiter_chat(ConnId(2), "c1".to_string()), 0);
    assert_eq!(w2.sent.borrow().len(), 2);
}

#[test]
fn hub_cleanup_tells_the_subscriber_and_returns_the_stop() {
    let mut hub: ChatHub<Recorder> = ChatHub::with_idle_ttl(10);
    let w1 = Recorder::new();
    hub.new_connect(ConnId(1), w1.clone());
    hub.regiter_chat(ConnId(1), "c1".to_string());
    let cli = hub.attach_session("c1", "/w".to_string(), None, Vec::new(), 0).unwrap().unwrap();
    let reply = hub.handle_msg(ChatManagerMessage::CleanSessions, 11);
    match reply {
        ManagerReply::Commands(c) => {
            assert_eq!(c, vec![ManagerAction::Forward { cli_id: cli, command: SessionCommand::Stop }])
        }
        _ => panic!("unexpected reply"),
    }
    assert_eq!(
        *w1.sent.borrow(),
        vec![ServerMessage { chat_id: "c1".to_string(), data: ServerMessageData::ChatRemoved }]
    );
}
