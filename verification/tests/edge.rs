use niu_code::api::{
    version_command, ApiError, ApiErrorResponse, ApiOkResponse, BizError, OkCode,
};
use niu_code::server::chat::StartChatError;
use niu_code::server::prompt_hub::{PromptHub, PromptListener, PromptRecord, MAX_PROMPTS};
use niu_code::server::setting::{
    config_dir_in, config_path_in, get_config_dir, get_config_path, reload_action, ClaudeSetting,
    ConfigEvent, ReloadAction, Setting,
};
use niu_code::server::websocket::{
    handle_client_msg, AggregateError, Aggregated, AggregatedMessage, AggregatedMessageStream,
    CloseReason, EndpointStep, Item, Message,
};
use niu_code::server::work_dir::{
    error_event, extract_file_changes, file_change_event, relative_path, FileChange,
    FileChangeEvent, FileChangeNotifier, FileWatcher, FileWatcherRegistry, FsEvent, FsEventKind,
    RenameMode,
};
use niu_code::types::message::{APIUserMessage, APIUserMessageRole, UserContent};
use niu_code::types::tool_input::{
    AgentInput, FileEditInput, McpToolName, ToolUseParams,
};
use serde_json::Value;
use std::cell::RefCell;
use std::rc::Rc;
use std::sync::Arc;

fn json(text: &str) -> Value {
    serde_json::from_str(text).unwrap()
}

fn ready(a: Aggregated) -> Result<AggregatedMessage, AggregateError> {
    match a {
        Aggregated::Ready(r) => r,
        Aggregated::Pending => panic!("still pending"),
    }
}

#[test]
fn continued_text_is_put_together() {
    let mut s = AggregatedMessageStream::new();
    assert!(matches!(
        s.push(Message::Continuation(Item::FirstText("he".as_bytes().to_vec()))),
        Aggregated::Pending
    ));
    assert!(matches!(
        s.push(Message::Continuation(Item::Continue("ll".as_bytes().to_vec()))),
        Aggregated::Pending
    ));
    assert_eq!(s.current_size, 4);
    assert_eq!(
        ready(s.push(Message::Continuation(Item::Last("o".as_bytes().to_vec())))),
        Ok(AggregatedMessage::Text("hello".to_string()))
    );
    assert_eq!(s.current_size, 0);
    assert!(s.continuations.is_empty());
}

#[test]
fn continued_bytes_are_put_together() {
    let mut s = AggregatedMessageStream::new();
    s.push(Message::Continuation(Item::FirstBinary(vec![1, 2])));
    assert_eq!(
        ready(s.push(Message::Continuation(Item::Last(vec![3])))),
        Ok(AggregatedMessage::Binary(vec![1, 2, 3]))
    );
}

#[test]
fn text_that_is_not_utf8_is_given_up() {
    let mut s = AggregatedMessageStream::new();
    s.push(Message::Continuation(Item::FirstText(vec![0xff])));
    assert!(matches!(
        ready(s.push(Message::Continuation(Item::Last(vec![0xfe])))),
        Err(AggregateError::InvalidText(_))
    ));
}

#[test]
fn a_message_beyond_the_largest_size_is_given_up() {
    let mut s = AggregatedMessageStream::new().max_continuation_size(4);
    s.push(Message::Continuation(Item::FirstBinary(vec![0; 3])));
    assert_eq!(
        ready(s.push(Message::Continuation(Item::Continue(vec![0; 2])))),
        Err(AggregateError::TooLarge)
    );
    assert!(s.continuations.is_empty());
    assert_eq!(s.current_size, 5);
    assert_eq!(
        ready(s.push(Message::Continuation(Item::Last(vec![0; 1])))),
        Err(AggregateError::TooLarge)
    );
    assert_eq!(s.current_size, 0);
    s.push(Message::Continuation(Item::FirstBinary(vec![7; 4])));
    assert_eq!(
        ready(s.push(Message::Continuation(Item::Last(vec![])))),
        Ok(AggregatedMessage::Binary(vec![7; 4]))
    );
}

#[test]
fn whole_messages_pass_as_they_are() {
    let mut s = AggregatedMessageStream::new();
    assert_eq!(s.max_size, 1024 * 1024);
    assert_eq!(ready(s.push(Message::Text("t".to_string()))), Ok(AggregatedMessage::Text("t".to_string())));
    assert_eq!(ready(s.push(Message::Binary(vec![1]))), Ok(AggregatedMessage::Binary(vec![1])));
    assert_eq!(ready(s.push(Message::Ping(vec![2]))), Ok(AggregatedMessage::Ping(vec![2])));
    assert_eq!(ready(s.push(Message::Pong(vec![3]))), Ok(AggregatedMessage::Pong(vec![3])));
    let reason = Some(CloseReason { code: 1000, description: None });
    assert_eq!(ready(s.push(Message::Close(reason.clone()))), Ok(AggregatedMessage::Close(reason)));
}

#[test]
fn the_endpoint_decodes_text_and_bytes_and_answers_pings() {
    assert_eq!(handle_client_msg(None), EndpointStep::Closed);
    assert_eq!(handle_client_msg(Some(Err(AggregateError::TooLarge))), EndpointStep::Fail);
    assert_eq!(
        handle_client_msg(Some(Ok(AggregatedMessage::Text("{}".to_string())))),
        EndpointStep::Decode(b"{}".to_vec())
    );
    assert_eq!(
        handle_client_msg(Some(Ok(AggregatedMessage::Binary(vec![1])))),
        EndpointStep::Decode(vec![1])
    );
    assert_eq!(
        handle_client_msg(Some(Ok(AggregatedMessage::Ping(vec![9])))),
        EndpointStep::Pong(vec![9])
    );
    assert_eq!(handle_client_msg(Some(Ok(AggregatedMessage::Pong(vec![9])))), EndpointStep::Nothing);
    assert_eq!(handle_client_msg(Some(Ok(AggregatedMessage::Close(None)))), EndpointStep::Fail);
}

fn event(kind: FsEventKind, paths: &[&str]) -> FsEvent {
    FsEvent { kind, paths: paths.iter().map(|p| p.to_string()).collect() }
}

#[test]
fn events_of_the_file_system_become_changes() {
    assert_eq!(relative_path("/w", "/w/src/a.rs"), "src/a.rs");
    assert_eq!(relative_path("/w", "/other/a.rs"), "/other/a.rs");
    assert_eq!(relative_path("/w", "/work/a.rs"), "/work/a.rs");
    assert_eq!(
        extract_file_changes("/w", &event(FsEventKind::Create, &["/w/a", "/x/b"])),
        vec![FileChange::Created("a".to_string()), FileChange::Created("/x/b".to_string())]
    );
    assert_eq!(
        extract_file_changes("/w", &event(FsEventKind::Remove, &["/w/a"])),
        vec![FileChange::Removed("a".to_string())]
    );
    assert_eq!(
        extract_file_changes("/w", &event(FsEventKind::Rename(RenameMode::Both), &["/w/a", "/w/b", "/w/c"])),
        vec![FileChange::Removed("a".to_string()), FileChange::Created("b".to_string())]
    );
    assert!(extract_file_changes("/w", &event(FsEventKind::Rename(RenameMode::Both), &["/w/a"])).is_empty());
    assert_eq!(
        extract_file_changes("/w", &event(FsEventKind::Rename(RenameMode::To), &["/w/a", "/w/b"])),
        vec![FileChange::Created("a".to_string())]
    );
    assert_eq!(
        extract_file_changes("/w", &event(FsEventKind::Rename(RenameMode::From), &["/w/a"])),
        vec![FileChange::Removed("a".to_string())]
    );
    assert!(extract_file_changes("/w", &event(FsEventKind::Rename(RenameMode::To), &[])).is_empty());
    assert!(extract_file_changes("/w", &event(FsEventKind::Rename(RenameMode::Any), &["/w/a"])).is_empty());
    assert!(extract_file_changes("/w", &event(FsEventKind::Rename(RenameMode::Other), &["/w/a"])).is_empty());
    assert!(extract_file_changes("/w", &event(FsEventKind::Other, &["/w/a"])).is_empty());
}

#[test]
fn a_client_is_told_of_changes_in_its_own_directory_only() {
    assert_eq!(
        file_change_event("/w", "/w", FileChange::Created("a".to_string())),
        Some(FileChangeEvent::FileCreated { work_dir: "/w".to_string(), file: "a".to_string() })
    );
    assert_eq!(
        file_change_event("/w", "/w", FileChange::Removed("a".to_string())),
        Some(FileChangeEvent::FileRemoved { work_dir: "/w".to_string(), file: "a".to_string() })
    );
    assert_eq!(file_change_event("/w", "/v", FileChange::Created("a".to_string())), None);
    assert_eq!(
        error_event("/w", "/w", "boom"),
        Some(FileChangeEvent::Error { work_dir: "/w".to_string(), message: "boom".to_string() })
    );
    assert_eq!(error_event("/w", "/v", "boom"), None);
}

#[derive(Clone)]
struct Ear {
    name: u8,
    open: Rc<RefCell<bool>>,
    heard: Rc<RefCell<Vec<String>>>,
}

impl Ear {
    fn new(name: u8) -> Self {
        Ear { name, open: Rc::new(RefCell::new(true)), heard: Rc::new(RefCell::new(Vec::new())) }
    }
}

impl FileChangeNotifier for Ear {
    fn file_changed(&self, work_dir: &str, change: FileChange) -> Result<(), ()> {
        if *self.open.borrow() {
            self.heard.borrow_mut().push(format!("{} {:?}", work_dir, change));
            Ok(())
        } else {
            Err(())
        }
    }

    fn notify_error(&self, work_dir: &str, error: &str) -> Result<(), ()> {
        if *self.open.borrow() {
            self.heard.borrow_mut().push(format!("{} {}", work_dir, error));
            Ok(())
        } else {
            Err(())
        }
    }
}

impl PromptListener for Ear {
    fn on_new_prompt(&self, prompt: &PromptRecord) -> Result<(), ()> {
        if *self.open.borrow() {
            self.heard.borrow_mut().push(prompt.content.to_string());
            Ok(())
        } else {
            Err(())
        }
    }
}

#[test]
fn notifiers_that_are_gone_are_forgotten() {
    let mut w: FileWatcher<Ear> = FileWatcher::new("/w".to_string());
    let (a, b, c) = (Ear::new(1), Ear::new(2), Ear::new(3));
    w.add_notifier(a.clone());
    w.add_notifier(b.clone());
    w.add_notifier(c.clone());
    assert!(w.start_watching());
    assert!(!w.start_watching());
    *b.open.borrow_mut() = false;
    assert!(w.notify_change(&FileChange::Created("f".to_string())));
    assert_eq!(w.notifiers.iter().map(|n| n.name).collect::<Vec<_>>(), vec![1, 3]);
    assert_eq!(*a.heard.borrow(), vec!["/w Created(\"f\")".to_string()]);
    *a.open.borrow_mut() = false;
    assert!(w.notify_error("boom"));
    assert_eq!(w.notifiers.iter().map(|n| n.name).collect::<Vec<_>>(), vec![3]);
    assert_eq!(c.heard.borrow().len(), 2);
    *c.open.borrow_mut() = false;
    assert!(!w.notify_change(&FileChange::Removed("f".to_string())));
    assert!(w.stop_watching());
    assert!(!w.stop_watching());
}

fn record(text: &str, at: i64) -> PromptRecord {
    PromptRecord { content: Arc::new(text.to_string()), timestamp: at, work_dir: None }
}

#[test]
fn the_hub_keeps_the_newest_hundred_prompts() {
    let many: Vec<PromptRecord> = (0..150).map(|i| record(&i.to_string(), i)).collect();
    let mut hub: PromptHub<Ear> = PromptHub::new(many);
    assert_eq!(MAX_PROMPTS, 100);
    let all = hub.get_all_prompts();
    assert_eq!(all.len(), 100);
    assert_eq!(*all[0].content, "50");
    assert_eq!(*all[99].content, "149");
    let added = hub.add_prompt(Arc::new("new".to_string()), Some("/w".to_string()), 7);
    assert_eq!(
        added,
        PromptRecord { content: Arc::new("new".to_string()), timestamp: 7, work_dir: Some("/w".to_string()) }
    );
    let all = hub.get_all_prompts();
    assert_eq!(all.len(), 100);
    assert_eq!(*all[0].content, "51");
    assert_eq!(all[99], added);
}

#[test]
fn listeners_hear_old_and_new_prompts_until_they_are_gone() {
    let mut hub: PromptHub<Ear> = PromptHub::new(vec![record("a", 1), record("b", 2)]);
    let ear = Ear::new(1);
    assert!(hub.add_listener(ear.clone()));
    assert_eq!(*ear.heard.borrow(), vec!["a".to_string(), "b".to_string()]);
    let gone = Ear::new(2);
    *gone.open.borrow_mut() = false;
    assert!(!hub.add_listener(gone));
    assert_eq!(hub.listeners.len(), 1);
    hub.add_prompt(Arc::new("c".to_string()), None, 3);
    assert_eq!(ear.heard.borrow().len(), 3);
    *ear.open.borrow_mut() = false;
    hub.add_prompt(Arc::new("d".to_string()), None, 4);
    assert!(hub.listeners.is_empty());
    assert_eq!(hub.get_all_prompts().len(), 4);
}

#[test]
fn a_user_message_adds_its_text_or_the_texts_of_its_blocks() {
    let mut hub: PromptHub<Ear> = PromptHub::new(Vec::new());
    let plain = APIUserMessage {
        content: UserContent::String(Arc::new("hi".to_string())),
        role: APIUserMessageRole::User,
    };
    let added = hub.add_user_input(&plain, None, 1);
    assert_eq!(added, vec![record("hi", 1)]);
    let blocks = APIUserMessage {
        content: UserContent::Vec(vec![
            json(r#"{"type":"text","text":"one"}"#),
            json(r#"{"type":"image","source":{}}"#),
            json(r#"{"type":"text"}"#),
            json(r#"{"type":"text","text":"two"}"#),
        ]),
        role: APIUserMessageRole::User,
    };
    let added = hub.add_user_input(&blocks, Some("/w".to_string()), 2);
    assert_eq!(added.len(), 2);
    assert_eq!(*added[0].content, "one");
    assert_eq!(*added[1].content, "two");
    assert_eq!(added[1].work_dir.as_deref(), Some("/w"));
    assert_eq!(hub.get_all_prompts().len(), 3);
}

#[test]
fn test_get_claude_setting_by_name() {
    let setting = Setting::default();
    let ccr_setting = setting.get_claude_setting("ccr");
    assert!(ccr_setting.is_some());

    let non_existent = setting.get_claude_setting("non_existent");
    assert!(non_existent.is_none());
}

#[test]
fn the_first_profile_of_a_name_is_found() {
    let setting = Setting::default();
    assert_eq!(setting.get_claude_settings().len(), 1);
    let ccr = setting.get_claude_setting("ccr").unwrap();
    assert_eq!(ccr.name(), "ccr");
    assert_eq!(
        *ccr.setting(),
        json(r#"{"env":{"ANTHROPIC_AUTH_TOKEN":"your-secret-key","ANTHROPIC_BASE_URL":"http://127.0.0.1:3456"}}"#)
    );
    let two = Setting {
        claude_settings: vec![
            ClaudeSetting { name: "a".to_string(), setting: json("1") },
            ClaudeSetting { name: "b".to_string(), setting: json("2") },
            ClaudeSetting { name: "b".to_string(), setting: json("3") },
        ],
    };
    assert_eq!(*two.get_claude_setting("b").unwrap().setting(), json("2"));
}

#[test]
fn the_settings_lie_below_the_home_directory() {
    assert_eq!(config_dir_in("/home/me"), "/home/me/.config/.niu-code");
    assert_eq!(config_path_in("/home/me/"), "/home/me/.config/.niu-code/settings.json");
    if let Some(dir) = get_config_dir() {
        assert!(dir.ends_with("/.config/.niu-code"));
        assert_eq!(get_config_path(), Some(format!("{}/settings.json", dir)));
    }
}

#[test]
fn changes_of_the_settings_file_reload_or_reset() {
    assert_eq!(reload_action(ConfigEvent::Modified, true), ReloadAction::ReloadSoon);
    assert_eq!(reload_action(ConfigEvent::Created, true), ReloadAction::ReloadSoon);
    assert_eq!(reload_action(ConfigEvent::Removed, true), ReloadAction::UseDefault);
    assert_eq!(reload_action(ConfigEvent::Other, true), ReloadAction::Nothing);
    assert_eq!(reload_action(ConfigEvent::Removed, false), ReloadAction::Nothing);
}

#[test]
fn errors_are_reported_with_code_and_status() {
    let ok = ApiOkResponse::new(5);
    assert_eq!(ok.data, 5);
    assert_eq!(ok.code, OkCode);
    assert_eq!(ok.code.as_str(), "ok");
    let biz = BizError::from_start_chat_error(StartChatError::ConfigNotFound("fast".to_string()));
    assert_eq!(biz, BizError { code: "chat/config-not-found".to_string(), err: Some("fast".to_string()) });
    assert_eq!(
        biz.clone().with_context("again"),
        BizError { code: "chat/config-not-found".to_string(), err: Some("fast: again".to_string()) }
    );
    assert_eq!(
        BizError::from_start_chat_error(StartChatError::ChatNotRegistered),
        BizError { code: "chat/not-registerd".to_string(), err: None }
    );
    assert_eq!(
        BizError::from_start_chat_error(StartChatError::SessionNotFound).code,
        "chat/session-not-found"
    );
    let e = ApiError::BizError(biz);
    assert_eq!(e.status_code(), 400);
    assert_eq!(
        e.error_response(),
        ApiErrorResponse { code: "chat/config-not-found".to_string(), err: Some("fast".to_string()) }
    );
    let s = ApiError::Anyhow("disk full".to_string());
    assert_eq!(s.status_code(), 500);
    assert_eq!(
        s.error_response(),
        ApiErrorResponse { code: "SYSTEM_ERROR".to_string(), err: Some("disk full".to_string()) }
    );
}

#[test]
fn the_version_is_asked_for_by_the_first_argument() {
    let args = |v: &[&str]| v.iter().map(|s| s.to_string()).collect::<Vec<_>>();
    assert!(version_command(&args(&["prog", "--version"])));
    assert!(version_command(&args(&["prog", "version", "x"])));
    assert!(!version_command(&args(&["prog"])));
    assert!(!version_command(&args(&["prog", "-v"])));
    assert!(!version_command(&args(&[])));
}

#[test]
fn tools_have_names() {
    let agent = ToolUseParams::Agent {
        input: AgentInput {
            description: "d".to_string(),
            prompt: "p".to_string(),
            subagent_type: "s".to_string(),
        },
    };
    assert_eq!(agent.tool_name(), "Agent");
    let edit = ToolUseParams::Edit {
        input: FileEditInput {
            file_path: "f".to_string(),
            old_string: "a".to_string(),
            new_string: "b".to_string(),
            replace_all: None,
        },
    };
    assert_eq!(edit.tool_name(), "Edit");
    let mcp = ToolUseParams::Mcp { tool_name: McpToolName("mcp__x".to_string()), input: Value::Null };
    assert_eq!(mcp.tool_name(), "Mcp");
}

#[test]
fn the_registry_keeps_one_watcher_for_each_directory() {
    let mut registry: FileWatcherRegistry<Ear> = FileWatcherRegistry::new();
    let (a, b, c) = (Ear::new(1), Ear::new(2), Ear::new(3));
    assert!(registry.add_notifier("/w".to_string(), a.clone()));
    assert!(!registry.add_notifier("/w".to_string(), b.clone()));
    assert!(registry.add_notifier("/v".to_string(), c.clone()));
    assert_eq!(registry.watchers.len(), 2);
    assert_eq!(registry.watchers[0].notifiers.len(), 2);
    assert!(registry.watchers[0].watching);

    let change = FileChange::Created("f".to_string());
    assert!(!registry.notify_change("/w", &change, true));
    assert!(a.heard.borrow().is_empty());
    assert!(!registry.notify_change("/nowhere", &change, false));
    assert!(!registry.notify_change("/w", &change, false));
    assert_eq!(a.heard.borrow().len(), 1);
    assert_eq!(b.heard.borrow().len(), 1);
    assert!(c.heard.borrow().is_empty());

    *a.open.borrow_mut() = false;
    assert!(!registry.notify_error("/w", "boom"));
    assert_eq!(registry.watchers[0].notifiers.iter().map(|n| n.name).collect::<Vec<_>>(), vec![2]);
    *b.open.borrow_mut() = false;
    assert!(registry.notify_change("/w", &change, false));
    assert_eq!(registry.watchers.len(), 1);
    assert_eq!(registry.watchers[0].work_dir, "/v");
    *c.open.borrow_mut() = false;
    assert!(registry.notify_error("/v", "boom"));
    assert!(registry.watchers.is_empty());
    assert!(!registry.notify_error("/v", "boom"));
}

#[test]
fn a_hub_without_prompts_adds_every_listener() {
    let mut hub: PromptHub<Ear> = PromptHub::new(Vec::new());
    let gone = Ear::new(1);
    *gone.open.borrow_mut() = false;
    assert!(hub.add_listener(gone.clone()));
    assert_eq!(hub.listeners.len(), 1);
    assert!(gone.heard.borrow().is_empty());
    hub.add_prompt(Arc::new("a".to_string()), None, 1);
    assert!(hub.listeners.is_empty());
}
