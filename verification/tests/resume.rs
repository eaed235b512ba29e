use niu_code::api::{session_list, UnifiedSessionInfo};
use niu_code::server::chat::SessionInfo;
use niu_code::server::model::CacheMessage;
use niu_code::server::resume::{
    join_path, log_to_message_record, logs_dir, project_id, session_info, transcript_path,
    transcript_records, ClaudeLog, ClaudeLogTypes, ClaudeSession, ClaudeSessionInfo,
    ClaudeSummary, FileHistorySnapshot,
};
use niu_code::types::message::SDKMessageTyped;
use serde_json::Value;

fn json(text: &str) -> Value {
    serde_json::from_str(text).unwrap()
}

fn log(session: &str, uuid: &str, timestamp: &str, message: &str) -> ClaudeLog {
    ClaudeLog {
        parent_uuid: None,
        is_sidechain: false,
        user_type: "external".to_string(),
        cwd: "/w".to_string(),
        session_id: session.to_string(),
        version: "1".to_string(),
        git_branch: None,
        message: json(message),
        is_meta: None,
        uuid: uuid.to_string(),
        timestamp: timestamp.to_string(),
        thinking_metadata: None,
        tool_use_result: None,
        is_visible_in_transcript_only: None,
        is_compact_summary: None,
        is_api_error_message: None,
    }
}

#[test]
fn test_logs_dir_with_path() {
    let test_home = "/test/home";
    let config_dir = format!("{}/.config-dir", test_home);
    let result = logs_dir(&config_dir, "/data/home/sen/code/projects/ai/zsen-cc-web");
    let expected_path = format!(
        "{}/.config-dir/projects/-data-home-sen-code-projects-ai-zsen-cc-web",
        test_home
    );
    assert_eq!(result, expected_path);
}

#[test]
fn project_ids_replace_separators_colons_and_dots() {
    assert_eq!(project_id("C:\\Users\\me\\my.project"), "C--Users-me-my-project");
    assert_eq!(project_id("/a.b/c:d"), "-a-b-c-d");
    assert_eq!(project_id("plain"), "plain");
    assert_eq!(project_id(""), "");
}

#[test]
fn paths_are_joined_with_one_slash() {
    assert_eq!(join_path("/a", "b"), "/a/b");
    assert_eq!(join_path("/a/", "b"), "/a/b");
    assert_eq!(join_path("", "b"), "b");
    assert_eq!(transcript_path("/cfg", "/w", "S"), "/cfg/projects/-w/S.jsonl");
}

#[test]
fn user_and_assistant_lines_become_records_of_their_session() {
    let user = log("S", "u1", "2025-01-02T03:04:05.678Z", r#"{"role":"user","content":"hi"}"#);
    let rec = log_to_message_record(ClaudeLogTypes::User(user)).unwrap().unwrap();
    assert_eq!(rec.timestamp, 1_735_787_045_678);
    match rec.message {
        CacheMessage::CliData(m) => {
            assert_eq!(m.session_id, "S");
            assert_eq!(m.typed, SDKMessageTyped::User);
            assert_eq!(
                m.body,
                json(r#"{"type":"user","session_id":"S","uuid":"u1","parent_tool_use_id":null,"message":{"role":"user","content":"hi"}}"#)
            );
        }
        other => panic!("unexpected {:?}", other),
    }
    let assistant = log("S", "a1", "2025-01-02T03:04:06+01:00", r#"{"anything":[1,2]}"#);
    let rec = log_to_message_record(ClaudeLogTypes::Assistant(assistant)).unwrap().unwrap();
    assert_eq!(rec.timestamp, 1_735_783_446_000);
    match rec.message {
        CacheMessage::CliData(m) => {
            assert_eq!(m.typed, SDKMessageTyped::Assistant);
            assert_eq!(m.body["message"], json(r#"{"anything":[1,2]}"#));
            assert_eq!(m.body["type"], json(r#""assistant""#));
        }
        other => panic!("unexpected {:?}", other),
    }
}

#[test]
fn other_lines_become_nothing() {
    assert_eq!(
        log_to_message_record(ClaudeLogTypes::Summary(ClaudeSummary {
            summary: "s".to_string(),
            leaf_uuid: None,
        })),
        Ok(None)
    );
    assert_eq!(
        log_to_message_record(ClaudeLogTypes::FileHistorySnapshot(FileHistorySnapshot {
            message_id: "m".to_string(),
            snapshot: Value::Null,
            is_snapshot_update: false,
        })),
        Ok(None)
    );
    assert_eq!(log_to_message_record(ClaudeLogTypes::System(Value::Null)), Ok(None));
}

#[test]
fn lines_that_cannot_become_records_are_errors() {
    let bad_time = log("S", "u", "yesterday", r#"{"role":"user","content":"hi"}"#);
    assert!(log_to_message_record(ClaudeLogTypes::User(bad_time)).is_err());
    let bad_message = log("S", "u", "2025-01-02T03:04:05Z", r#"{"role":"robot","content":"hi"}"#);
    assert!(log_to_message_record(ClaudeLogTypes::User(bad_message)).is_err());
    let no_content = log("S", "u", "2025-01-02T03:04:05Z", r#"{"role":"user"}"#);
    assert!(log_to_message_record(ClaudeLogTypes::User(no_content)).is_err());
    let blocks = log("S", "u", "2025-01-02T03:04:05Z", r#"{"role":"assistant","content":[]}"#);
    assert!(log_to_message_record(ClaudeLogTypes::User(blocks)).is_ok());
}

#[test]
fn a_transcript_seeds_the_cache_with_its_content_lines() {
    let session = ClaudeSession {
        logs: vec![
            ClaudeLogTypes::Summary(ClaudeSummary { summary: "s".to_string(), leaf_uuid: None }),
            ClaudeLogTypes::User(log("S", "u1", "2025-01-02T03:04:05Z", r#"{"role":"user","content":"a"}"#)),
            ClaudeLogTypes::System(Value::Null),
            ClaudeLogTypes::Assistant(log("S", "a1", "2025-01-02T03:04:06Z", r#"{"role":"assistant","content":[]}"#)),
        ],
    };
    let records = transcript_records(session).unwrap();
    assert_eq!(records.len(), 2);
    assert_eq!(records[0].timestamp, 1_735_787_045_000);
    assert_eq!(records[1].timestamp, 1_735_787_046_000);
    let broken = ClaudeSession {
        logs: vec![ClaudeLogTypes::User(log("S", "u1", "never", r#"{"role":"user","content":"a"}"#))],
    };
    assert!(transcript_records(broken).is_err());
}

fn lines(v: &[&str]) -> Vec<String> {
    v.iter().map(|s| s.to_string()).collect()
}

#[test]
fn the_summary_of_a_transcript_is_read_from_its_end() {
    let info = session_info(
        "S".to_string(),
        &lines(&[
            r#"{"type":"user","timestamp":"2025-01-01T00:00:00Z","message":{"content":"first"}}"#,
            r#"{"type":"user","timestamp":"2025-01-01T00:00:01Z","message":{"content":[{"type":"image"},{"type":"text","text":"second"}]}}"#,
            "garbage",
            r#"{"type":"assistant","timestamp":"2025-01-01T00:00:02Z","message":{"content":"answer"}}"#,
        ]),
    );
    assert_eq!(
        info,
        Some(ClaudeSessionInfo {
            session_id: "S".to_string(),
            last_user_input: "second".to_string(),
            last_active: 1_735_689_602_000,
        })
    );
}

#[test]
fn a_transcript_without_a_time_has_no_summary() {
    assert_eq!(session_info("S".to_string(), &lines(&[])), None);
    assert_eq!(
        session_info(
            "S".to_string(),
            &lines(&[r#"{"type":"assistant","message":{"content":"x"}}"#, "nope"])
        ),
        None
    );
    assert_eq!(
        session_info(
            "S".to_string(),
            &lines(&[
                r#"{"type":"user","timestamp":"2025-01-01T00:00:00Z","message":{"content":"old"}}"#,
                r#"{"type":"user","message":{"content":"typed"}}"#,
            ])
        ),
        None
    );
    assert_eq!(
        session_info(
            "S".to_string(),
            &lines(&[r#"{"type":"summary","timestamp":"2025-01-01T00:00:00Z"}"#])
        ),
        Some(ClaudeSessionInfo {
            session_id: "S".to_string(),
            last_user_input: String::new(),
            last_active: 1_735_689_600_000,
        })
    );
}

#[test]
fn sessions_on_disk_are_marked_when_they_are_alive() {
    let on_disk = vec![
        ClaudeSessionInfo { session_id: "A".to_string(), last_user_input: "a".to_string(), last_active: 0 },
        ClaudeSessionInfo {
            session_id: "B".to_string(),
            last_user_input: "b".to_string(),
            last_active: 1_735_689_600_000,
        },
    ];
    let alive = vec![SessionInfo {
        session_id: "B".to_string(),
        work_dir: "/w".to_string(),
        created_at: 0,
        last_activity: 0,
        message_count: 0,
        last_user_input: None,
    }];
    assert_eq!(
        session_list(on_disk, &alive),
        vec![
            UnifiedSessionInfo {
                session_id: "A".to_string(),
                last_user_input: "a".to_string(),
                last_activity: "1970-01-01T00:00:00+00:00".to_string(),
                is_active: false,
            },
            UnifiedSessionInfo {
                session_id: "B".to_string(),
                last_user_input: "b".to_string(),
                last_activity: "2025-01-01T00:00:00+00:00".to_string(),
                is_active: true,
            },
        ]
    );
}
