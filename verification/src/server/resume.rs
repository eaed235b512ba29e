//! Transcripts of sessions on disk: where they lie, and what they hold.

use crate::json::{
    json_array_items, json_as_string, json_from_text, json_get, json_insert, json_is_object,
    json_items, json_member, json_members, json_new_object, json_null, json_parse, json_string,
    json_text_member, parse_json, text_member,
};
use crate::server::model::{CacheMessage, MessageRecord};
use crate::text::{opt_text, replace_char, same_text};
use crate::types::message::{SDKMessage, SDKMessageTyped};
use serde_json::Value;
use std::sync::Arc;
use vstd::prelude::*;
use vstd::string::*;

verus! {

/// A line of a transcript that holds a message.
#[derive(Clone, Debug, PartialEq)]
pub struct ClaudeLog {
    pub parent_uuid: Option<String>,
    pub is_sidechain: bool,
    pub user_type: String,
    pub cwd: String,
    pub session_id: String,
    pub version: String,
    pub git_branch: Option<String>,
    pub message: Value,
    pub is_meta: Option<bool>,
    pub uuid: String,
    pub timestamp: String,
    pub thinking_metadata: Option<Value>,
    pub tool_use_result: Option<Value>,
    pub is_visible_in_transcript_only: Option<bool>,
    pub is_compact_summary: Option<bool>,
    pub is_api_error_message: Option<bool>,
}

/// A line of a transcript that sums up a conversation.
#[derive(Clone, Debug, PartialEq)]
pub struct ClaudeSummary {
    pub summary: String,
    pub leaf_uuid: Option<String>,
}

/// A line of a transcript that records the state of files.
#[derive(Clone, Debug, PartialEq)]
pub struct FileHistorySnapshot {
    pub message_id: String,
    pub snapshot: Value,
    pub is_snapshot_update: bool,
}

/// One line of a transcript.
#[derive(Clone, Debug, PartialEq)]
pub enum ClaudeLogTypes {
    User(ClaudeLog),
    Assistant(ClaudeLog),
    Summary(ClaudeSummary),
    FileHistorySnapshot(FileHistorySnapshot),
    System(Value),
}

/// A transcript.
#[derive(Clone, Debug, PartialEq)]
pub struct ClaudeSession {
    pub logs: Vec<ClaudeLogTypes>,
}

/// What a transcript says about its session.
#[derive(Clone, Debug, PartialEq)]
pub struct ClaudeSessionInfo {
    pub session_id: String,
    pub last_user_input: String,
    /// In milliseconds since the epoch.
    pub last_active: i64,
}

/// A span of time in milliseconds.
#[derive(Clone, Copy, Debug, PartialEq, Eq, Structural)]
pub struct DurationMilliSec(pub u64);

/// Which transcripts are loaded.
#[derive(Clone, Debug, PartialEq)]
pub struct LoadSessionOptions {
    pub work_dir: String,
    pub limit: usize,
    pub max_age: DurationMilliSec,
}

/// The name of the directory that holds the transcripts of a working
/// directory: the working directory's path with `-` in place of each `/`,
/// `\`, `:` and `.`.
pub open spec fn project_id_of(work_dir: Seq<char>) -> Seq<char> {
    work_dir.map_values(
        |c: char|
            if c == '/' || c == '\\' || c == ':' || c == '.' {
                '-'
            } else {
                c
            },
    )
}

/// The name of the directory that holds the transcripts of `work_dir`.
pub fn project_id(work_dir: &str) -> (r: String)
    ensures
        r@ == project_id_of(work_dir@),
{
    let a = replace_char(work_dir, '/', '-');
    let b = replace_char(a.as_str(), '\\', '-');
    let c = replace_char(b.as_str(), ':', '-');
    let d = replace_char(c.as_str(), '.', '-');
    assert(d@ =~= project_id_of(work_dir@));
    d
}

/// `dir` and `name` with one `/` between them, where `dir` is not empty and
/// does not end in one already.
pub open spec fn joined_path(dir: Seq<char>, name: Seq<char>) -> Seq<char> {
    if dir.len() == 0 || dir.last() == '/' {
        dir + name
    } else {
        dir + "/"@ + name
    }
}

/// The path of `name` in the directory `dir`.
pub fn join_path(dir: &str, name: &str) -> (r: String)
    ensures
        r@ == joined_path(dir@, name@),
{
    let mut out = dir.to_owned();
    let n = dir.unicode_len();
    if n > 0 && dir.get_char(n - 1) != '/' {
        out.append("/");
    }
    out.append(name);
    out
}

/// The directory that holds the transcripts of the working directory
/// `work_dir`, below the child's configuration directory `config_dir`.
pub open spec fn logs_dir_of(config_dir: Seq<char>, work_dir: Seq<char>) -> Seq<char> {
    joined_path(joined_path(config_dir, "projects"@), project_id_of(work_dir))
}

/// The directory that holds the transcripts of `work_dir`. `config_dir` is
/// the child's configuration directory, and `work_dir` the working directory
/// in its canonical form.
pub fn logs_dir(config_dir: &str, work_dir: &str) -> (r: String)
    ensures
        r@ == logs_dir_of(config_dir@, work_dir@),
{
    let projects = join_path(config_dir, "projects");
    let id = project_id(work_dir);
    join_path(projects.as_str(), id.as_str())
}

/// The file that holds the transcript of the session `session_id`.
pub fn transcript_path(config_dir: &str, work_dir: &str, session_id: &str) -> (r: String)
    ensures
        r@ == joined_path(logs_dir_of(config_dir@, work_dir@), session_id@ + ".jsonl"@),
{
    let dir = logs_dir(config_dir, work_dir);
    let mut name = session_id.to_owned();
    name.append(".jsonl");
    join_path(dir.as_str(), name.as_str())
}

/// The time that an RFC 3339 text names, in milliseconds since the epoch;
/// `None` where the text names no time.
pub uninterp spec fn rfc3339_millis(text: Seq<char>) -> Option<i64>;

/// Calls `chrono::DateTime::parse_from_rfc3339` and, on the time it finds,
/// `timestamp_millis`.
#[verifier::external_body]
fn parse_timestamp(text: &str) -> (r: Option<i64>)
    ensures
        r == rfc3339_millis(text@),
{
    match chrono::DateTime::parse_from_rfc3339(text) {
        Ok(t) => Some(t.timestamp_millis()),
        Err(_) => None,
    }
}

/// Whether `v` is a message as the API holds it: its member `role` is `user`
/// or `assistant`, and its member `content` is a string or an array.
pub open spec fn is_api_message(v: Value) -> bool {
    &&& json_text_member(v, "role"@) matches Some(r)
    &&& (r == "user"@ || r == "assistant"@)
    &&& json_member(v, "content"@) matches Some(c)
    &&& (json_string(c) is Some || json_items(c) is Some)
}

/// Whether `v` is a message as the API holds it.
fn check_api_message(v: &Value) -> (r: bool)
    ensures
        r == is_api_message(*v),
{
    let role_ok = match text_member(v, "role") {
        Some(r) => same_text(r.as_str(), "user") || same_text(r.as_str(), "assistant"),
        None => false,
    };
    if !role_ok {
        return false;
    }
    match json_get(v, "content") {
        Some(c) => json_as_string(c).is_some() || json_array_items(c).is_some(),
        None => false,
    }
}

/// Whether `v` is the frame of the message that the line `log` holds: an
/// object with the members `type`, `session_id` and `uuid` as texts,
/// `message`, and `parent_tool_use_id`, which is null.
pub open spec fn is_log_frame(v: Value, kind: SDKMessageTyped, log: ClaudeLog) -> bool {
    &&& json_is_object(v)
    &&& json_members(v).dom() == set![
        "type"@,
        "session_id"@,
        "uuid"@,
        "message"@,
        "parent_tool_use_id"@,
    ]
    &&& json_text_member(v, "type"@) == Some(kind.wire_value())
    &&& json_text_member(v, "session_id"@) == Some(log.session_id@)
    &&& json_text_member(v, "uuid"@) == Some(log.uuid@)
    &&& json_member(v, "message"@) == Some(log.message)
    &&& json_string(json_members(v)["parent_tool_use_id"@]) is None
    &&& !json_is_object(json_members(v)["parent_tool_use_id"@])
}

/// The frame of the message that the line `log` holds.
fn log_frame(kind: SDKMessageTyped, log: &ClaudeLog) -> (r: Value)
    ensures
        is_log_frame(r, kind, *log),
{
    proof {
        reveal_strlit("type");
        reveal_strlit("session_id");
        reveal_strlit("uuid");
        reveal_strlit("message");
        reveal_strlit("parent_tool_use_id");
        assert("type"@.len() == 4 && "session_id"@.len() == 10 && "uuid"@.len() == 4
            && "message"@.len() == 7 && "parent_tool_use_id"@.len() == 18);
        assert("type"@[0] == 't' && "uuid"@[0] == 'u');
    }
    let mut frame = json_new_object();
    json_insert(&mut frame, "type", json_from_text(kind.wire_name()));
    json_insert(&mut frame, "session_id", json_from_text(log.session_id.as_str()));
    json_insert(&mut frame, "uuid", json_from_text(log.uuid.as_str()));
    json_insert(&mut frame, "message", log.message.clone());
    json_insert(&mut frame, "parent_tool_use_id", json_null());
    assert(json_members(frame).dom() =~= set![
        "type"@,
        "session_id"@,
        "uuid"@,
        "message"@,
        "parent_tool_use_id"@,
    ]);
    frame
}

/// Whether `r` is the record of the message that the line `log` holds.
pub open spec fn records_log(r: MessageRecord, kind: SDKMessageTyped, log: ClaudeLog) -> bool {
    &&& rfc3339_millis(log.timestamp@) == Some(r.timestamp)
    &&& r.message matches CacheMessage::CliData(m)
    &&& m.session_id@ == log.session_id@
    &&& m.typed == kind
    &&& is_log_frame(m.body, kind, log)
}

/// Whether the line `log` of the kind `kind` can be turned into a record:
/// its time is an RFC 3339 time, and, for a line of the user, its message is
/// a message as the API holds it.
pub open spec fn is_recordable(kind: SDKMessageTyped, log: ClaudeLog) -> bool {
    rfc3339_millis(log.timestamp@) is Some && (kind == SDKMessageTyped::User ==> is_api_message(
        log.message,
    ))
}

/// The record of the message that the line `log` holds.
fn message_record(kind: SDKMessageTyped, log: &ClaudeLog) -> (r: Result<MessageRecord, String>)
    ensures
        match r {
            Ok(rec) => is_recordable(kind, *log) && records_log(rec, kind, *log),
            Err(_) => !is_recordable(kind, *log),
        },
{
    let timestamp = match parse_timestamp(log.timestamp.as_str()) {
        Some(t) => t,
        None => {
            return Err("input is not an RFC 3339 time".to_owned());
        },
    };
    match kind {
        SDKMessageTyped::User => {
            if !check_api_message(&log.message) {
                return Err("unexpected user log".to_owned());
            }
        },
        _ => {},
    }
    let body = log_frame(kind, log);
    Ok(
        MessageRecord {
            timestamp,
            message: CacheMessage::CliData(
                Arc::new(SDKMessage { session_id: log.session_id.clone(), typed: kind, body }),
            ),
        },
    )
}

/// Turns one line of a transcript into a record of the cache. Lines of the
/// user and of the assistant become records; every other line becomes
/// nothing. Fails where a line that should become a record cannot.
pub fn log_to_message_record(log: ClaudeLogTypes) -> (r: Result<Option<MessageRecord>, String>)
    ensures
        match log {
            ClaudeLogTypes::User(l) => match r {
                Ok(Some(rec)) => is_recordable(SDKMessageTyped::User, l) && records_log(
                    rec,
                    SDKMessageTyped::User,
                    l,
                ),
                Ok(None) => false,
                Err(_) => !is_recordable(SDKMessageTyped::User, l),
            },
            ClaudeLogTypes::Assistant(l) => match r {
                Ok(Some(rec)) => is_recordable(SDKMessageTyped::Assistant, l) && records_log(
                    rec,
                    SDKMessageTyped::Assistant,
                    l,
                ),
                Ok(None) => false,
                Err(_) => !is_recordable(SDKMessageTyped::Assistant, l),
            },
            _ => r matches Ok(None),
        },
{
    match log {
        ClaudeLogTypes::User(l) => {
            match message_record(SDKMessageTyped::User, &l) {
                Ok(rec) => Ok(Some(rec)),
                Err(e) => Err(e),
            }
        },
        ClaudeLogTypes::Assistant(l) => {
            match message_record(SDKMessageTyped::Assistant, &l) {
                Ok(rec) => Ok(Some(rec)),
                Err(e) => Err(e),
            }
        },
        ClaudeLogTypes::Summary(_) => Ok(None),
        ClaudeLogTypes::FileHistorySnapshot(_) => Ok(None),
        ClaudeLogTypes::System(_) => Ok(None),
    }
}

/// The kind of message that the line holds, where it holds one.
pub open spec fn content_kind(log: ClaudeLogTypes) -> Option<SDKMessageTyped> {
    match log {
        ClaudeLogTypes::User(_) => Some(SDKMessageTyped::User),
        ClaudeLogTypes::Assistant(_) => Some(SDKMessageTyped::Assistant),
        _ => None,
    }
}

/// The message that the line holds, where it holds one.
pub open spec fn content_log(log: ClaudeLogTypes) -> ClaudeLog {
    match log {
        ClaudeLogTypes::User(l) => l,
        ClaudeLogTypes::Assistant(l) => l,
        _ => arbitrary(),
    }
}

/// The lines among `logs` that hold a message, in order.
pub open spec fn content_lines(logs: Seq<ClaudeLogTypes>) -> Seq<ClaudeLogTypes> {
    logs.filter(|l: ClaudeLogTypes| content_kind(l) is Some)
}

/// Whether each line among `logs` that holds a message can become a record.
pub open spec fn all_recordable(logs: Seq<ClaudeLogTypes>) -> bool {
    forall|i: int|
        0 <= i < logs.len() && content_kind(#[trigger] logs[i]) is Some ==> is_recordable(
            content_kind(logs[i])->Some_0,
            content_log(logs[i]),
        )
}

/// Whether `recs` are the records of the lines `lines`, each of which holds
/// a message.
pub open spec fn records_lines(recs: Seq<MessageRecord>, lines: Seq<ClaudeLogTypes>) -> bool {
    &&& recs.len() == lines.len()
    &&& forall|k: int|
        0 <= k < recs.len() ==> content_kind(lines[k]) is Some && records_log(
            #[trigger] recs[k],
            content_kind(lines[k])->Some_0,
            content_log(lines[k]),
        )
}

/// Turns a transcript into the records that seed a session's cache: one
/// record for each line of the user or the assistant, in order. Fails where
/// one of those lines cannot become a record.
pub fn transcript_records(session: ClaudeSession) -> (r: Result<Vec<MessageRecord>, String>)
    ensures
        match r {
            Ok(recs) => all_recordable(session.logs@) && records_lines(
                recs@,
                content_lines(session.logs@),
            ),
            Err(_) => !all_recordable(session.logs@),
        },
{
    let mut out: Vec<MessageRecord> = Vec::new();
    let mut logs = session.logs;
    let ghost all = logs@;
    let ghost mut done: Seq<ClaudeLogTypes> = Seq::empty();
    let ghost keep = |l: ClaudeLogTypes| content_kind(l) is Some;
    assert(done + logs@ =~= all);
    assert(done.filter(keep) =~= Seq::<ClaudeLogTypes>::empty()) by {
        reveal(Seq::filter);
    }
    while logs.len() > 0
        invariant
            all == session.logs@,
            done + logs@ == all,
            keep == (|l: ClaudeLogTypes| content_kind(l) is Some),
            all_recordable(done),
            records_lines(out@, done.filter(keep)),
        decreases logs.len(),
    {
        let ghost rest = logs@;
        let ghost before = done;
        let ghost had = out@;
        let log = logs.remove(0);
        proof {
            assert(before.push(log) + logs@ =~= before + rest);
            assert(before.push(log).drop_last() =~= before);
            done = before.push(log);
            reveal(Seq::filter);
            assert(done.filter(keep) == if keep(log) {
                before.filter(keep).push(log)
            } else {
                before.filter(keep)
            });
            assert(all[before.len() as int] == log);
        }
        match log_to_message_record(log) {
            Ok(Some(rec)) => {
                out.push(rec);
                proof {
                    assert forall|k: int| 0 <= k < out@.len() implies content_kind(
                        done.filter(keep)[k],
                    ) is Some && records_log(
                        #[trigger] out@[k],
                        content_kind(done.filter(keep)[k])->Some_0,
                        content_log(done.filter(keep)[k]),
                    ) by {
                        if k < had.len() {
                            assert(out@[k] == had[k]);
                            assert(done.filter(keep)[k] == before.filter(keep)[k]);
                        }
                    }
                }
            },
            Ok(None) => {},
            Err(e) => {
                assert(!all_recordable(all));
                return Err(e);
            },
        }
        proof {
            assert forall|i: int|
                0 <= i < done.len() && content_kind(#[trigger] done[i]) is Some implies is_recordable(
                content_kind(done[i])->Some_0,
                content_log(done[i]),
            ) by {
                if i < before.len() {
                    assert(done[i] == before[i]);
                }
            }
        }
    }
    assert(done =~= all);
    Ok(out)
}

/// What a line of the user says, as far as a summary of the session needs
/// it.
pub enum UserText {
    /// The line is no line of the user, or holds neither text nor blocks.
    Nothing,
    /// The content is this text.
    Direct(Seq<char>),
    /// The content is a list of blocks; this is the text of the first block
    /// of text, if there is one.
    Blocks(Option<Seq<char>>),
}

/// Whether `v` is a block of text.
pub open spec fn is_text_block(v: Value) -> bool {
    json_text_member(v, "type"@) == Some("text"@) && json_text_member(v, "text"@) is Some
}

/// The text of the first block of text among `items`.
pub open spec fn first_text(items: Seq<Value>) -> Option<Seq<char>>
    decreases items.len(),
{
    if items.len() == 0 {
        None
    } else if is_text_block(items[0]) {
        json_text_member(items[0], "text"@)
    } else {
        first_text(items.subrange(1, items.len() as int))
    }
}

/// What the line `v` of a transcript says as a line of the user.
pub open spec fn user_text_of(v: Value) -> UserText {
    if json_text_member(v, "type"@) != Some("user"@) {
        UserText::Nothing
    } else {
        match json_member(v, "message"@) {
            None => UserText::Nothing,
            Some(m) => match json_member(m, "content"@) {
                None => UserText::Nothing,
                Some(c) => if json_string(c) is Some {
                    UserText::Direct(json_string(c)->Some_0)
                } else if json_items(c) is Some {
                    UserText::Blocks(first_text(json_items(c)->Some_0))
                } else {
                    UserText::Nothing
                },
            },
        }
    }
}

/// The time that the line `v` names.
pub open spec fn timestamp_of(v: Value) -> Option<i64> {
    match json_text_member(v, "timestamp"@) {
        Some(t) => rfc3339_millis(t),
        None => None,
    }
}

/// What is known of a session while its transcript is read from the end.
pub struct Scan {
    pub last_active: Option<i64>,
    pub last_user_input: Seq<char>,
}

/// What is known after the first `n` lines were read from the last of them
/// back to the first, starting from what `known` holds.
///
/// A line that is not JSON is passed over. The first time that is found is
/// kept. While no text of the user is known, a line of the user whose
/// content is a text gives that text and ends the reading at once, and one
/// whose content is a list of blocks gives the text of its first block of
/// text. The reading ends as soon as a time and a text are known.
pub open spec fn scan_back(lines: Seq<String>, n: int, known: Scan) -> Scan
    decreases n,
{
    if n <= 0 || n > lines.len() {
        known
    } else {
        match json_parse(lines[n - 1]@) {
            None => scan_back(lines, n - 1, known),
            Some(v) => {
                let time = if known.last_active is None {
                    timestamp_of(v)
                } else {
                    known.last_active
                };
                if known.last_user_input.len() > 0 {
                    let now = Scan { last_active: time, last_user_input: known.last_user_input };
                    if time is Some {
                        now
                    } else {
                        scan_back(lines, n - 1, now)
                    }
                } else {
                    match user_text_of(v) {
                        UserText::Direct(t) => Scan { last_active: time, last_user_input: t },
                        UserText::Blocks(Some(t)) => {
                            let now = Scan { last_active: time, last_user_input: t };
                            if time is Some && t.len() > 0 {
                                now
                            } else {
                                scan_back(lines, n - 1, now)
                            }
                        },
                        _ => scan_back(
                            lines,
                            n - 1,
                            Scan { last_active: time, last_user_input: known.last_user_input },
                        ),
                    }
                }
            },
        }
    }
}

/// The text of the first block of text among `items`.
fn find_first_text(items: &Vec<Value>) -> (r: Option<String>)
    ensures
        opt_text(r) == first_text(items@),
{
    let mut i: usize = 0;
    assert(items@.subrange(0, items@.len() as int) =~= items@);
    while i < items.len()
        invariant
            i <= items.len(),
            first_text(items@) == first_text(items@.subrange(i as int, items@.len() as int)),
        decreases items.len() - i,
    {
        let ghost tail = items@.subrange(i as int, items@.len() as int);
        proof {
            assert(tail[0] == items@[i as int]);
            assert(tail.subrange(1, tail.len() as int) =~= items@.subrange(
                i + 1,
                items@.len() as int,
            ));
        }
        let is_text = match text_member(&items[i], "type") {
            Some(t) => same_text(t.as_str(), "text"),
            None => false,
        };
        if is_text {
            match text_member(&items[i], "text") {
                Some(t) => {
                    return Some(t);
                },
                None => {},
            }
        }
        i = i + 1;
    }
    None
}

/// What the line `v` says as a line of the user: the text, and whether it
/// is the content itself.
fn user_text(v: &Value) -> (r: Option<(String, bool)>)
    ensures
        match user_text_of(*v) {
            UserText::Nothing => r is None,
            UserText::Direct(t) => r matches Some((s, direct)) && s@ == t && direct,
            UserText::Blocks(Some(t)) => r matches Some((s, direct)) && s@ == t && !direct,
            UserText::Blocks(None) => r is None,
        },
{
    let is_user = match text_member(v, "type") {
        Some(t) => same_text(t.as_str(), "user"),
        None => false,
    };
    if !is_user {
        return None;
    }
    let message = match json_get(v, "message") {
        Some(m) => m,
        None => {
            return None;
        },
    };
    let content = match json_get(message, "content") {
        Some(c) => c,
        None => {
            return None;
        },
    };
    match json_as_string(content) {
        Some(s) => {
            return Some((s, true));
        },
        None => {},
    }
    match json_array_items(content) {
        Some(items) => {
            match find_first_text(&items) {
                Some(t) => Some((t, false)),
                None => None,
            }
        },
        None => None,
    }
}

/// What the transcript with the lines `lines` says about its session
/// `session_id`: when it was last active and what the user typed last.
/// `None` where no line names a time.
pub fn session_info(session_id: String, lines: &Vec<String>) -> (r: Option<ClaudeSessionInfo>)
    ensures
        ({
            let found = scan_back(
                lines@,
                lines@.len() as int,
                Scan { last_active: None, last_user_input: seq![] },
            );
            match r {
                Some(info) => {
                    &&& info.session_id == session_id
                    &&& found.last_active == Some(info.last_active)
                    &&& info.last_user_input@ == found.last_user_input
                },
                None => found.last_active is None,
            }
        }),
{
    let mut last_active: Option<i64> = None;
    let mut last_user_input = String::new();
    let mut n: usize = lines.len();
    let ghost start = Scan { last_active: None, last_user_input: seq![] };
    while n > 0
        invariant_except_break
            scan_back(lines@, lines@.len() as int, start) == scan_back(
                lines@,
                n as int,
                Scan { last_active, last_user_input: last_user_input@ },
            ),
        invariant
            n <= lines.len(),
        ensures
            scan_back(lines@, lines@.len() as int, start) == (Scan {
                last_active,
                last_user_input: last_user_input@,
            }),
        decreases n,
    {
        let v = match parse_json(lines[n - 1].as_str()) {
            Ok(v) => v,
            Err(_) => {
                n = n - 1;
                continue ;
            },
        };
        if last_active.is_none() {
            last_active = match text_member(&v, "timestamp") {
                Some(t) => parse_timestamp(t.as_str()),
                None => None,
            };
        }
        if last_user_input.unicode_len() == 0 {
            match user_text(&v) {
                Some((text, direct)) => {
                    last_user_input = text;
                    if direct {
                        break ;
                    }
                },
                None => {},
            }
        }
        if last_active.is_some() && last_user_input.unicode_len() > 0 {
            break ;
        }
        n = n - 1;
    }
    match last_active {
        Some(t) => Some(ClaudeSessionInfo { session_id, last_user_input, last_active: t }),
        None => None,
    }
}

} // verus!
