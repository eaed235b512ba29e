//! The chat manager: the one owner of the tables that route messages
//! between connections, chats and sessions.

use crate::server::chat_table::ChatTable;
use crate::server::message::{
    share, ChatId, ClientMessage, ClientMessageData, ServerError, ServerMessage, ServerMessageData,
};
use crate::server::model::{
    cached_form, is_expired, lag_start, last_user_input, lemma_attach_session_wf,
    lemma_cli_message_wf, lemma_connection_closed_wf, lemma_delivery_failed_wf,
    lemma_new_connect_wf, lemma_record_input_wf, lemma_register_chat_wf,
    lemma_replay_bounds, lemma_replay_settled_wf, lemma_resume_active_wf, lemma_stop_none,
    lemma_stop_one_more, lemma_stop_sessions_wf, replay_form, replayable_from, CacheMessage,
    ManagerView, MessageRecord, SessionView,
};
use crate::table::{
    as_map, index_of, lemma_as_map_absent, lemma_as_map_at, lemma_as_map_empty, lemma_as_map_key,
    lemma_as_map_push, lemma_as_map_remove, lemma_as_map_update, lemma_as_map_values, unique_keys,
};
use crate::text::{opt_text, same_text};
use crate::types::can_use_tool::PermissionResult;
use crate::types::options::PermissionMode;
use std::sync::Arc;
use vstd::prelude::*;

verus! {

/// The number of a connection.
#[derive(Clone, Copy, Debug, PartialEq, Eq, Structural, Hash)]
pub struct ConnId(pub u32);

/// The number that follows `n`, starting again at zero after the largest.
pub open spec fn wrapping_next(n: u32) -> u32 {
    if n == u32::MAX {
        0
    } else {
        (n + 1) as u32
    }
}

impl ConnId {
    /// Hands out the number that `counter` holds and moves the counter on.
    pub fn generate(counter: &mut u32) -> (r: ConnId)
        ensures
            r.0 == *old(counter),
            *final(counter) == wrapping_next(*old(counter)),
    {
        let id = *counter;
        *counter = if id == u32::MAX {
            0
        } else {
            id + 1
        };
        ConnId(id)
    }
}

/// The number of a session.
#[derive(Clone, Copy, Debug, PartialEq, Eq, Structural, Hash)]
pub struct CliId(pub u32);

impl CliId {
    /// Hands out the number that `counter` holds and moves the counter on.
    pub fn next(counter: &mut u32) -> (r: CliId)
        ensures
            r.0 == *old(counter),
            *final(counter) == wrapping_next(*old(counter)),
    {
        let id = *counter;
        *counter = if id == u32::MAX {
            0
        } else {
            id + 1
        };
        CliId(id)
    }
}

/// One live session.
pub struct CliSession {
    pub cli_id: CliId,
    pub session_id: Option<String>,
    pub work_dir: String,
    pub created_at: i64,
    pub last_activity: i64,
    pub messages: Vec<MessageRecord>,
    /// The subscriber.
    pub chat: Option<ChatId>,
    pub lag_count: u32,
}

impl View for CliSession {
    type V = SessionView;

    open spec fn view(&self) -> SessionView {
        SessionView {
            session_id: opt_text(self.session_id),
            work_dir: self.work_dir@,
            created_at: self.created_at,
            last_activity: self.last_activity,
            messages: self.messages@,
            subscriber: opt_text(self.chat),
            lag_count: self.lag_count,
        }
    }
}

/// The sessions as pairs of number and view.
pub open spec fn session_pairs(sessions: Seq<CliSession>) -> Seq<(u32, SessionView)> {
    sessions.map_values(|s: CliSession| (s.cli_id.0, s@))
}

/// Changing the session at `i`, and not its number, changes the map of
/// sessions at that number.
pub proof fn lemma_sessions_updated(before: Seq<CliSession>, after: Seq<CliSession>, i: int)
    requires
        unique_keys(session_pairs(before)),
        0 <= i < before.len(),
        after.len() == before.len(),
        after[i].cli_id == before[i].cli_id,
        forall|j: int| 0 <= j < before.len() && j != i ==> after[j] == before[j],
    ensures
        unique_keys(session_pairs(after)),
        as_map(session_pairs(after)) == as_map(session_pairs(before)).insert(
            before[i].cli_id.0,
            after[i]@,
        ),
{
    let b = session_pairs(before);
    lemma_as_map_update(b, i, after[i]@);
    assert(session_pairs(after) =~= b.update(i, (b[i].0, after[i]@)));
}

/// A second handle on what a cached message holds.
pub fn share_message(m: &CacheMessage) -> (r: CacheMessage)
    ensures
        r == *m,
{
    match m {
        CacheMessage::UserInput(t) => CacheMessage::UserInput(share(t)),
        CacheMessage::CliData(d) => CacheMessage::CliData(share(d)),
        CacheMessage::SystemInfo(i) => CacheMessage::SystemInfo(share(i)),
        CacheMessage::CanUseTool(p) => CacheMessage::CanUseTool(share(p)),
        CacheMessage::PermissionResp(p) => CacheMessage::PermissionResp(share(p)),
    }
}

/// A second handle on a cached record.
pub fn share_record(r: &MessageRecord) -> (c: MessageRecord)
    ensures
        c == *r,
{
    MessageRecord { timestamp: r.timestamp, message: share_message(&r.message) }
}

/// Second handles on all records of a cache, in order.
pub fn share_records(records: &Vec<MessageRecord>) -> (r: Vec<MessageRecord>)
    ensures
        r@ == records@,
{
    let mut out: Vec<MessageRecord> = Vec::new();
    let mut i: usize = 0;
    while i < records.len()
        invariant
            i <= records.len(),
            out@ == records@.take(i as int),
        decreases records.len() - i,
    {
        out.push(share_record(&records[i]));
        assert(out@ =~= records@.take(i + 1));
        i = i + 1;
    }
    assert(records@.take(records.len() as int) =~= records@);
    out
}

/// What the cache keeps of a message from a session.
pub fn cache_form(data: &ServerMessageData) -> (r: Option<CacheMessage>)
    ensures
        r == cached_form(*data),
{
    match data {
        ServerMessageData::Claude(m) => Some(CacheMessage::CliData(share(m))),
        ServerMessageData::SystemInfo(i) => Some(CacheMessage::SystemInfo(share(i))),
        ServerMessageData::CanUseTool(p) => Some(CacheMessage::CanUseTool(share(p))),
        ServerMessageData::ServerError(_) => None,
        ServerMessageData::ChatRemoved => None,
    }
}

/// What a cached message is replayed as.
pub fn replay_of(m: &CacheMessage) -> (r: Option<ServerMessageData>)
    ensures
        r == replay_form(*m),
{
    match m {
        CacheMessage::UserInput(_) => None,
        CacheMessage::CliData(d) => Some(ServerMessageData::Claude(share(d))),
        CacheMessage::SystemInfo(i) => Some(ServerMessageData::SystemInfo(share(i))),
        CacheMessage::CanUseTool(p) => Some(ServerMessageData::CanUseTool(share(p))),
        CacheMessage::PermissionResp(_) => None,
    }
}

/// Whether `msgs` are the messages `data`, in order, each addressed to
/// `chat`.
pub open spec fn replay_is(
    msgs: Seq<ServerMessage>,
    chat: Seq<char>,
    data: Seq<ServerMessageData>,
) -> bool {
    &&& msgs.len() == data.len()
    &&& forall|k: int|
        0 <= k < msgs.len() ==> (#[trigger] msgs[k]).chat_id@ == chat && msgs[k].data == data[k]
}

/// The numbers of a sequence of places.
pub open spec fn places(v: Seq<usize>) -> Seq<int> {
    v.map_values(|i: usize| i as int)
}

impl CliSession {
    /// The text that the user typed last.
    pub fn last_user_input(&self) -> (r: Option<Arc<String>>)
        ensures
            r == last_user_input(self@.messages),
    {
        let mut i: usize = self.messages.len();
        assert(self.messages@.take(i as int) =~= self.messages@);
        while i > 0
            invariant
                i <= self.messages.len(),
                last_user_input(self.messages@) == last_user_input(self.messages@.take(i as int)),
            decreases i,
        {
            let ghost head = self.messages@.take(i as int);
            proof {
                assert(head.drop_last() =~= self.messages@.take(i - 1));
                assert(head.last() == self.messages@[i - 1]);
            }
            match &self.messages[i - 1].message {
                CacheMessage::UserInput(t) => {
                    return Some(share(t));
                },
                _ => {},
            }
            i = i - 1;
        }
        assert(self.messages@.take(0).len() == 0);
        None
    }

    /// The places of the lagged records that can be replayed.
    pub fn replay_places(&self) -> (r: Vec<usize>)
        ensures
            places(r@) == self@.replay_places(),
            forall|k: int| 0 <= k < r.len() ==> (#[trigger] r@[k]) < self.messages.len(),
    {
        let len = self.messages.len();
        let start: usize = if self.lag_count as usize >= len {
            0
        } else {
            len - self.lag_count as usize
        };
        let mut out: Vec<usize> = Vec::new();
        let mut i: usize = start;
        assert(places(out@) + replayable_from(self.messages@, i as int) =~= replayable_from(
            self.messages@,
            start as int,
        ));
        while i < len
            invariant
                start <= i <= len,
                len == self.messages.len(),
                places(out@) + replayable_from(self.messages@, i as int) == replayable_from(
                    self.messages@,
                    start as int,
                ),
                forall|k: int| 0 <= k < out.len() ==> (#[trigger] out@[k]) < len,
            decreases len - i,
        {
            let ghost before = places(out@);
            if replay_of(&self.messages[i].message).is_some() {
                out.push(i);
                assert(places(out@) =~= before.push(i as int));
                assert(places(out@) + replayable_from(self.messages@, i + 1) =~= before
                    + replayable_from(self.messages@, i as int));
            }
            i = i + 1;
        }
        assert(places(out@) =~= replayable_from(self.messages@, start as int));
        out
    }

    /// The messages that a replay to `chat` sends, in order.
    pub fn replay_messages(&self, chat: &str) -> (r: Vec<ServerMessage>)
        ensures
            replay_is(r@, chat@, self@.replay_data()),
    {
        let at = self.replay_places();
        let mut out: Vec<ServerMessage> = Vec::new();
        let mut k: usize = 0;
        while k < at.len()
            invariant
                k <= at.len(),
                places(at@) == self@.replay_places(),
                forall|j: int| 0 <= j < at.len() ==> (#[trigger] at@[j]) < self.messages.len(),
                out.len() == k,
                forall|j: int|
                    0 <= j < k ==> (#[trigger] out@[j]).chat_id@ == chat@ && out@[j].data
                        == self@.replay_data()[j],
            decreases at.len() - k,
        {
            proof {
                assert(places(at@)[k as int] == at@[k as int] as int);
                lemma_replay_bounds(self.messages@, lag_start(self.messages@.len(), self.lag_count), k as int);
            }
            match replay_of(&self.messages[at[k]].message) {
                Some(data) => {
                    out.push(ServerMessage { chat_id: chat.to_owned(), data });
                },
                None => {},
            }
            k = k + 1;
        }
        out
    }
}

/// The outcome of a registration: the lagged messages of the session that
/// the chat is bound to, to be sent through the connection in order.
#[derive(Clone, Debug, PartialEq)]
pub struct Replay {
    /// The session that the chat is bound to.
    pub cli: Option<CliId>,
    pub conn: ConnId,
    pub messages: Vec<ServerMessage>,
}

/// A message for a subscriber and the connection to send it through.
#[derive(Clone, Debug, PartialEq)]
pub struct Delivery {
    pub conn: ConnId,
    pub msg: ServerMessage,
}

/// What the manager tells a session to do.
#[derive(Clone, Debug, PartialEq)]
pub enum SessionCommand {
    UserInput(Arc<String>),
    PermissionResp(Arc<PermissionResult>),
    SetMode(PermissionMode),
    GetInfo,
    Interrupt,
    Stop,
}

/// Something that a step of the manager asks to be done.
#[derive(Clone, Debug, PartialEq)]
pub enum ManagerAction {
    /// Send `msg` through the connection `conn`.
    Send { conn: ConnId, msg: ServerMessage },
    /// Hand `command` to the session `cli_id`.
    Forward { cli_id: CliId, command: SessionCommand },
}

/// What a client is told when its chat has no session.
pub open spec fn no_session_text() -> Seq<char> {
    "No session is bound to this chat. It may be subscribed by another user."@
}

/// What a client is told when its session can no longer be reached.
pub open spec fn session_closed_text() -> Seq<char> {
    "Session closed"@
}

/// Whether `a` sends `data` to `chat` through the connection `conn`.
pub open spec fn is_send(a: ManagerAction, conn: u32, chat: Seq<char>, data: ServerMessageData) -> bool {
    &&& a matches ManagerAction::Send { conn: c, msg }
    &&& c.0 == conn
    &&& msg.chat_id@ == chat
    &&& msg.data == data
}

/// Whether `a` sends the error `text` to `chat` through the connection
/// `conn`.
pub open spec fn is_error_send(a: ManagerAction, conn: u32, chat: Seq<char>, text: Seq<char>) -> bool {
    &&& a matches ManagerAction::Send { conn: c, msg }
    &&& c.0 == conn
    &&& msg.chat_id@ == chat
    &&& msg.data matches ServerMessageData::ServerError(e)
    &&& e.error@ == text
}

/// Whether `actions` report the error `text` to `chat`: one message where the
/// chat is registered, nothing where it is not.
pub open spec fn reports_error(
    v: ManagerView,
    chat: Seq<char>,
    text: Seq<char>,
    actions: Seq<ManagerAction>,
) -> bool {
    if v.chat_to_conn.contains_key(chat) {
        actions.len() == 1 && is_error_send(actions[0], v.chat_to_conn[chat], chat, text)
    } else {
        actions.len() == 0
    }
}

/// Whether `actions` hand `command` to the session that `chat` is bound to,
/// or, where it is bound to none, report that to the chat.
pub open spec fn forwards_or_reports(
    v: ManagerView,
    chat: Seq<char>,
    command: SessionCommand,
    actions: Seq<ManagerAction>,
) -> bool {
    if v.chat_to_cli.contains_key(chat) {
        actions.len() == 1 && actions[0] == (ManagerAction::Forward {
            cli_id: CliId(v.chat_to_cli[chat]),
            command,
        })
    } else {
        reports_error(v, chat, no_session_text(), actions)
    }
}

/// Whether `actions` are what stopping the session `cli` asks for: nothing
/// where no such session lives; else the command to stop and then, where a
/// registered chat is bound to the session, the notice that the chat is
/// removed.
pub open spec fn stops_session(v: ManagerView, cli: u32, actions: Seq<ManagerAction>) -> bool {
    if !v.sessions.contains_key(cli) {
        actions.len() == 0
    } else {
        &&& actions.len() >= 1
        &&& actions[0] == (ManagerAction::Forward { cli_id: CliId(cli), command: SessionCommand::Stop })
        &&& if v.has_chat_of(cli) && v.chat_to_conn.contains_key(v.chat_of(cli)) {
            actions.len() == 2 && is_send(
                actions[1],
                v.chat_to_conn[v.chat_of(cli)],
                v.chat_of(cli),
                ServerMessageData::ChatRemoved,
            )
        } else {
            actions.len() == 1
        }
    }
}

/// Whether `a` is part of stopping the sessions in `dead`: the command to
/// stop for one of them, or the removal notice for a registered chat that is
/// bound to one of them.
pub open spec fn is_stop_action(v: ManagerView, dead: Set<u32>, a: ManagerAction) -> bool {
    ||| {
        &&& a matches ManagerAction::Forward { cli_id, command }
        &&& command is Stop
        &&& dead.contains(cli_id.0)
        &&& v.sessions.contains_key(cli_id.0)
    }
    ||| {
        &&& a matches ManagerAction::Send { conn, msg }
        &&& msg.data is ChatRemoved
        &&& v.bound_into(msg.chat_id@, dead)
        &&& v.chat_to_conn.contains_key(msg.chat_id@)
        &&& conn.0 == v.chat_to_conn[msg.chat_id@]
    }
}

/// Whether some action tells the session `cli` to stop.
pub open spec fn has_stop(actions: Seq<ManagerAction>, cli: u32) -> bool {
    exists|k: int|
        0 <= k < actions.len() && #[trigger] actions[k] == (ManagerAction::Forward {
            cli_id: CliId(cli),
            command: SessionCommand::Stop,
        })
}

/// Whether some action tells `chat`, through `conn`, that it is removed.
pub open spec fn has_removal(actions: Seq<ManagerAction>, conn: u32, chat: Seq<char>) -> bool {
    exists|k: int|
        0 <= k < actions.len() && is_send(
            #[trigger] actions[k],
            conn,
            chat,
            ServerMessageData::ChatRemoved,
        )
}

/// Whether `actions` are what stopping the live sessions in `dead` asks for:
/// each of them is told to stop, each registered chat that is bound to one of
/// them is told that it is removed, and nothing else is asked.
pub open spec fn stops_all(v: ManagerView, dead: Set<u32>, actions: Seq<ManagerAction>) -> bool {
    &&& forall|k: int| 0 <= k < actions.len() ==> is_stop_action(v, dead, #[trigger] actions[k])
    &&& forall|cli: u32|
        dead.contains(cli) && #[trigger] v.sessions.contains_key(cli) ==> has_stop(actions, cli)
    &&& forall|chat: Seq<char>|
        v.bound_into(chat, dead) && #[trigger] v.chat_to_conn.contains_key(chat) ==> has_removal(
            actions,
            v.chat_to_conn[chat],
            chat,
        )
}

/// The actions of stopping one more session, after those of stopping some
/// others, are the actions of stopping them together.
pub proof fn lemma_stops_one_more(
    v: ManagerView,
    dead: Set<u32>,
    cli: u32,
    before: Seq<ManagerAction>,
    step: Seq<ManagerAction>,
)
    requires
        v.wf(),
        stops_all(v, dead, before),
        stops_session(v.stop_sessions(dead), cli, step),
    ensures
        stops_all(v, dead.insert(cli), before + step),
{
    let w = v.stop_sessions(dead);
    let all = before + step;
    let more = dead.insert(cli);
    assert forall|k: int| 0 <= k < all.len() implies is_stop_action(v, more, #[trigger] all[k]) by {
        if k < before.len() {
            assert(all[k] == before[k]);
            assert(is_stop_action(v, dead, before[k]));
        } else {
            let j = k - before.len();
            assert(all[k] == step[j]);
            assert(w.sessions.contains_key(cli));
            if j == 1 {
                let c = w.chat_of(cli);
                assert(w.chat_to_cli.contains_key(c) && w.chat_to_cli[c] == cli);
            }
        }
    }
    assert forall|s: u32| more.contains(s) && #[trigger] v.sessions.contains_key(s) implies has_stop(
        all,
        s,
    ) by {
        if dead.contains(s) {
            let k = choose|k: int|
                0 <= k < before.len() && #[trigger] before[k] == (ManagerAction::Forward {
                    cli_id: CliId(s),
                    command: SessionCommand::Stop,
                });
            assert(all[k] == before[k]);
        } else {
            assert(w.sessions.contains_key(cli));
            assert(all[before.len() as int] == step[0]);
        }
    }
    assert forall|chat: Seq<char>|
        v.bound_into(chat, more) && #[trigger] v.chat_to_conn.contains_key(chat) implies has_removal(
        all,
        v.chat_to_conn[chat],
        chat,
    ) by {
        if v.bound_into(chat, dead) {
            let k = choose|k: int|
                0 <= k < before.len() && is_send(
                    #[trigger] before[k],
                    v.chat_to_conn[chat],
                    chat,
                    ServerMessageData::ChatRemoved,
                );
            assert(all[k] == before[k]);
        } else {
            assert(v.chat_to_cli[chat] == cli);
            assert(v.sessions.contains_key(cli));
            assert(w.sessions.contains_key(cli));
            assert(w.chat_to_cli.contains_key(chat) && w.chat_to_cli[chat] == cli);
            assert(w.has_chat_of(cli));
            let c = w.chat_of(cli);
            assert(w.chat_to_cli.contains_key(c) && w.chat_to_cli[c] == cli);
            assert(v.chat_to_cli[c] == v.chat_to_cli[chat]);
            assert(c == chat);
            assert(w.chat_to_conn.contains_key(chat));
            assert(all[before.len() as int + 1] == step[1]);
        }
    }
}

/// What a caller learns about a live session.
#[derive(Clone, Debug, PartialEq)]
pub struct SessionInfo {
    pub session_id: String,
    pub work_dir: String,
    pub created_at: i64,
    pub last_activity: i64,
    pub message_count: usize,
    pub last_user_input: Option<Arc<String>>,
}

/// Whether `info` describes the session `s`, which has a name.
pub open spec fn describes(info: SessionInfo, s: SessionView) -> bool {
    &&& s.session_id == Some(info.session_id@)
    &&& info.work_dir@ == s.work_dir
    &&& info.created_at == s.created_at
    &&& info.last_activity == s.last_activity
    &&& info.message_count == s.messages.len()
    &&& info.last_user_input == last_user_input(s.messages)
}

/// Whether `info` describes a live session that works in `work_dir`.
pub open spec fn describes_one(v: ManagerView, work_dir: Seq<char>, info: SessionInfo) -> bool {
    exists|s: u32| #[trigger]
        v.sessions.contains_key(s) && v.sessions[s].work_dir == work_dir && describes(
            info,
            v.sessions[s],
        )
}

/// Whether one of `infos` describes the session `s`.
pub open spec fn is_listed(infos: Seq<SessionInfo>, s: SessionView) -> bool {
    exists|k: int| 0 <= k < infos.len() && describes(#[trigger] infos[k], s)
}

/// Whether `infos` describe the named live sessions that work in `work_dir`:
/// each of them once, and nothing else.
pub open spec fn lists_sessions(v: ManagerView, work_dir: Seq<char>, infos: Seq<SessionInfo>) -> bool {
    &&& forall|k: int| 0 <= k < infos.len() ==> describes_one(v, work_dir, #[trigger] infos[k])
    &&& forall|s: u32| #[trigger]
        v.sessions.contains_key(s) && v.sessions[s].work_dir == work_dir
            && v.sessions[s].session_id is Some ==> is_listed(infos, v.sessions[s])
    &&& forall|j: int, k: int|
        0 <= j < infos.len() && 0 <= k < infos.len() && j != k ==> (#[trigger] infos[j]).session_id@
            != (#[trigger] infos[k]).session_id@
}

/// What a caller asks for when it starts a chat.
#[derive(Clone, Debug, PartialEq)]
pub struct StartChatOptions {
    pub chat_id: String,
    pub work_dir: String,
    pub mode: Option<PermissionMode>,
    /// The settings profile that the child is started with.
    pub config_name: Option<String>,
    /// The name of the session to go on with.
    pub resume: Option<String>,
}

/// Why a chat cannot be started.
#[derive(Clone, Debug, PartialEq)]
pub enum StartChatError {
    /// The chat is not registered on a connection.
    ChatNotRegistered,
    /// No settings profile has the name asked for.
    ConfigNotFound(String),
    /// The session to go on with is neither alive nor on disk.
    SessionNotFound,
}

/// An error that no caller is expected to handle.
#[derive(Clone, Debug, PartialEq)]
pub struct SystemError {
    pub message: String,
}

/// The result of a request: a value, an error that the caller is expected to
/// handle, or a system error.
pub type BizResult<T, E> = Result<Result<T, E>, SystemError>;

/// How a chat is started.
#[derive(Clone, Debug, PartialEq)]
pub enum StartPlan {
    /// Not at all.
    Rejected(StartChatError),
    /// With a new child and a new session.
    Spawn,
    /// By taking over the live session.
    ResumeActive(CliId),
    /// With a new child that goes on with the session whose transcript is on
    /// disk.
    LoadTranscript,
}

/// The plan for starting `chat`, which may ask to go on with the session
/// named `resume`.
pub open spec fn start_plan(v: ManagerView, chat: Seq<char>, resume: Option<Seq<char>>) -> StartPlan {
    if !v.chat_to_conn.contains_key(chat) {
        StartPlan::Rejected(StartChatError::ChatNotRegistered)
    } else if resume is None {
        StartPlan::Spawn
    } else if v.has_session_id(resume->Some_0) {
        StartPlan::ResumeActive(CliId(v.session_named(resume->Some_0)))
    } else {
        StartPlan::LoadTranscript
    }
}

/// What taking over a session yields: the session's whole cache, and what is
/// to be done.
pub struct Resumed {
    pub messages: Vec<MessageRecord>,
    pub actions: Vec<ManagerAction>,
}

/// Whether the session `cli` has a registered chat other than `chat` bound to
/// it.
pub open spec fn displaces(v: ManagerView, chat: Seq<char>, cli: u32) -> bool {
    v.has_chat_of(cli) && v.chat_of(cli) != chat && v.chat_to_conn.contains_key(v.chat_of(cli))
}

/// Whether `actions` are what a take-over of the session `cli` by `chat` asks
/// for: first the removal notice for a registered chat that was bound to the
/// session, then the change of mode, each where there is one.
pub open spec fn resume_actions(
    v: ManagerView,
    chat: Seq<char>,
    cli: u32,
    mode: Option<PermissionMode>,
    actions: Seq<ManagerAction>,
) -> bool {
    let notices: int = if displaces(v, chat, cli) {
        1
    } else {
        0
    };
    &&& actions.len() == notices + if mode is Some {
        1int
    } else {
        0int
    }
    &&& displaces(v, chat, cli) ==> is_send(
        actions[0],
        v.chat_to_conn[v.chat_of(cli)],
        v.chat_of(cli),
        ServerMessageData::ChatRemoved,
    )
    &&& mode is Some ==> actions[notices] == (ManagerAction::Forward {
        cli_id: CliId(cli),
        command: SessionCommand::SetMode(mode->Some_0),
    })
}

/// The outcome of a client's message.
pub enum ClientStep {
    /// The chat registered; the lagged messages are to be replayed.
    Registered(Replay),
    /// Anything else.
    Done(Vec<ManagerAction>),
}

/// How long a session may be idle before it is stopped, unless the manager
/// is told otherwise: ten minutes.
pub const DEFAULT_IDLE_TTL_MS: i64 = 600_000;

/// The tables of the chat manager.
pub struct ChatManager {
    connections: Vec<u32>,
    chat_to_conn: ChatTable,
    chat_to_cli: ChatTable,
    cli_sessions: Vec<CliSession>,
    next_cli: u32,
    idle_ttl_ms: i64,
}

impl View for ChatManager {
    type V = ManagerView;

    closed spec fn view(&self) -> ManagerView {
        ManagerView {
            connections: Set::new(|c: u32| self.connections@.contains(c)),
            chat_to_conn: self.chat_to_conn@,
            chat_to_cli: self.chat_to_cli@,
            sessions: as_map(session_pairs(self.cli_sessions@)),
            next_cli: self.next_cli,
            idle_ttl_ms: self.idle_ttl_ms,
        }
    }
}

impl ChatManager {
    /// The tables hold each chat and each session once.
    pub closed spec fn rep(&self) -> bool {
        &&& self.chat_to_conn.wf()
        &&& self.chat_to_cli.wf()
        &&& unique_keys(session_pairs(self.cli_sessions@))
    }

    /// The manager is in a state that its steps can start from.
    pub open spec fn wf(&self) -> bool {
        self.rep() && self@.wf()
    }

    /// A manager without connections, chats or sessions, which stops a
    /// session when it has been idle for more than `idle_ttl_ms`
    /// milliseconds.
    pub fn with_idle_ttl(idle_ttl_ms: i64) -> (r: Self)
        ensures
            r.wf(),
            r@ == ManagerView::empty(idle_ttl_ms),
    {
        let r = ChatManager {
            connections: Vec::new(),
            chat_to_conn: ChatTable::new(),
            chat_to_cli: ChatTable::new(),
            cli_sessions: Vec::new(),
            next_cli: 0,
            idle_ttl_ms,
        };
        proof {
            lemma_as_map_empty::<u32, SessionView>();
            assert(session_pairs(r.cli_sessions@) =~= Seq::<(u32, SessionView)>::empty());
            assert(r@.connections =~= Set::<u32>::empty());
        }
        r
    }

    /// A manager without connections, chats or sessions, with the default
    /// idle time.
    pub fn new() -> (r: Self)
        ensures
            r.wf(),
            r@ == ManagerView::empty(DEFAULT_IDLE_TTL_MS),
    {
        Self::with_idle_ttl(DEFAULT_IDLE_TTL_MS)
    }

    /// Whether the connection `conn` is open.
    pub fn has_connection(&self, conn: ConnId) -> (r: bool)
        ensures
            r == self@.connections.contains(conn.0),
    {
        let mut i: usize = 0;
        while i < self.connections.len()
            invariant
                i <= self.connections.len(),
                forall|j: int| 0 <= j < i ==> self.connections@[j] != conn.0,
            decreases self.connections.len() - i,
        {
            if self.connections[i] == conn.0 {
                return true;
            }
            i = i + 1;
        }
        false
    }

    /// A connection opens.
    pub fn new_connect(&mut self, conn: ConnId)
        requires
            old(self).wf(),
        ensures
            final(self).wf(),
            final(self)@ == old(self)@.new_connect(conn.0),
    {
        proof {
            lemma_new_connect_wf(self@, conn.0);
        }
        if !self.has_connection(conn) {
            self.connections.push(conn.0);
        }
        proof {
            let before = old(self).connections@;
            if before.contains(conn.0) {
                assert(self@.connections =~= old(self)@.connections.insert(conn.0));
            } else {
                assert forall|c: u32| self.connections@.contains(c) <==> (before.contains(c) || c
                    == conn.0) by {
                    if before.contains(c) {
                        let j = choose|j: int| 0 <= j < before.len() && before[j] == c;
                        assert(self.connections@[j] == c);
                    }
                    if c == conn.0 {
                        assert(self.connections@[before.len() as int] == c);
                    }
                }
                assert(self@.connections =~= old(self)@.connections.insert(conn.0));
            }
        }
    }

    /// Forgets the connection `conn`.
    fn drop_connection(&mut self, conn: u32)
        ensures
            Set::new(|c: u32| final(self).connections@.contains(c)) == Set::new(
                |c: u32| old(self).connections@.contains(c),
            ).remove(conn),
            final(self).chat_to_conn == old(self).chat_to_conn,
            final(self).chat_to_cli == old(self).chat_to_cli,
            final(self).cli_sessions == old(self).cli_sessions,
            final(self).next_cli == old(self).next_cli,
            final(self).idle_ttl_ms == old(self).idle_ttl_ms,
    {
        let mut i: usize = 0;
        while i < self.connections.len()
            invariant
                i <= self.connections.len(),
                forall|j: int| 0 <= j < i ==> self.connections@[j] != conn,
                forall|c: u32|
                    c != conn ==> (self.connections@.contains(c) <==> old(
                        self,
                    ).connections@.contains(c)),
                self.chat_to_conn == old(self).chat_to_conn,
                self.chat_to_cli == old(self).chat_to_cli,
                self.cli_sessions == old(self).cli_sessions,
                self.next_cli == old(self).next_cli,
                self.idle_ttl_ms == old(self).idle_ttl_ms,
            decreases self.connections.len() - i,
        {
            if self.connections[i] == conn {
                let ghost before = self.connections@;
                self.connections.remove(i);
                proof {
                    assert forall|c: u32| c != conn implies (self.connections@.contains(c)
                        <==> before.contains(c)) by {
                        if before.contains(c) {
                            let j = choose|j: int| 0 <= j < before.len() && before[j] == c;
                            if j < i {
                                assert(self.connections@[j] == c);
                            } else {
                                assert(self.connections@[j - 1] == c);
                            }
                        }
                        if self.connections@.contains(c) {
                            let j = choose|j: int|
                                0 <= j < self.connections@.len() && self.connections@[j] == c;
                            if j < i {
                                assert(before[j] == c);
                            } else {
                                assert(before[j + 1] == c);
                            }
                        }
                    }
                }
            } else {
                i = i + 1;
            }
        }
        assert(Set::new(|c: u32| self.connections@.contains(c)) =~= Set::new(
            |c: u32| old(self).connections@.contains(c),
        ).remove(conn));
    }

    /// A connection closes. Its chats are no longer registered, and the
    /// sessions that they subscribed to have no subscriber; no session stops.
    pub fn connection_closed(&mut self, conn: ConnId)
        requires
            old(self).wf(),
        ensures
            final(self).wf(),
            final(self)@ == old(self)@.connection_closed(conn.0),
    {
        proof {
            lemma_connection_closed_wf(self@, conn.0);
        }
        let ghost v = self@;
        let mut i: usize = 0;
        while i < self.cli_sessions.len()
            invariant
                i <= self.cli_sessions.len(),
                self.cli_sessions.len() == old(self).cli_sessions.len(),
                self.connections == old(self).connections,
                self.chat_to_conn == old(self).chat_to_conn,
                self.chat_to_cli == old(self).chat_to_cli,
                self.next_cli == old(self).next_cli,
                self.idle_ttl_ms == old(self).idle_ttl_ms,
                old(self).rep(),
                v == old(self)@,
                forall|j: int|
                    0 <= j < i ==> (#[trigger] session_pairs(self.cli_sessions@)[j]) == (
                        old(self).cli_sessions@[j].cli_id.0,
                        v.closed_session(conn.0, old(self).cli_sessions@[j]@),
                    ),
                forall|j: int|
                    i <= j < self.cli_sessions.len() ==> (#[trigger] self.cli_sessions@[j]) == old(
                        self,
                    ).cli_sessions@[j],
            decreases self.cli_sessions.len() - i,
        {
            let ghost prev = self.cli_sessions@;
            let detach = match &self.cli_sessions[i].chat {
                Some(chat) => self.chat_to_conn.get(chat.as_str()) == Some(conn.0),
                None => false,
            };
            if detach {
                self.cli_sessions[i].chat = None;
            }
            proof {
                let now = self.cli_sessions@;
                assert(prev[i as int] == old(self).cli_sessions@[i as int]);
                assert(now[i as int]@ == v.closed_session(conn.0, prev[i as int]@));
                assert forall|j: int| 0 <= j < i + 1 implies (#[trigger] session_pairs(now)[j]) == (
                    old(self).cli_sessions@[j].cli_id.0,
                    v.closed_session(conn.0, old(self).cli_sessions@[j]@),
                ) by {
                    if j < i {
                        assert(now[j] == prev[j]);
                        assert(session_pairs(prev)[j] == (
                            old(self).cli_sessions@[j].cli_id.0,
                            v.closed_session(conn.0, old(self).cli_sessions@[j]@),
                        ));
                    }
                }
            }
            i = i + 1;
        }
        proof {
            let f = |s: SessionView| v.closed_session(conn.0, s);
            let before = session_pairs(old(self).cli_sessions@);
            let after = session_pairs(self.cli_sessions@);
            assert forall|j: int| 0 <= j < before.len() implies (#[trigger] after[j]) == (
                before[j].0,
                f(before[j].1),
            ) by {}
            lemma_as_map_values(before, after, f);
            assert(as_map(after) =~= v.connection_closed(conn.0).sessions);
        }
        self.chat_to_conn.remove_id(conn.0);
        self.drop_connection(conn.0);
        proof {
            assert(self@.chat_to_conn =~= v.connection_closed(conn.0).chat_to_conn);
            assert(self@.connections =~= v.connection_closed(conn.0).connections);
        }
    }

    /// The place of the session `cli`.
    fn session_index(&self, cli: u32) -> (r: Option<usize>)
        requires
            self.rep(),
        ensures
            match r {
                Some(i) => i < self.cli_sessions.len() && self.cli_sessions@[i as int].cli_id.0
                    == cli && self@.sessions.contains_key(cli) && self@.sessions[cli]
                    == self.cli_sessions@[i as int]@,
                None => !self@.sessions.contains_key(cli),
            },
    {
        let mut i: usize = 0;
        while i < self.cli_sessions.len()
            invariant
                i <= self.cli_sessions.len(),
                self.rep(),
                forall|j: int|
                    0 <= j < i ==> (#[trigger] session_pairs(self.cli_sessions@)[j]).0 != cli,
            decreases self.cli_sessions.len() - i,
        {
            if self.cli_sessions[i].cli_id.0 == cli {
                proof {
                    lemma_as_map_at(session_pairs(self.cli_sessions@), i as int);
                }
                return Some(i);
            }
            i = i + 1;
        }
        proof {
            lemma_as_map_absent(session_pairs(self.cli_sessions@), cli);
        }
        None
    }

    /// The place of the live session with the name `id`.
    fn named_index(&self, id: &str) -> (r: Option<usize>)
        requires
            self.wf(),
        ensures
            match r {
                Some(i) => i < self.cli_sessions.len() && self.cli_sessions@[i as int]@.session_id
                    == Some(id@) && self@.has_session_id(id@) && self@.session_named(id@)
                    == self.cli_sessions@[i as int].cli_id.0,
                None => !self@.has_session_id(id@),
            },
    {
        let mut i: usize = 0;
        while i < self.cli_sessions.len()
            invariant
                i <= self.cli_sessions.len(),
                self.wf(),
                forall|j: int|
                    0 <= j < i ==> (#[trigger] self.cli_sessions@[j])@.session_id != Some(id@),
            decreases self.cli_sessions.len() - i,
        {
            let found = match &self.cli_sessions[i].session_id {
                Some(name) => same_text(name.as_str(), id),
                None => false,
            };
            if found {
                proof {
                    let pairs = session_pairs(self.cli_sessions@);
                    lemma_as_map_at(pairs, i as int);
                    let n = self.cli_sessions@[i as int].cli_id.0;
                    assert(self@.sessions.contains_key(n) && self@.sessions[n].session_id == Some(
                        id@,
                    ));
                    let m = self@.session_named(id@);
                    assert(self@.sessions.contains_key(m) && self@.sessions[m].session_id == Some(
                        id@,
                    ));
                    if m != n {
                        assert(self@.sessions[m].session_id != self@.sessions[n].session_id);
                    }
                }
                return Some(i);
            }
            i = i + 1;
        }
        proof {
            if self@.has_session_id(id@) {
                let m = self@.session_named(id@);
                let pairs = session_pairs(self.cli_sessions@);
                lemma_as_map_key(pairs, m);
                let k = index_of(pairs, m);
                assert(self.cli_sessions@[k]@.session_id == Some(id@));
            }
        }
        None
    }

    /// A chat registers on a connection.
    ///
    /// Nothing happens where the connection is not open. Else the chat speaks
    /// through the connection from now on. Where it is bound to a session it
    /// becomes the session's subscriber, and the result lists the lagged
    /// messages that are to be sent through the connection, in order; the
    /// lag itself stays until the replay is settled.
    pub fn regiter_chat(&mut self, conn: ConnId, chat: ChatId) -> (r: Replay)
        requires
            old(self).wf(),
        ensures
            final(self).wf(),
            final(self)@ == old(self)@.register_chat(conn.0, chat@),
            r.conn == conn,
            if old(self)@.connections.contains(conn.0) && old(self)@.chat_to_cli.contains_key(
                chat@,
            ) {
                &&& r.cli == Some(CliId(old(self)@.chat_to_cli[chat@]))
                &&& replay_is(
                    r.messages@,
                    chat@,
                    old(self)@.sessions[old(self)@.chat_to_cli[chat@]].replay_data(),
                )
            } else {
                r.cli is None && r.messages@.len() == 0
            },
    {
        proof {
            lemma_register_chat_wf(self@, conn.0, chat@);
        }
        if !self.has_connection(conn) {
            return Replay { cli: None, conn, messages: Vec::new() };
        }
        let bound = self.chat_to_cli.get(chat.as_str());
        let mut cli: Option<CliId> = None;
        let mut messages: Vec<ServerMessage> = Vec::new();
        match bound {
            Some(n) => {
                match self.session_index(n) {
                    Some(i) => {
                        messages = self.cli_sessions[i].replay_messages(chat.as_str());
                        let ghost before = self.cli_sessions@;
                        self.cli_sessions[i].chat = Some(chat.clone());
                        proof {
                            lemma_sessions_updated(before, self.cli_sessions@, i as int);
                        }
                        cli = Some(CliId(n));
                    },
                    None => {
                        assert(false);
                    },
                }
            },
            None => {},
        }
        self.chat_to_conn.insert(chat, conn.0);
        Replay { cli, conn, messages }
    }

    /// A replay to the subscriber of the session `cli` ended after
    /// `delivered` of its messages: the lag is what was not delivered.
    pub fn replay_settled(&mut self, cli: CliId, delivered: usize)
        requires
            old(self).wf(),
        ensures
            final(self).wf(),
            final(self)@ == old(self)@.replay_settled(cli.0, delivered as nat),
    {
        proof {
            lemma_replay_settled_wf(self@, cli.0, delivered as nat);
        }
        match self.session_index(cli.0) {
            Some(i) => {
                let at = self.cli_sessions[i].replay_places();
                let ghost before = self.cli_sessions@;
                let ghost view = before[i as int]@;
                let lag: u32 = if delivered >= at.len() {
                    0
                } else {
                    proof {
                        assert(places(at@)[delivered as int] == at@[delivered as int] as int);
                        lemma_replay_bounds(
                            view.messages,
                            lag_start(view.messages.len(), view.lag_count),
                            delivered as int,
                        );
                    }
                    let left = self.cli_sessions[i].messages.len() - at[delivered];
                    left as u32
                };
                self.cli_sessions[i].lag_count = lag;
                proof {
                    lemma_sessions_updated(before, self.cli_sessions@, i as int);
                }
            },
            None => {},
        }
    }

    /// A message of the session `cli` did not reach its subscriber: the lag
    /// grows by one.
    pub fn delivery_failed(&mut self, cli: CliId)
        requires
            old(self).wf(),
        ensures
            final(self).wf(),
            final(self)@ == old(self)@.delivery_failed(cli.0),
    {
        proof {
            lemma_delivery_failed_wf(self@, cli.0);
        }
        match self.session_index(cli.0) {
            Some(i) => {
                let ghost before = self.cli_sessions@;
                let lag = self.cli_sessions[i].lag_count;
                self.cli_sessions[i].lag_count = if lag == u32::MAX {
                    lag
                } else {
                    lag + 1
                };
                proof {
                    lemma_sessions_updated(before, self.cli_sessions@, i as int);
                }
            },
            None => {},
        }
    }

    /// The session `cli` sent `data` at the time `now`.
    ///
    /// Nothing happens where no such session lives. Else the message is
    /// cached, unless it is an error or a removal notice, and a first data
    /// message gives the session its name. Where the session has a
    /// subscriber the result is the message for it and the connection to
    /// send it through; where it has none the lag grows by one.
    pub fn handle_cli_message(&mut self, cli: CliId, data: ServerMessageData, now: i64) -> (r:
        Option<Delivery>)
        requires
            old(self).wf(),
        ensures
            final(self).wf(),
            final(self)@ == old(self)@.cli_message(cli.0, data, now),
            match r {
                Some(d) => {
                    &&& old(self)@.sessions.contains_key(cli.0)
                    &&& old(self)@.sessions[cli.0].subscriber == Some(d.msg.chat_id@)
                    &&& d.msg.data == data
                    &&& d.conn.0 == old(self)@.chat_to_conn[d.msg.chat_id@]
                },
                None => !old(self)@.sessions.contains_key(cli.0) || old(
                    self,
                )@.sessions[cli.0].subscriber is None,
            },
    {
        proof {
            lemma_cli_message_wf(self@, cli.0, data, now);
        }
        let i = match self.session_index(cli.0) {
            Some(i) => i,
            None => {
                return None;
            },
        };
        let ghost before = self.cli_sessions@;
        let ghost v = self@;
        let name: Option<String> = match &data {
            ServerMessageData::Claude(m) => {
                if self.cli_sessions[i].session_id.is_none() && self.named_index(
                    m.session_id.as_str(),
                ).is_none() {
                    Some(m.session_id.clone())
                } else {
                    None
                }
            },
            _ => None,
        };
        let cached = cache_form(&data);
        let target: Option<(String, u32)> = match &self.cli_sessions[i].chat {
            Some(chat) => {
                match self.chat_to_conn.get(chat.as_str()) {
                    Some(c) => Some((chat.clone(), c)),
                    None => {
                        assert(false);
                        None
                    },
                }
            },
            None => None,
        };
        if name.is_some() {
            self.cli_sessions[i].session_id = name;
        }
        match cached {
            Some(m) => {
                self.cli_sessions[i].messages.push(MessageRecord { timestamp: now, message: m });
            },
            None => {},
        }
        self.cli_sessions[i].last_activity = now;
        let r = match target {
            Some((chat, c)) => Some(
                Delivery { conn: ConnId(c), msg: ServerMessage { chat_id: chat, data } },
            ),
            None => {
                let lag = self.cli_sessions[i].lag_count;
                self.cli_sessions[i].lag_count = if lag == u32::MAX {
                    lag
                } else {
                    lag + 1
                };
                None
            },
        };
        proof {
            lemma_sessions_updated(before, self.cli_sessions@, i as int);
            assert(self.cli_sessions@[i as int]@ == v.cli_message(cli.0, data, now).sessions[cli.0]);
        }
        r
    }

    /// The message that reports the error `text` to `chat`, where the chat is
    /// registered.
    pub fn report_err(&self, chat: &str, text: &str) -> (r: Vec<ManagerAction>)
        requires
            self.wf(),
        ensures
            reports_error(self@, chat@, text@, r@),
    {
        let mut out: Vec<ManagerAction> = Vec::new();
        match self.chat_to_conn.get(chat) {
            Some(c) => {
                out.push(
                    ManagerAction::Send {
                        conn: ConnId(c),
                        msg: ServerMessage {
                            chat_id: chat.to_owned(),
                            data: ServerMessageData::ServerError(
                                ServerError { error: text.to_owned() },
                            ),
                        },
                    },
                );
            },
            None => {},
        }
        out
    }

    /// The command for the session that `chat` is bound to, or the report
    /// that it is bound to none.
    pub fn forward_to_cli(&self, chat: &str, command: SessionCommand) -> (r: Vec<ManagerAction>)
        requires
            self.wf(),
        ensures
            forwards_or_reports(self@, chat@, command, r@),
    {
        match self.chat_to_cli.get(chat) {
            Some(n) => {
                let mut out: Vec<ManagerAction> = Vec::new();
                out.push(ManagerAction::Forward { cli_id: CliId(n), command });
                out
            },
            None => self.report_err(
                chat,
                "No session is bound to this chat. It may be subscribed by another user.",
            ),
        }
    }

    /// Records something that the client of `chat` sent in the cache of the
    /// session that the chat is bound to, if it is bound.
    pub fn record_input(&mut self, chat: &str, record: MessageRecord)
        requires
            old(self).wf(),
        ensures
            final(self).wf(),
            final(self)@ == old(self)@.record_input(chat@, record),
    {
        proof {
            lemma_record_input_wf(self@, chat@, record);
        }
        match self.chat_to_cli.get(chat) {
            Some(n) => {
                match self.session_index(n) {
                    Some(i) => {
                        let ghost before = self.cli_sessions@;
                        self.cli_sessions[i].last_activity = record.timestamp;
                        self.cli_sessions[i].messages.push(record);
                        proof {
                            lemma_sessions_updated(before, self.cli_sessions@, i as int);
                        }
                    },
                    None => {},
                }
            },
            None => {},
        }
    }

    /// The session `cli` stops: it is removed, its transport is told to stop,
    /// and the chat that is bound to it is told that it is removed, and is
    /// neither bound nor registered any more. Nothing happens where no such
    /// session lives.
    pub fn stop_cli(&mut self, cli: CliId) -> (r: Vec<ManagerAction>)
        requires
            old(self).wf(),
        ensures
            final(self).wf(),
            final(self)@ == old(self)@.stop_session(cli.0),
            stops_session(old(self)@, cli.0, r@),
    {
        let ghost v = self@;
        proof {
            lemma_stop_sessions_wf(v, set![cli.0]);
        }
        let mut out: Vec<ManagerAction> = Vec::new();
        let i = match self.session_index(cli.0) {
            Some(i) => i,
            None => {
                proof {
                    let w = v.stop_session(cli.0);
                    assert(w.sessions =~= v.sessions);
                    assert(w.chat_to_cli =~= v.chat_to_cli);
                    assert(w.chat_to_conn =~= v.chat_to_conn);
                }
                return out;
            },
        };
        let ghost before = session_pairs(self.cli_sessions@);
        self.cli_sessions.remove(i);
        proof {
            lemma_as_map_remove(before, i as int);
            assert(session_pairs(self.cli_sessions@) =~= before.remove(i as int));
            assert(self@.sessions =~= v.stop_session(cli.0).sessions);
        }
        out.push(ManagerAction::Forward { cli_id: cli, command: SessionCommand::Stop });
        match self.chat_to_cli.chat_of(cli.0) {
            Some(chat) => {
                proof {
                    assert(v.chat_to_cli.contains_key(chat@) && v.chat_to_cli[chat@] == cli.0);
                    let c2 = v.chat_of(cli.0);
                    assert(v.chat_to_cli.contains_key(c2) && v.chat_to_cli[c2] == cli.0);
                    assert(c2 == chat@);
                }
                match self.chat_to_conn.get(chat.as_str()) {
                    Some(c) => {
                        out.push(
                            ManagerAction::Send {
                                conn: ConnId(c),
                                msg: ServerMessage {
                                    chat_id: chat.clone(),
                                    data: ServerMessageData::ChatRemoved,
                                },
                            },
                        );
                    },
                    None => {},
                }
                self.chat_to_cli.remove(chat.as_str());
                self.chat_to_conn.remove(chat.as_str());
                proof {
                    let w = v.stop_session(cli.0);
                    assert forall|c: Seq<char>| #[trigger]
                        v.chat_to_cli.contains_key(c) && v.chat_to_cli[c] == cli.0 implies c
                        == chat@ by {
                        assert(v.chat_to_cli[c] == v.chat_to_cli[chat@]);
                    }
                    assert(self@.chat_to_cli =~= w.chat_to_cli);
                    assert(self@.chat_to_conn =~= w.chat_to_conn);
                }
            },
            None => {
                proof {
                    let w = v.stop_session(cli.0);
                    assert(!v.has_chat_of(cli.0));
                    assert(self@.chat_to_cli =~= w.chat_to_cli);
                    assert(self@.chat_to_conn =~= w.chat_to_conn);
                }
            },
        }
        out
    }

    /// The session that `chat` is bound to stops; nothing happens where it is
    /// bound to none.
    pub fn stop_cli_by_chat(&mut self, chat: &str) -> (r: Vec<ManagerAction>)
        requires
            old(self).wf(),
        ensures
            final(self).wf(),
            if old(self)@.chat_to_cli.contains_key(chat@) {
                &&& final(self)@ == old(self)@.stop_session(old(self)@.chat_to_cli[chat@])
                &&& stops_session(old(self)@, old(self)@.chat_to_cli[chat@], r@)
            } else {
                final(self)@ == old(self)@ && r@.len() == 0
            },
    {
        match self.chat_to_cli.get(chat) {
            Some(n) => self.stop_cli(CliId(n)),
            None => Vec::new(),
        }
    }

    /// A session can no longer be reached: its chat is told so, and the
    /// session stops.
    pub fn session_unreachable(&mut self, cli: CliId) -> (r: Vec<ManagerAction>)
        requires
            old(self).wf(),
        ensures
            final(self).wf(),
            final(self)@ == old(self)@.stop_session(cli.0),
            exists|k: int|
                0 <= k <= r@.len() && stops_session(old(self)@, cli.0, #[trigger] r@.skip(k)) && (
                if old(self)@.has_chat_of(cli.0) {
                    reports_error(
                        old(self)@,
                        old(self)@.chat_of(cli.0),
                        session_closed_text(),
                        r@.take(k),
                    )
                } else {
                    k == 0
                }),
    {
        let ghost v = self@;
        let mut out: Vec<ManagerAction> = match self.chat_to_cli.chat_of(cli.0) {
            Some(chat) => {
                proof {
                    let c2 = v.chat_of(cli.0);
                    assert(v.chat_to_cli.contains_key(chat@) && v.chat_to_cli[chat@] == cli.0);
                    assert(v.chat_to_cli.contains_key(c2) && v.chat_to_cli[c2] == cli.0);
                    assert(c2 == chat@);
                }
                self.report_err(chat.as_str(), "Session closed")
            },
            None => Vec::new(),
        };
        let ghost head = out@;
        let mut stop = self.stop_cli(cli);
        let ghost tail = stop@;
        out.append(&mut stop);
        proof {
            let k = head.len() as int;
            assert(out@.skip(k) =~= tail);
            assert(out@.take(k) =~= head);
        }
        out
    }

    /// What a client's message asks for.
    ///
    /// A registration is carried out. Text and answers to permission
    /// questions are recorded in the session's cache and handed to the
    /// session. A change of mode, a question about the child and an interrupt
    /// are handed to the session. Where the chat is bound to no session, each
    /// of these is answered with an error instead. A request to stop stops
    /// the session, and is nothing where the chat is bound to none.
    pub fn handle_client_msg(&mut self, conn: ConnId, msg: ClientMessage, now: i64) -> (r:
        ClientStep)
        requires
            old(self).wf(),
        ensures
            final(self).wf(),
            match msg.data {
                ClientMessageData::RegisterChat => {
                    &&& final(self)@ == old(self)@.register_chat(conn.0, msg.chat_id@)
                    &&& r is Registered
                },
                ClientMessageData::UserInput(u) => {
                    &&& final(self)@ == old(self)@.record_input(
                        msg.chat_id@,
                        MessageRecord { timestamp: now, message: CacheMessage::UserInput(u.content) },
                    )
                    &&& r matches ClientStep::Done(a) && forwards_or_reports(
                        old(self)@,
                        msg.chat_id@,
                        SessionCommand::UserInput(u.content),
                        a@,
                    )
                },
                ClientMessageData::PermissionResp(p) => {
                    &&& final(self)@ == old(self)@.record_input(
                        msg.chat_id@,
                        MessageRecord { timestamp: now, message: CacheMessage::PermissionResp(p) },
                    )
                    &&& r matches ClientStep::Done(a) && forwards_or_reports(
                        old(self)@,
                        msg.chat_id@,
                        SessionCommand::PermissionResp(p),
                        a@,
                    )
                },
                ClientMessageData::SetMode { mode } => {
                    &&& final(self)@ == old(self)@
                    &&& r matches ClientStep::Done(a) && forwards_or_reports(
                        old(self)@,
                        msg.chat_id@,
                        SessionCommand::SetMode(mode),
                        a@,
                    )
                },
                ClientMessageData::GetInfo => {
                    &&& final(self)@ == old(self)@
                    &&& r matches ClientStep::Done(a) && forwards_or_reports(
                        old(self)@,
                        msg.chat_id@,
                        SessionCommand::GetInfo,
                        a@,
                    )
                },
                ClientMessageData::Interrupt => {
                    &&& final(self)@ == old(self)@
                    &&& r matches ClientStep::Done(a) && forwards_or_reports(
                        old(self)@,
                        msg.chat_id@,
                        SessionCommand::Interrupt,
                        a@,
                    )
                },
                ClientMessageData::StopSession => {
                    &&& r matches ClientStep::Done(a) && if old(self)@.chat_to_cli.contains_key(
                        msg.chat_id@,
                    ) {
                        &&& final(self)@ == old(self)@.stop_session(
                            old(self)@.chat_to_cli[msg.chat_id@],
                        )
                        &&& stops_session(old(self)@, old(self)@.chat_to_cli[msg.chat_id@], a@)
                    } else {
                        final(self)@ == old(self)@ && a@.len() == 0
                    }
                },
            },
    {
        let chat = msg.chat_id;
        match msg.data {
            ClientMessageData::RegisterChat => ClientStep::Registered(self.regiter_chat(conn, chat)),
            ClientMessageData::UserInput(u) => {
                let actions = self.forward_to_cli(
                    chat.as_str(),
                    SessionCommand::UserInput(share(&u.content)),
                );
                self.record_input(
                    chat.as_str(),
                    MessageRecord { timestamp: now, message: CacheMessage::UserInput(u.content) },
                );
                ClientStep::Done(actions)
            },
            ClientMessageData::PermissionResp(p) => {
                let actions = self.forward_to_cli(
                    chat.as_str(),
                    SessionCommand::PermissionResp(share(&p)),
                );
                self.record_input(
                    chat.as_str(),
                    MessageRecord { timestamp: now, message: CacheMessage::PermissionResp(p) },
                );
                ClientStep::Done(actions)
            },
            ClientMessageData::SetMode { mode } => ClientStep::Done(
                self.forward_to_cli(chat.as_str(), SessionCommand::SetMode(mode)),
            ),
            ClientMessageData::GetInfo => ClientStep::Done(
                self.forward_to_cli(chat.as_str(), SessionCommand::GetInfo),
            ),
            ClientMessageData::Interrupt => ClientStep::Done(
                self.forward_to_cli(chat.as_str(), SessionCommand::Interrupt),
            ),
            ClientMessageData::StopSession => ClientStep::Done(self.stop_cli_by_chat(chat.as_str())),
        }
    }

    /// The numbers of the sessions that have been idle for too long at the
    /// time `now`.
    fn expired_sessions(&self, now: i64) -> (r: Vec<u32>)
        requires
            self.wf(),
        ensures
            forall|s: u32| self@.expired(now).contains(s) <==> r@.contains(s),
    {
        let mut out: Vec<u32> = Vec::new();
        let mut i: usize = 0;
        while i < self.cli_sessions.len()
            invariant
                i <= self.cli_sessions.len(),
                self.wf(),
                forall|s: u32|
                    out@.contains(s) <==> exists|j: int|
                        0 <= j < i && (#[trigger] self.cli_sessions@[j]).cli_id.0 == s && is_expired(
                            now,
                            self.cli_sessions@[j].last_activity,
                            self.idle_ttl_ms,
                        ),
            decreases self.cli_sessions.len() - i,
        {
            let idle = (now as i128) - (self.cli_sessions[i].last_activity as i128);
            let ghost before = out@;
            if idle > self.idle_ttl_ms as i128 {
                out.push(self.cli_sessions[i].cli_id.0);
            }
            proof {
                let n = self.cli_sessions@[i as int].cli_id.0;
                let hit = is_expired(
                    now,
                    self.cli_sessions@[i as int].last_activity,
                    self.idle_ttl_ms,
                );
                assert forall|s: u32|
                    out@.contains(s) <==> exists|j: int|
                        0 <= j < i + 1 && (#[trigger] self.cli_sessions@[j]).cli_id.0 == s
                            && is_expired(
                            now,
                            self.cli_sessions@[j].last_activity,
                            self.idle_ttl_ms,
                        ) by {
                    if out@.contains(s) {
                        let k = choose|k: int| 0 <= k < out@.len() && out@[k] == s;
                        if k < before.len() {
                            assert(before[k] == s);
                            assert(before.contains(s));
                        } else {
                            assert(self.cli_sessions@[i as int].cli_id.0 == s);
                        }
                    }
                    if exists|j: int|
                        0 <= j < i + 1 && (#[trigger] self.cli_sessions@[j]).cli_id.0 == s
                            && is_expired(
                            now,
                            self.cli_sessions@[j].last_activity,
                            self.idle_ttl_ms,
                        ) {
                        let j = choose|j: int|
                            0 <= j < i + 1 && (#[trigger] self.cli_sessions@[j]).cli_id.0 == s
                                && is_expired(
                                now,
                                self.cli_sessions@[j].last_activity,
                                self.idle_ttl_ms,
                            );
                        if j < i {
                            assert(before.contains(s));
                            let k = choose|k: int| 0 <= k < before.len() && before[k] == s;
                            assert(out@[k] == s);
                        } else {
                            assert(out@[before.len() as int] == s);
                        }
                    }
                }
            }
            i = i + 1;
        }
        proof {
            let pairs = session_pairs(self.cli_sessions@);
            assert forall|s: u32| self@.expired(now).contains(s) <==> out@.contains(s) by {
                if self@.expired(now).contains(s) {
                    lemma_as_map_key(pairs, s);
                    let j = index_of(pairs, s);
                    assert(self.cli_sessions@[j].cli_id.0 == s);
                }
                if out@.contains(s) {
                    let j = choose|j: int|
                        0 <= j < i && (#[trigger] self.cli_sessions@[j]).cli_id.0 == s && is_expired(
                            now,
                            self.cli_sessions@[j].last_activity,
                            self.idle_ttl_ms,
                        );
                    lemma_as_map_at(pairs, j);
                }
            }
        }
        out
    }

    /// Stops every session that has been idle for too long at the time
    /// `now`.
    pub fn cleanup_inactive_sessions(&mut self, now: i64) -> (r: Vec<ManagerAction>)
        requires
            old(self).wf(),
        ensures
            final(self).wf(),
            final(self)@ == old(self)@.clean_sessions(now),
            stops_all(old(self)@, old(self)@.expired(now), r@),
    {
        let ghost v = self@;
        let expired = self.expired_sessions(now);
        let mut out: Vec<ManagerAction> = Vec::new();
        let mut i: usize = 0;
        let ghost mut done: Set<u32> = Set::empty();
        proof {
            lemma_stop_none(v);
        }
        while i < expired.len()
            invariant
                i <= expired.len(),
                v.wf(),
                self.wf(),
                self@ == v.stop_sessions(done),
                stops_all(v, done, out@),
                forall|s: u32| done.contains(s) <==> expired@.take(i as int).contains(s),
            decreases expired.len() - i,
        {
            let ghost before = out@;
            let ghost prev = done;
            let mut step = self.stop_cli(CliId(expired[i]));
            proof {
                let c = expired@[i as int];
                lemma_stop_one_more(v, prev, c);
                lemma_stops_one_more(v, prev, c, before, step@);
                done = prev.insert(c);
                assert forall|s: u32| done.contains(s) <==> expired@.take(i + 1).contains(s) by {
                    let t0 = expired@.take(i as int);
                    let t1 = expired@.take(i + 1);
                    if t1.contains(s) {
                        let k = choose|k: int| 0 <= k < t1.len() && t1[k] == s;
                        if k < i {
                            assert(t0[k] == s);
                        }
                    }
                    if prev.contains(s) {
                        let k = choose|k: int| 0 <= k < t0.len() && t0[k] == s;
                        assert(t1[k] == s);
                    }
                    if s == c {
                        assert(t1[i as int] == s);
                    }
                }
            }
            out.append(&mut step);
            i = i + 1;
        }
        proof {
            assert(expired@.take(expired.len() as int) =~= expired@);
            assert(done =~= v.expired(now));
        }
        out
    }

    /// The named live sessions that work in `work_dir`.
    pub fn handle_get_active_sessions(&self, work_dir: &str) -> (r: Vec<SessionInfo>)
        requires
            self.wf(),
        ensures
            lists_sessions(self@, work_dir@, r@),
    {
        let mut out: Vec<SessionInfo> = Vec::new();
        let ghost mut from: Seq<int> = Seq::empty();
        let ghost pairs = session_pairs(self.cli_sessions@);
        let mut i: usize = 0;
        while i < self.cli_sessions.len()
            invariant
                i <= self.cli_sessions.len(),
                self.wf(),
                pairs == session_pairs(self.cli_sessions@),
                from.len() == out.len(),
                forall|k: int|
                    0 <= k < out.len() ==> 0 <= #[trigger] from[k] < i && describes(
                        out@[k],
                        self.cli_sessions@[from[k]]@,
                    ) && self.cli_sessions@[from[k]]@.work_dir == work_dir@,
                forall|j: int, k: int| 0 <= j < k < out.len() ==> from[j] < from[k],
                forall|j: int|
                    0 <= j < i && (#[trigger] self.cli_sessions@[j])@.work_dir == work_dir@
                        && self.cli_sessions@[j]@.session_id is Some ==> exists|k: int|
                        0 <= k < out.len() && #[trigger] from[k] == j,
            decreases self.cli_sessions.len() - i,
        {
            let session = &self.cli_sessions[i];
            if same_text(session.work_dir.as_str(), work_dir) {
                match &session.session_id {
                    Some(id) => {
                        let ghost prev = from;
                        out.push(
                            SessionInfo {
                                session_id: id.clone(),
                                work_dir: session.work_dir.clone(),
                                created_at: session.created_at,
                                last_activity: session.last_activity,
                                message_count: session.messages.len(),
                                last_user_input: session.last_user_input(),
                            },
                        );
                        proof {
                            from = prev.push(i as int);
                            assert forall|j: int|
                                0 <= j < i + 1 && (#[trigger] self.cli_sessions@[j])@.work_dir
                                    == work_dir@ && self.cli_sessions@[j]@.session_id
                                    is Some implies exists|k: int|
                                0 <= k < out.len() && #[trigger] from[k] == j by {
                                if j < i {
                                    let k = choose|k: int|
                                        0 <= k < prev.len() && #[trigger] prev[k] == j;
                                    assert(from[k] == j);
                                } else {
                                    assert(from[prev.len() as int] == j);
                                }
                            }
                        }
                    },
                    None => {},
                }
            }
            i = i + 1;
        }
        proof {
            let v = self@;
            assert forall|k: int| 0 <= k < out.len() implies describes_one(
                v,
                work_dir@,
                #[trigger] out@[k],
            ) by {
                lemma_as_map_at(pairs, from[k]);
                let s = self.cli_sessions@[from[k]].cli_id.0;
                assert(v.sessions.contains_key(s) && v.sessions[s] == self.cli_sessions@[from[k]]@);
            }
            assert forall|s: u32| #[trigger]
                v.sessions.contains_key(s) && v.sessions[s].work_dir == work_dir@
                    && v.sessions[s].session_id is Some implies is_listed(out@, v.sessions[s]) by {
                lemma_as_map_key(pairs, s);
                let j = index_of(pairs, s);
                assert(self.cli_sessions@[j]@ == v.sessions[s]);
                let k = choose|k: int| 0 <= k < out.len() && #[trigger] from[k] == j;
                assert(describes(out@[k], v.sessions[s]));
            }
            assert forall|j: int, k: int|
                0 <= j < out.len() && 0 <= k < out.len() && j != k implies (
            #[trigger] out@[j]).session_id@ != (#[trigger] out@[k]).session_id@ by {
                lemma_as_map_at(pairs, from[j]);
                lemma_as_map_at(pairs, from[k]);
                let sj = self.cli_sessions@[from[j]].cli_id.0;
                let sk = self.cli_sessions@[from[k]].cli_id.0;
                if j < k {
                    assert(from[j] < from[k]);
                } else {
                    assert(from[k] < from[j]);
                }
                assert(pairs[from[j]].0 != pairs[from[k]].0);
                assert(v.sessions[sj].session_id != v.sessions[sk].session_id);
            }
        }
        out
    }

    /// How the chat of `options` is to be started.
    pub fn plan_start_chat(&self, options: &StartChatOptions) -> (r: StartPlan)
        requires
            self.wf(),
        ensures
            r == start_plan(self@, options.chat_id@, opt_text(options.resume)),
    {
        if self.chat_to_conn.get(options.chat_id.as_str()).is_none() {
            return StartPlan::Rejected(StartChatError::ChatNotRegistered);
        }
        match &options.resume {
            None => StartPlan::Spawn,
            Some(id) => {
                match self.named_index(id.as_str()) {
                    Some(i) => StartPlan::ResumeActive(self.cli_sessions[i].cli_id),
                    None => StartPlan::LoadTranscript,
                }
            },
        }
    }

    /// The session that `chat` is bound to, if any, loses its subscriber.
    fn detach(&mut self, chat: &str)
        requires
            old(self).wf(),
        ensures
            final(self).rep(),
            final(self)@ == (ManagerView {
                sessions: old(self)@.sessions_without(chat@),
                ..old(self)@
            }),
    {
        match self.chat_to_cli.get(chat) {
            Some(n) => {
                match self.session_index(n) {
                    Some(i) => {
                        let ghost before = self.cli_sessions@;
                        self.cli_sessions[i].chat = None;
                        proof {
                            lemma_sessions_updated(before, self.cli_sessions@, i as int);
                        }
                    },
                    None => {},
                }
            },
            None => {},
        }
    }

    /// The chat `chat` takes over the live session `cli`.
    ///
    /// Fails, and changes nothing, where the chat is not registered or the
    /// session does not live. Else a chat that was bound to the session is
    /// told that it is removed, `chat` becomes the subscriber, the session is
    /// told the mode where one is given, and the result holds the session's
    /// whole cache.
    pub fn resume_active(&mut self, chat: &str, cli: CliId, mode: Option<PermissionMode>) -> (r:
        Result<Resumed, StartChatError>)
        requires
            old(self).wf(),
        ensures
            final(self).wf(),
            match r {
                Ok(res) => {
                    &&& old(self)@.chat_to_conn.contains_key(chat@)
                    &&& old(self)@.sessions.contains_key(cli.0)
                    &&& final(self)@ == old(self)@.resume_active(chat@, cli.0)
                    &&& res.messages@ == old(self)@.sessions[cli.0].messages
                    &&& resume_actions(old(self)@, chat@, cli.0, mode, res.actions@)
                },
                Err(e) => {
                    &&& final(self)@ == old(self)@
                    &&& if !old(self)@.chat_to_conn.contains_key(chat@) {
                        e is ChatNotRegistered
                    } else {
                        !old(self)@.sessions.contains_key(cli.0) && e is SessionNotFound
                    }
                },
            },
    {
        let ghost v = self@;
        if self.chat_to_conn.get(chat).is_none() {
            return Err(StartChatError::ChatNotRegistered);
        }
        if self.session_index(cli.0).is_none() {
            return Err(StartChatError::SessionNotFound);
        }
        proof {
            lemma_resume_active_wf(v, chat@, cli.0);
        }
        let mut actions: Vec<ManagerAction> = Vec::new();
        let old_chat = self.chat_to_cli.chat_of(cli.0);
        proof {
            if old_chat is Some {
                let oc = old_chat->Some_0@;
                let c2 = v.chat_of(cli.0);
                assert(v.chat_to_cli.contains_key(oc) && v.chat_to_cli[oc] == cli.0);
                assert(v.chat_to_cli.contains_key(c2) && v.chat_to_cli[c2] == cli.0);
                assert(c2 == oc);
            } else {
                assert(!v.has_chat_of(cli.0));
            }
        }
        self.detach(chat);
        match old_chat {
            Some(oc) => {
                if !same_text(oc.as_str(), chat) {
                    match self.chat_to_conn.get(oc.as_str()) {
                        Some(c) => {
                            actions.push(
                                ManagerAction::Send {
                                    conn: ConnId(c),
                                    msg: ServerMessage {
                                        chat_id: oc.clone(),
                                        data: ServerMessageData::ChatRemoved,
                                    },
                                },
                            );
                        },
                        None => {},
                    }
                    self.chat_to_cli.remove(oc.as_str());
                    self.chat_to_conn.remove(oc.as_str());
                }
            },
            None => {},
        }
        self.chat_to_cli.insert(chat.to_owned(), cli.0);
        let i = match self.session_index(cli.0) {
            Some(i) => i,
            None => {
                assert(false);
                return Err(StartChatError::SessionNotFound);
            },
        };
        let ghost before = self.cli_sessions@;
        self.cli_sessions[i].chat = Some(chat.to_owned());
        self.cli_sessions[i].lag_count = 0;
        proof {
            lemma_sessions_updated(before, self.cli_sessions@, i as int);
        }
        match mode {
            Some(m) => {
                actions.push(
                    ManagerAction::Forward { cli_id: cli, command: SessionCommand::SetMode(m) },
                );
            },
            None => {},
        }
        let messages = share_records(&self.cli_sessions[i].messages);
        proof {
            let w = v.resume_active(chat@, cli.0);
            assert forall|c: Seq<char>| #[trigger]
                v.chat_to_cli.contains_key(c) && v.chat_to_cli[c] == cli.0 implies old_chat
                is Some && c == old_chat->Some_0@ by {
                if old_chat is Some {
                    assert(v.chat_to_cli[c] == v.chat_to_cli[old_chat->Some_0@]);
                }
            }
            assert(self@.sessions =~= w.sessions);
            assert(self@.chat_to_cli =~= w.chat_to_cli);
            assert(self@.chat_to_conn =~= w.chat_to_conn);
        }
        Ok(Resumed { messages, actions })
    }

    /// A new session starts for `chat`, with the records `seed` in its cache
    /// and, where that is free, the name `session_id`.
    ///
    /// Fails, and changes nothing, where the chat is not registered, and with
    /// a system error where no session number is left. Else the chat is bound
    /// to the new session and subscribes to it, and the result is the
    /// session's number.
    pub fn attach_session(
        &mut self,
        chat: &str,
        work_dir: String,
        session_id: Option<String>,
        seed: Vec<MessageRecord>,
        now: i64,
    ) -> (r: BizResult<CliId, StartChatError>)
        requires
            old(self).wf(),
        ensures
            final(self).wf(),
            match r {
                Ok(Ok(id)) => {
                    &&& old(self)@.chat_to_conn.contains_key(chat@)
                    &&& old(self)@.next_cli < u32::MAX
                    &&& id.0 == old(self)@.next_cli
                    &&& final(self)@ == old(self)@.attach_session(
                        chat@,
                        work_dir@,
                        opt_text(session_id),
                        seed@,
                        now,
                    )
                },
                Ok(Err(e)) => {
                    &&& final(self)@ == old(self)@
                    &&& !old(self)@.chat_to_conn.contains_key(chat@)
                    &&& e is ChatNotRegistered
                },
                Err(_) => {
                    &&& final(self)@ == old(self)@
                    &&& old(self)@.chat_to_conn.contains_key(chat@)
                    &&& old(self)@.next_cli == u32::MAX
                },
            },
    {
        let ghost v = self@;
        if self.chat_to_conn.get(chat).is_none() {
            return Ok(Err(StartChatError::ChatNotRegistered));
        }
        if self.next_cli == u32::MAX {
            return Err(SystemError { message: "no session number is left".to_owned() });
        }
        proof {
            lemma_attach_session_wf(v, chat@, work_dir@, opt_text(session_id), seed@, now);
        }
        let name = match session_id {
            Some(id) => {
                if self.named_index(id.as_str()).is_some() {
                    None
                } else {
                    Some(id)
                }
            },
            None => None,
        };
        self.detach(chat);
        let id = self.next_cli;
        let ghost pairs = session_pairs(self.cli_sessions@);
        let session = CliSession {
            cli_id: CliId(id),
            session_id: name,
            work_dir,
            created_at: now,
            last_activity: now,
            messages: seed,
            chat: Some(chat.to_owned()),
            lag_count: 0,
        };
        proof {
            assert(!v.sessions.contains_key(id));
            assert(!as_map(pairs).contains_key(id)) by {
                if as_map(pairs).contains_key(id) {
                    assert(v.sessions_without(chat@).contains_key(id));
                }
            }
            lemma_as_map_push(pairs, id, session@);
        }
        self.cli_sessions.push(session);
        proof {
            assert(session_pairs(self.cli_sessions@) =~= pairs.push((id, session@)));
        }
        self.chat_to_cli.insert(chat.to_owned(), id);
        self.next_cli = id + 1;
        proof {
            let w = v.attach_session(chat@, work_dir@, opt_text(session_id), seed@, now);
            assert(self@.sessions =~= w.sessions);
        }
        Ok(Ok(CliId(id)))
    }
}

} // verus!
