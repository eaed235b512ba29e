//! The chat manager as a mathematical state machine: its tables as maps, and
//! each of its steps as a function from state to state.

use crate::server::message::{CanUseToolParams, ClaudeSystemInfo, ServerMessageData};
use crate::types::can_use_tool::PermissionResult;
use crate::types::message::SDKMessage;
use std::sync::Arc;
use vstd::prelude::*;

verus! {

/// What a session's cache keeps of one message.
#[derive(Clone, Debug, PartialEq)]
pub enum CacheMessage {
    UserInput(Arc<String>),
    CliData(Arc<SDKMessage>),
    SystemInfo(Arc<ClaudeSystemInfo>),
    CanUseTool(Arc<CanUseToolParams>),
    PermissionResp(Arc<PermissionResult>),
}

/// One cached message and the time it was cached, in milliseconds since the
/// epoch.
#[derive(Clone, Debug, PartialEq)]
pub struct MessageRecord {
    pub timestamp: i64,
    pub message: CacheMessage,
}

/// What the cache keeps of a message from a session: nothing of errors and
/// removal notices.
pub open spec fn cached_form(data: ServerMessageData) -> Option<CacheMessage> {
    match data {
        ServerMessageData::Claude(m) => Some(CacheMessage::CliData(m)),
        ServerMessageData::SystemInfo(i) => Some(CacheMessage::SystemInfo(i)),
        ServerMessageData::CanUseTool(p) => Some(CacheMessage::CanUseTool(p)),
        ServerMessageData::ServerError(_) => None,
        ServerMessageData::ChatRemoved => None,
    }
}

/// What a cached message is replayed as: nothing for what the client itself
/// sent.
pub open spec fn replay_form(message: CacheMessage) -> Option<ServerMessageData> {
    match message {
        CacheMessage::UserInput(_) => None,
        CacheMessage::CliData(m) => Some(ServerMessageData::Claude(m)),
        CacheMessage::SystemInfo(i) => Some(ServerMessageData::SystemInfo(i)),
        CacheMessage::CanUseTool(p) => Some(ServerMessageData::CanUseTool(p)),
        CacheMessage::PermissionResp(_) => None,
    }
}

/// A session as the manager sees it.
pub struct SessionView {
    /// The name that the child gave the session, once it has one.
    pub session_id: Option<Seq<char>>,
    pub work_dir: Seq<char>,
    pub created_at: i64,
    pub last_activity: i64,
    pub messages: Seq<MessageRecord>,
    /// The chat that receives the session's messages.
    pub subscriber: Option<Seq<char>>,
    /// How many messages at the end of the cache the subscriber has not
    /// received.
    pub lag_count: u32,
}

/// One more than `n`, but never more than the largest count.
pub open spec fn next_count(n: u32) -> u32 {
    if n == u32::MAX {
        n
    } else {
        (n + 1) as u32
    }
}

/// Where the lagged records start in a cache of `len` records.
pub open spec fn lag_start(len: nat, lag: u32) -> int {
    if lag as nat >= len {
        0
    } else {
        len - lag
    }
}

/// The places from `from` on whose records can be replayed, in order.
pub open spec fn replayable_from(messages: Seq<MessageRecord>, from: int) -> Seq<int>
    decreases messages.len() - from,
{
    if from < 0 || from >= messages.len() {
        seq![]
    } else if replay_form(messages[from].message) is Some {
        seq![from] + replayable_from(messages, from + 1)
    } else {
        replayable_from(messages, from + 1)
    }
}

impl SessionView {
    /// The places of the lagged records that can be replayed.
    pub open spec fn replay_places(self) -> Seq<int> {
        replayable_from(self.messages, lag_start(self.messages.len(), self.lag_count))
    }

    /// The messages that a replay sends, in order.
    pub open spec fn replay_data(self) -> Seq<ServerMessageData> {
        self.replay_places().map_values(|i: int| replay_form(self.messages[i].message)->Some_0)
    }

    /// The lag that is left when the first `delivered` messages of a replay
    /// arrived and the next one did not: the records from that one on.
    pub open spec fn lag_after_replay(self, delivered: nat) -> u32 {
        if delivered >= self.replay_places().len() {
            0
        } else {
            (self.messages.len() - self.replay_places()[delivered as int]) as u32
        }
    }
}

/// The manager's tables.
pub struct ManagerView {
    /// The connections that are open.
    pub connections: Set<u32>,
    /// The connection that each registered chat speaks through.
    pub chat_to_conn: Map<Seq<char>, u32>,
    /// The session that each bound chat belongs to.
    pub chat_to_cli: Map<Seq<char>, u32>,
    /// The live sessions.
    pub sessions: Map<u32, SessionView>,
    /// The number of the next session.
    pub next_cli: u32,
    /// How long a session may be idle, in milliseconds.
    pub idle_ttl_ms: i64,
}

/// Whether a session last active at `last` has been idle for more than `ttl`
/// at the time `now`.
pub open spec fn is_expired(now: i64, last: i64, ttl: i64) -> bool {
    now - last > ttl
}

impl ManagerView {
    /// Every registered chat speaks through an open connection.
    pub open spec fn chats_have_connections(self) -> bool {
        forall|c: Seq<char>| #[trigger]
            self.chat_to_conn.contains_key(c) ==> self.connections.contains(self.chat_to_conn[c])
    }

    /// Every bound chat belongs to a live session.
    pub open spec fn chats_have_sessions(self) -> bool {
        forall|c: Seq<char>| #[trigger]
            self.chat_to_cli.contains_key(c) ==> self.sessions.contains_key(self.chat_to_cli[c])
    }

    /// No two chats are bound to one session.
    pub open spec fn one_chat_per_session(self) -> bool {
        forall|c1: Seq<char>, c2: Seq<char>|
            #![trigger self.chat_to_cli[c1], self.chat_to_cli[c2]]
            self.chat_to_cli.contains_key(c1) && self.chat_to_cli.contains_key(c2)
                && self.chat_to_cli[c1] == self.chat_to_cli[c2] ==> c1 == c2
    }

    /// A session's subscriber is bound to that session and is registered.
    pub open spec fn subscribers_are_bound(self) -> bool {
        forall|s: u32| #[trigger]
            self.sessions.contains_key(s) ==> (self.sessions[s].subscriber matches Some(c)
                ==> self.chat_to_cli.contains_key(c) && self.chat_to_cli[c] == s
                && self.chat_to_conn.contains_key(c))
    }

    /// No two live sessions have the same name.
    pub open spec fn session_ids_differ(self) -> bool {
        forall|s1: u32, s2: u32|
            #![trigger self.sessions[s1], self.sessions[s2]]
            self.sessions.contains_key(s1) && self.sessions.contains_key(s2) && s1 != s2
                && self.sessions[s1].session_id is Some ==> self.sessions[s1].session_id
                != self.sessions[s2].session_id
    }

    /// Every live session has a number below the next one.
    pub open spec fn numbers_are_used(self) -> bool {
        forall|s: u32| #[trigger] self.sessions.contains_key(s) ==> s < self.next_cli
    }

    /// What holds of the tables after every step.
    pub open spec fn wf(self) -> bool {
        &&& self.chats_have_connections()
        &&& self.chats_have_sessions()
        &&& self.one_chat_per_session()
        &&& self.subscribers_are_bound()
        &&& self.session_ids_differ()
        &&& self.numbers_are_used()
    }

    /// Whether some live session has the name `id`.
    pub open spec fn has_session_id(self, id: Seq<char>) -> bool {
        exists|s: u32| #[trigger]
            self.sessions.contains_key(s) && self.sessions[s].session_id == Some(id)
    }

    /// The live session with the name `id`.
    pub open spec fn session_named(self, id: Seq<char>) -> u32 {
        choose|s: u32| #[trigger]
            self.sessions.contains_key(s) && self.sessions[s].session_id == Some(id)
    }

    /// Whether a chat is bound to the session `s`.
    pub open spec fn has_chat_of(self, s: u32) -> bool {
        exists|c: Seq<char>| #[trigger]
            self.chat_to_cli.contains_key(c) && self.chat_to_cli[c] == s
    }

    /// The chat that is bound to the session `s`.
    pub open spec fn chat_of(self, s: u32) -> Seq<char> {
        choose|c: Seq<char>| #[trigger]
            self.chat_to_cli.contains_key(c) && self.chat_to_cli[c] == s
    }

    /// The tables with no connection, chat or session.
    pub open spec fn empty(idle_ttl_ms: i64) -> ManagerView {
        ManagerView {
            connections: Set::empty(),
            chat_to_conn: Map::empty(),
            chat_to_cli: Map::empty(),
            sessions: Map::empty(),
            next_cli: 0,
            idle_ttl_ms,
        }
    }

    /// A connection opens.
    pub open spec fn new_connect(self, conn: u32) -> ManagerView {
        ManagerView { connections: self.connections.insert(conn), ..self }
    }

    /// Whether the chat `c` speaks through the connection `conn`.
    pub open spec fn speaks_through(self, c: Seq<char>, conn: u32) -> bool {
        self.chat_to_conn.contains_key(c) && self.chat_to_conn[c] == conn
    }

    /// The session `s` once the connection `conn` is closed: without its
    /// subscriber, where that spoke through the connection.
    pub open spec fn closed_session(self, conn: u32, s: SessionView) -> SessionView {
        if s.subscriber is Some && self.speaks_through(s.subscriber->Some_0, conn) {
            SessionView { subscriber: None, ..s }
        } else {
            s
        }
    }

    /// A connection closes: it is forgotten, its chats are no longer
    /// registered, and the sessions that they subscribed to have no
    /// subscriber. The chats stay bound and the sessions stay alive.
    pub open spec fn connection_closed(self, conn: u32) -> ManagerView {
        ManagerView {
            connections: self.connections.remove(conn),
            chat_to_conn: Map::new(
                |c: Seq<char>| self.chat_to_conn.contains_key(c) && self.chat_to_conn[c] != conn,
                |c: Seq<char>| self.chat_to_conn[c],
            ),
            sessions: Map::new(
                |k: u32| self.sessions.contains_key(k),
                |k: u32| self.closed_session(conn, self.sessions[k]),
            ),
            ..self
        }
    }

    /// A chat registers on a connection. Nothing happens where the connection
    /// is not open. Else the chat speaks through the connection from now on,
    /// and where it is bound to a session it becomes that session's
    /// subscriber.
    pub open spec fn register_chat(self, conn: u32, chat: Seq<char>) -> ManagerView {
        if !self.connections.contains(conn) {
            self
        } else {
            ManagerView {
                chat_to_conn: self.chat_to_conn.insert(chat, conn),
                sessions: if self.chat_to_cli.contains_key(chat) {
                    self.sessions.insert(
                        self.chat_to_cli[chat],
                        SessionView {
                            subscriber: Some(chat),
                            ..self.sessions[self.chat_to_cli[chat]]
                        },
                    )
                } else {
                    self.sessions
                },
                ..self
            }
        }
    }

    /// A replay to the subscriber of the session `cli` ended after
    /// `delivered` messages.
    pub open spec fn replay_settled(self, cli: u32, delivered: nat) -> ManagerView {
        if !self.sessions.contains_key(cli) {
            self
        } else {
            ManagerView {
                sessions: self.sessions.insert(
                    cli,
                    SessionView {
                        lag_count: self.sessions[cli].lag_after_replay(delivered),
                        ..self.sessions[cli]
                    },
                ),
                ..self
            }
        }
    }

    /// Something that the client of `chat` sent is recorded in the cache of
    /// the session that the chat is bound to, if it is bound.
    pub open spec fn record_input(self, chat: Seq<char>, record: MessageRecord) -> ManagerView {
        if !self.chat_to_cli.contains_key(chat) || !self.sessions.contains_key(
            self.chat_to_cli[chat],
        ) {
            self
        } else {
            ManagerView {
                sessions: self.sessions.insert(
                    self.chat_to_cli[chat],
                    SessionView {
                        messages: self.sessions[self.chat_to_cli[chat]].messages.push(record),
                        last_activity: record.timestamp,
                        ..self.sessions[self.chat_to_cli[chat]]
                    },
                ),
                ..self
            }
        }
    }

    /// The name that the session `s` has after it sent `data`: the name in
    /// its first data message, unless another live session has it already.
    pub open spec fn name_after(self, s: SessionView, data: ServerMessageData) -> Option<
        Seq<char>,
    > {
        if data is Claude && s.session_id is None && !self.has_session_id(
            data->Claude_0.session_id@,
        ) {
            Some(data->Claude_0.session_id@)
        } else {
            s.session_id
        }
    }

    /// The session `cli` sent `data` at the time `now`. Nothing happens where
    /// no such session lives. Else the message is cached, unless it is an
    /// error or a removal notice, and where the session has no subscriber its
    /// lag grows.
    pub open spec fn cli_message(self, cli: u32, data: ServerMessageData, now: i64) -> ManagerView {
        if !self.sessions.contains_key(cli) {
            self
        } else {
            let s = self.sessions[cli];
            ManagerView {
                sessions: self.sessions.insert(
                    cli,
                    SessionView {
                        session_id: self.name_after(s, data),
                        messages: match cached_form(data) {
                            Some(m) => s.messages.push(MessageRecord { timestamp: now, message: m }),
                            None => s.messages,
                        },
                        last_activity: now,
                        lag_count: if s.subscriber is Some {
                            s.lag_count
                        } else {
                            next_count(s.lag_count)
                        },
                        ..s
                    },
                ),
                ..self
            }
        }
    }

    /// A message of the session `cli` did not reach its subscriber.
    pub open spec fn delivery_failed(self, cli: u32) -> ManagerView {
        if !self.sessions.contains_key(cli) {
            self
        } else {
            ManagerView {
                sessions: self.sessions.insert(
                    cli,
                    SessionView {
                        lag_count: next_count(self.sessions[cli].lag_count),
                        ..self.sessions[cli]
                    },
                ),
                ..self
            }
        }
    }

    /// Whether the chat `c` is bound to a session in `dead`.
    pub open spec fn bound_into(self, c: Seq<char>, dead: Set<u32>) -> bool {
        self.chat_to_cli.contains_key(c) && dead.contains(self.chat_to_cli[c])
    }

    /// The sessions in `dead` stop: they are removed, and the chats bound to
    /// them are neither bound nor registered any more.
    pub open spec fn stop_sessions(self, dead: Set<u32>) -> ManagerView {
        ManagerView {
            sessions: self.sessions.remove_keys(dead),
            chat_to_cli: Map::new(
                |c: Seq<char>| self.chat_to_cli.contains_key(c) && !dead.contains(self.chat_to_cli[c]),
                |c: Seq<char>| self.chat_to_cli[c],
            ),
            chat_to_conn: Map::new(
                |c: Seq<char>| self.chat_to_conn.contains_key(c) && !self.bound_into(c, dead),
                |c: Seq<char>| self.chat_to_conn[c],
            ),
            ..self
        }
    }

    /// The session `cli` stops.
    pub open spec fn stop_session(self, cli: u32) -> ManagerView {
        self.stop_sessions(set![cli])
    }

    /// The live sessions that have been idle for too long at the time `now`.
    pub open spec fn expired(self, now: i64) -> Set<u32> {
        Set::new(
            |s: u32|
                self.sessions.contains_key(s) && is_expired(
                    now,
                    self.sessions[s].last_activity,
                    self.idle_ttl_ms,
                ),
        )
    }

    /// The sessions that have been idle for too long stop.
    pub open spec fn clean_sessions(self, now: i64) -> ManagerView {
        self.stop_sessions(self.expired(now))
    }

    /// The sessions, where the session that `chat` is bound to, if any, has
    /// lost its subscriber.
    pub open spec fn sessions_without(self, chat: Seq<char>) -> Map<u32, SessionView> {
        if self.chat_to_cli.contains_key(chat) && self.sessions.contains_key(
            self.chat_to_cli[chat],
        ) {
            self.sessions.insert(
                self.chat_to_cli[chat],
                SessionView { subscriber: None, ..self.sessions[self.chat_to_cli[chat]] },
            )
        } else {
            self.sessions
        }
    }

    /// The name that a new session gets: the one asked for, unless a live
    /// session has it already.
    pub open spec fn free_name(self, session_id: Option<Seq<char>>) -> Option<Seq<char>> {
        if session_id is Some && self.has_session_id(session_id->Some_0) {
            None
        } else {
            session_id
        }
    }

    /// A new session starts for `chat`, with the next number. The chat is
    /// bound to it and subscribes to it; the session that the chat was bound
    /// to before, if any, lives on without a subscriber.
    pub open spec fn attach_session(
        self,
        chat: Seq<char>,
        work_dir: Seq<char>,
        session_id: Option<Seq<char>>,
        seed: Seq<MessageRecord>,
        now: i64,
    ) -> ManagerView {
        ManagerView {
            sessions: self.sessions_without(chat).insert(
                self.next_cli,
                SessionView {
                    session_id: self.free_name(session_id),
                    work_dir,
                    created_at: now,
                    last_activity: now,
                    messages: seed,
                    subscriber: Some(chat),
                    lag_count: 0,
                },
            ),
            chat_to_cli: self.chat_to_cli.insert(chat, self.next_cli),
            next_cli: (self.next_cli + 1) as u32,
            ..self
        }
    }

    /// The chat `chat` takes over the live session `cli`. A chat that was
    /// bound to the session before is neither bound nor registered any more;
    /// a session that `chat` was bound to before lives on without a
    /// subscriber. The session's lag is cleared: the taker receives the whole
    /// cache.
    pub open spec fn resume_active(self, chat: Seq<char>, cli: u32) -> ManagerView {
        ManagerView {
            sessions: self.sessions_without(chat).insert(
                cli,
                SessionView { subscriber: Some(chat), lag_count: 0, ..self.sessions[cli] },
            ),
            chat_to_cli: Map::new(
                |c: Seq<char>| c == chat || (self.chat_to_cli.contains_key(c) && self.chat_to_cli[c] != cli),
                |c: Seq<char>|
                    if c == chat {
                        cli
                    } else {
                        self.chat_to_cli[c]
                    },
            ),
            chat_to_conn: Map::new(
                |c: Seq<char>|
                    self.chat_to_conn.contains_key(c) && (c == chat || !(
                    self.chat_to_cli.contains_key(c) && self.chat_to_cli[c] == cli)),
                |c: Seq<char>| self.chat_to_conn[c],
            ),
            ..self
        }
    }
}

/// Opening a connection keeps the tables well formed.
pub proof fn lemma_new_connect_wf(v: ManagerView, conn: u32)
    requires
        v.wf(),
    ensures
        v.new_connect(conn).wf(),
{
}

/// Closing a connection keeps the tables well formed.
pub proof fn lemma_connection_closed_wf(v: ManagerView, conn: u32)
    requires
        v.wf(),
    ensures
        v.connection_closed(conn).wf(),
{
    let w = v.connection_closed(conn);
    assert forall|s: u32| #[trigger] w.sessions.contains_key(s) implies (
    w.sessions[s].subscriber matches Some(c) ==> w.chat_to_cli.contains_key(c)
        && w.chat_to_cli[c] == s && w.chat_to_conn.contains_key(c)) by {
        assert(v.sessions.contains_key(s));
    }
    assert forall|s1: u32, s2: u32|
        #![trigger w.sessions[s1], w.sessions[s2]]
        w.sessions.contains_key(s1) && w.sessions.contains_key(s2) && s1 != s2
            && w.sessions[s1].session_id is Some implies w.sessions[s1].session_id
        != w.sessions[s2].session_id by {
        assert(v.sessions[s1].session_id != v.sessions[s2].session_id);
    }
    assert(w.numbers_are_used()) by {
        assert forall|s: u32| #[trigger] w.sessions.contains_key(s) implies s < w.next_cli by {
            assert(v.sessions.contains_key(s));
        }
    }
    assert(w.chats_have_sessions()) by {
        assert forall|c: Seq<char>| #[trigger] w.chat_to_cli.contains_key(c) implies
            w.sessions.contains_key(w.chat_to_cli[c]) by {
            assert(v.sessions.contains_key(v.chat_to_cli[c]));
        }
    }
}

/// Registering a chat keeps the tables well formed.
pub proof fn lemma_register_chat_wf(v: ManagerView, conn: u32, chat: Seq<char>)
    requires
        v.wf(),
    ensures
        v.register_chat(conn, chat).wf(),
{
    let w = v.register_chat(conn, chat);
    if v.connections.contains(conn) {
        assert(w.session_ids_differ()) by {
            assert forall|s1: u32, s2: u32|
                #![trigger w.sessions[s1], w.sessions[s2]]
                w.sessions.contains_key(s1) && w.sessions.contains_key(s2) && s1 != s2
                    && w.sessions[s1].session_id is Some implies w.sessions[s1].session_id
                != w.sessions[s2].session_id by {
                assert(v.sessions[s1].session_id != v.sessions[s2].session_id);
            }
        }
    }
}

/// Settling a replay keeps the tables well formed.
pub proof fn lemma_replay_settled_wf(v: ManagerView, cli: u32, delivered: nat)
    requires
        v.wf(),
    ensures
        v.replay_settled(cli, delivered).wf(),
{
    let w = v.replay_settled(cli, delivered);
    assert forall|s1: u32, s2: u32|
        #![trigger w.sessions[s1], w.sessions[s2]]
        w.sessions.contains_key(s1) && w.sessions.contains_key(s2) && s1 != s2
            && w.sessions[s1].session_id is Some implies w.sessions[s1].session_id
        != w.sessions[s2].session_id by {
        assert(v.sessions[s1].session_id != v.sessions[s2].session_id);
    }
}

/// Recording what a client sent keeps the tables well formed.
pub proof fn lemma_record_input_wf(v: ManagerView, chat: Seq<char>, record: MessageRecord)
    requires
        v.wf(),
    ensures
        v.record_input(chat, record).wf(),
{
    let w = v.record_input(chat, record);
    assert forall|s1: u32, s2: u32|
        #![trigger w.sessions[s1], w.sessions[s2]]
        w.sessions.contains_key(s1) && w.sessions.contains_key(s2) && s1 != s2
            && w.sessions[s1].session_id is Some implies w.sessions[s1].session_id
        != w.sessions[s2].session_id by {
        assert(v.sessions[s1].session_id != v.sessions[s2].session_id);
    }
}

/// Taking in a session's message keeps the tables well formed.
pub proof fn lemma_cli_message_wf(v: ManagerView, cli: u32, data: ServerMessageData, now: i64)
    requires
        v.wf(),
    ensures
        v.cli_message(cli, data, now).wf(),
{
    let w = v.cli_message(cli, data, now);
    assert forall|s1: u32, s2: u32|
        #![trigger w.sessions[s1], w.sessions[s2]]
        w.sessions.contains_key(s1) && w.sessions.contains_key(s2) && s1 != s2
            && w.sessions[s1].session_id is Some implies w.sessions[s1].session_id
        != w.sessions[s2].session_id by {
        assert(v.sessions.contains_key(s1) && v.sessions.contains_key(s2));
        if s1 != cli && s2 != cli {
            assert(v.sessions[s1].session_id != v.sessions[s2].session_id);
        } else if s1 == cli {
            if w.sessions[s1].session_id != v.sessions[s1].session_id {
                assert(!v.has_session_id(data->Claude_0.session_id@));
            } else {
                assert(v.sessions[s1].session_id != v.sessions[s2].session_id);
            }
        } else {
            if w.sessions[s2].session_id != v.sessions[s2].session_id {
                assert(!v.has_session_id(data->Claude_0.session_id@));
            } else {
                assert(v.sessions[s1].session_id != v.sessions[s2].session_id);
            }
        }
    }
}

/// Counting a failed delivery keeps the tables well formed.
pub proof fn lemma_delivery_failed_wf(v: ManagerView, cli: u32)
    requires
        v.wf(),
    ensures
        v.delivery_failed(cli).wf(),
{
    let w = v.delivery_failed(cli);
    assert forall|s1: u32, s2: u32|
        #![trigger w.sessions[s1], w.sessions[s2]]
        w.sessions.contains_key(s1) && w.sessions.contains_key(s2) && s1 != s2
            && w.sessions[s1].session_id is Some implies w.sessions[s1].session_id
        != w.sessions[s2].session_id by {
        assert(v.sessions[s1].session_id != v.sessions[s2].session_id);
    }
}

/// Stopping sessions keeps the tables well formed.
pub proof fn lemma_stop_sessions_wf(v: ManagerView, dead: Set<u32>)
    requires
        v.wf(),
    ensures
        v.stop_sessions(dead).wf(),
{
    let w = v.stop_sessions(dead);
    assert forall|s1: u32, s2: u32|
        #![trigger w.sessions[s1], w.sessions[s2]]
        w.sessions.contains_key(s1) && w.sessions.contains_key(s2) && s1 != s2
            && w.sessions[s1].session_id is Some implies w.sessions[s1].session_id
        != w.sessions[s2].session_id by {
        assert(v.sessions[s1].session_id != v.sessions[s2].session_id);
    }
    assert forall|s: u32| #[trigger] w.sessions.contains_key(s) implies (
    w.sessions[s].subscriber matches Some(c) ==> w.chat_to_cli.contains_key(c)
        && w.chat_to_cli[c] == s && w.chat_to_conn.contains_key(c)) by {
        assert(v.sessions.contains_key(s));
    }
}

/// Stopping a session that does not live changes nothing.
pub proof fn lemma_stop_session_twice(v: ManagerView, cli: u32)
    requires
        v.wf(),
    ensures
        !v.sessions.contains_key(cli) ==> v.stop_session(cli) == v,
        v.stop_session(cli).stop_session(cli) == v.stop_session(cli),
{
    let w = v.stop_session(cli);
    lemma_stop_sessions_wf(v, set![cli]);
    if !v.sessions.contains_key(cli) {
        assert(w.sessions =~= v.sessions);
        assert(w.chat_to_cli =~= v.chat_to_cli);
        assert(w.chat_to_conn =~= v.chat_to_conn);
    }
    let x = w.stop_session(cli);
    assert(x.sessions =~= w.sessions);
    assert(x.chat_to_cli =~= w.chat_to_cli);
    assert(x.chat_to_conn =~= w.chat_to_conn);
}

/// Stopping one more session after some others is stopping them together.
pub proof fn lemma_stop_one_more(v: ManagerView, dead: Set<u32>, cli: u32)
    requires
        v.wf(),
    ensures
        v.stop_sessions(dead).stop_session(cli) == v.stop_sessions(dead.insert(cli)),
{
    let w = v.stop_sessions(dead);
    let x = w.stop_session(cli);
    let y = v.stop_sessions(dead.insert(cli));
    assert(x.sessions =~= y.sessions);
    assert(x.chat_to_cli =~= y.chat_to_cli);
    assert(x.chat_to_conn =~= y.chat_to_conn);
}

/// Stopping no session changes nothing.
pub proof fn lemma_stop_none(v: ManagerView)
    ensures
        v.stop_sessions(Set::empty()) == v,
{
    let w = v.stop_sessions(Set::empty());
    assert(w.sessions =~= v.sessions);
    assert(w.chat_to_cli =~= v.chat_to_cli);
    assert(w.chat_to_conn =~= v.chat_to_conn);
}

/// Starting a session for a registered chat keeps the tables well formed,
/// as long as session numbers are left.
pub proof fn lemma_attach_session_wf(
    v: ManagerView,
    chat: Seq<char>,
    work_dir: Seq<char>,
    session_id: Option<Seq<char>>,
    seed: Seq<MessageRecord>,
    now: i64,
)
    requires
        v.wf(),
        v.chat_to_conn.contains_key(chat),
        v.next_cli < u32::MAX,
    ensures
        v.attach_session(chat, work_dir, session_id, seed, now).wf(),
{
    let w = v.attach_session(chat, work_dir, session_id, seed, now);
    let id = v.next_cli;
    assert(!v.sessions.contains_key(id));
    assert(w.chats_have_sessions()) by {
        assert forall|c: Seq<char>| #[trigger] w.chat_to_cli.contains_key(c) implies
            w.sessions.contains_key(w.chat_to_cli[c]) by {
            if c != chat {
                assert(v.sessions.contains_key(v.chat_to_cli[c]));
            }
        }
    }
    assert(w.one_chat_per_session()) by {
        assert forall|c1: Seq<char>, c2: Seq<char>|
            #![trigger w.chat_to_cli[c1], w.chat_to_cli[c2]]
            w.chat_to_cli.contains_key(c1) && w.chat_to_cli.contains_key(c2) && w.chat_to_cli[c1]
                == w.chat_to_cli[c2] implies c1 == c2 by {
            if c1 != chat && c2 != chat {
                assert(v.chat_to_cli[c1] == v.chat_to_cli[c2]);
            } else if c1 != chat {
                assert(v.sessions.contains_key(v.chat_to_cli[c1]));
            } else if c2 != chat {
                assert(v.sessions.contains_key(v.chat_to_cli[c2]));
            }
        }
    }
    assert(w.subscribers_are_bound()) by {
        assert forall|s: u32| #[trigger] w.sessions.contains_key(s) implies (
        w.sessions[s].subscriber matches Some(c) ==> w.chat_to_cli.contains_key(c)
            && w.chat_to_cli[c] == s && w.chat_to_conn.contains_key(c)) by {
            if s != id {
                assert(v.sessions.contains_key(s));
                if w.sessions[s].subscriber is Some {
                    let c = w.sessions[s].subscriber->Some_0;
                    assert(v.sessions[s].subscriber == Some(c));
                    assert(v.chat_to_cli[c] == s);
                    if c == chat {
                        assert(v.chat_to_cli[chat] == s);
                    }
                }
            }
        }
    }
    assert(w.session_ids_differ()) by {
        assert forall|s1: u32, s2: u32|
            #![trigger w.sessions[s1], w.sessions[s2]]
            w.sessions.contains_key(s1) && w.sessions.contains_key(s2) && s1 != s2
                && w.sessions[s1].session_id is Some implies w.sessions[s1].session_id
            != w.sessions[s2].session_id by {
            if s1 != id && s2 != id {
                assert(v.sessions.contains_key(s1) && v.sessions.contains_key(s2));
                assert(v.sessions[s1].session_id != v.sessions[s2].session_id);
            } else if s1 == id {
                assert(v.sessions.contains_key(s2));
                assert(w.sessions[s2].session_id == v.sessions[s2].session_id);
                if w.sessions[s1].session_id == w.sessions[s2].session_id {
                    assert(v.has_session_id(session_id->Some_0));
                }
            } else {
                assert(v.sessions.contains_key(s1));
                assert(w.sessions[s1].session_id == v.sessions[s1].session_id);
                if w.sessions[s1].session_id == w.sessions[s2].session_id {
                    assert(v.has_session_id(session_id->Some_0));
                }
            }
        }
    }
    assert(w.numbers_are_used()) by {
        assert forall|s: u32| #[trigger] w.sessions.contains_key(s) implies s < w.next_cli by {
            if s != id {
                assert(v.sessions.contains_key(s));
            }
        }
    }
}

/// Taking over a live session by a registered chat keeps the tables well
/// formed.
pub proof fn lemma_resume_active_wf(v: ManagerView, chat: Seq<char>, cli: u32)
    requires
        v.wf(),
        v.chat_to_conn.contains_key(chat),
        v.sessions.contains_key(cli),
    ensures
        v.resume_active(chat, cli).wf(),
{
    let w = v.resume_active(chat, cli);
    assert(w.chats_have_connections()) by {
        assert forall|c: Seq<char>| #[trigger] w.chat_to_conn.contains_key(c) implies
            w.connections.contains(w.chat_to_conn[c]) by {
            assert(v.chat_to_conn.contains_key(c));
        }
    }
    assert(w.chats_have_sessions()) by {
        assert forall|c: Seq<char>| #[trigger] w.chat_to_cli.contains_key(c) implies
            w.sessions.contains_key(w.chat_to_cli[c]) by {
            if c != chat {
                assert(v.sessions.contains_key(v.chat_to_cli[c]));
            }
        }
    }
    assert(w.one_chat_per_session()) by {
        assert forall|c1: Seq<char>, c2: Seq<char>|
            #![trigger w.chat_to_cli[c1], w.chat_to_cli[c2]]
            w.chat_to_cli.contains_key(c1) && w.chat_to_cli.contains_key(c2) && w.chat_to_cli[c1]
                == w.chat_to_cli[c2] implies c1 == c2 by {
            if c1 != chat && c2 != chat {
                assert(v.chat_to_cli[c1] == v.chat_to_cli[c2]);
            }
        }
    }
    assert(w.subscribers_are_bound()) by {
        assert forall|s: u32| #[trigger] w.sessions.contains_key(s) implies (
        w.sessions[s].subscriber matches Some(c) ==> w.chat_to_cli.contains_key(c)
            && w.chat_to_cli[c] == s && w.chat_to_conn.contains_key(c)) by {
            if s != cli {
                assert(v.sessions.contains_key(s));
                if w.sessions[s].subscriber is Some {
                    let c = w.sessions[s].subscriber->Some_0;
                    assert(v.sessions[s].subscriber == Some(c));
                    assert(v.chat_to_cli[c] == s);
                }
            }
        }
    }
    assert(w.session_ids_differ()) by {
        assert forall|s1: u32, s2: u32|
            #![trigger w.sessions[s1], w.sessions[s2]]
            w.sessions.contains_key(s1) && w.sessions.contains_key(s2) && s1 != s2
                && w.sessions[s1].session_id is Some implies w.sessions[s1].session_id
            != w.sessions[s2].session_id by {
            assert(v.sessions.contains_key(s1) && v.sessions.contains_key(s2));
            assert(w.sessions[s1].session_id == v.sessions[s1].session_id);
            assert(w.sessions[s2].session_id == v.sessions[s2].session_id);
            assert(v.sessions[s1].session_id != v.sessions[s2].session_id);
        }
    }
    assert(w.numbers_are_used()) by {
        assert forall|s: u32| #[trigger] w.sessions.contains_key(s) implies s < w.next_cli by {
            assert(v.sessions.contains_key(s));
        }
    }
}

/// The text of the last record that holds what a user typed.
pub open spec fn last_user_input(messages: Seq<MessageRecord>) -> Option<Arc<String>>
    decreases messages.len(),
{
    if messages.len() == 0 {
        None
    } else if messages.last().message is UserInput {
        Some(messages.last().message->UserInput_0)
    } else {
        last_user_input(messages.drop_last())
    }
}

/// The places that a replay visits lie at or behind its start, hold records
/// that can be replayed, and come in the order of the cache.
pub proof fn lemma_replay_in_order(messages: Seq<MessageRecord>, from: int, j: int, k: int)
    requires
        0 <= j < k < replayable_from(messages, from).len(),
    ensures
        from <= replayable_from(messages, from)[j] < replayable_from(messages, from)[k]
            < messages.len(),
        replay_form(messages[replayable_from(messages, from)[j]].message) is Some,
        replay_form(messages[replayable_from(messages, from)[k]].message) is Some,
    decreases messages.len() - from,
{
    if from < 0 || from >= messages.len() {
    } else if replay_form(messages[from].message) is Some {
        if j > 0 {
            lemma_replay_in_order(messages, from + 1, j - 1, k - 1);
        } else {
            lemma_replay_bounds(messages, from + 1, k - 1);
        }
    } else {
        lemma_replay_in_order(messages, from + 1, j, k);
    }
}

/// Every place that a replay visits lies at or behind its start and holds a
/// record that can be replayed.
pub proof fn lemma_replay_bounds(messages: Seq<MessageRecord>, from: int, k: int)
    requires
        0 <= k < replayable_from(messages, from).len(),
    ensures
        from <= replayable_from(messages, from)[k] < messages.len(),
        0 <= replayable_from(messages, from)[k],
        replay_form(messages[replayable_from(messages, from)[k]].message) is Some,
    decreases messages.len() - from,
{
    if from < 0 || from >= messages.len() {
    } else if replay_form(messages[from].message) is Some {
        if k > 0 {
            lemma_replay_bounds(messages, from + 1, k - 1);
        }
    } else {
        lemma_replay_bounds(messages, from + 1, k);
    }
}

/// One step of the manager.
pub enum ManagerEvent {
    NewConnect { conn: u32 },
    ConnectionClosed { conn: u32 },
    RegisterChat { conn: u32, chat: Seq<char> },
    ReplaySettled { cli: u32, delivered: nat },
    ClientInput { chat: Seq<char>, record: MessageRecord },
    CliMessage { cli: u32, data: ServerMessageData, now: i64 },
    DeliveryFailed { cli: u32 },
    StopSession { cli: u32 },
    CleanSessions { now: i64 },
    StartSession {
        chat: Seq<char>,
        work_dir: Seq<char>,
        session_id: Option<Seq<char>>,
        seed: Seq<MessageRecord>,
        now: i64,
    },
    ResumeSession { chat: Seq<char>, cli: u32 },
}

impl ManagerView {
    /// Whether the step `e` can be taken. A session is started or taken over
    /// only for a registered chat, started only while session numbers are
    /// left, and taken over only while it lives; every other step can always
    /// be taken.
    pub open spec fn admits(self, e: ManagerEvent) -> bool {
        match e {
            ManagerEvent::StartSession { chat, .. } => self.chat_to_conn.contains_key(chat)
                && self.next_cli < u32::MAX,
            ManagerEvent::ResumeSession { chat, cli } => self.chat_to_conn.contains_key(chat)
                && self.sessions.contains_key(cli),
            _ => true,
        }
    }

    /// The tables after the step `e`.
    pub open spec fn apply(self, e: ManagerEvent) -> ManagerView {
        match e {
            ManagerEvent::NewConnect { conn } => self.new_connect(conn),
            ManagerEvent::ConnectionClosed { conn } => self.connection_closed(conn),
            ManagerEvent::RegisterChat { conn, chat } => self.register_chat(conn, chat),
            ManagerEvent::ReplaySettled { cli, delivered } => self.replay_settled(cli, delivered),
            ManagerEvent::ClientInput { chat, record } => self.record_input(chat, record),
            ManagerEvent::CliMessage { cli, data, now } => self.cli_message(cli, data, now),
            ManagerEvent::DeliveryFailed { cli } => self.delivery_failed(cli),
            ManagerEvent::StopSession { cli } => self.stop_session(cli),
            ManagerEvent::CleanSessions { now } => self.clean_sessions(now),
            ManagerEvent::StartSession { chat, work_dir, session_id, seed, now } =>
                self.attach_session(chat, work_dir, session_id, seed, now),
            ManagerEvent::ResumeSession { chat, cli } => self.resume_active(chat, cli),
        }
    }

    /// Whether every session that lives in both states has, in `later`, the
    /// cache it has in `self` and possibly more behind it.
    pub open spec fn caches_grow_into(self, later: ManagerView) -> bool {
        forall|s: u32|
            self.sessions.contains_key(s) && #[trigger] later.sessions.contains_key(s)
                ==> self.sessions[s].messages.is_prefix_of(later.sessions[s].messages)
    }
}

/// Every step that can be taken from well-formed tables leaves well-formed
/// tables. So in every state that the manager reaches, each bound chat has a
/// live session, each session has at most one chat and one subscriber, and
/// no two live sessions have the same name.
pub proof fn lemma_step_keeps_wf(v: ManagerView, e: ManagerEvent)
    requires
        v.wf(),
        v.admits(e),
    ensures
        v.apply(e).wf(),
{
    match e {
        ManagerEvent::NewConnect { conn } => lemma_new_connect_wf(v, conn),
        ManagerEvent::ConnectionClosed { conn } => lemma_connection_closed_wf(v, conn),
        ManagerEvent::RegisterChat { conn, chat } => lemma_register_chat_wf(v, conn, chat),
        ManagerEvent::ReplaySettled { cli, delivered } => lemma_replay_settled_wf(
            v,
            cli,
            delivered,
        ),
        ManagerEvent::ClientInput { chat, record } => lemma_record_input_wf(v, chat, record),
        ManagerEvent::CliMessage { cli, data, now } => lemma_cli_message_wf(v, cli, data, now),
        ManagerEvent::DeliveryFailed { cli } => lemma_delivery_failed_wf(v, cli),
        ManagerEvent::StopSession { cli } => lemma_stop_sessions_wf(v, set![cli]),
        ManagerEvent::CleanSessions { now } => lemma_stop_sessions_wf(v, v.expired(now)),
        ManagerEvent::StartSession { chat, work_dir, session_id, seed, now } =>
            lemma_attach_session_wf(v, chat, work_dir, session_id, seed, now),
        ManagerEvent::ResumeSession { chat, cli } => lemma_resume_active_wf(v, chat, cli),
    }
}

/// The empty tables are well formed.
pub proof fn lemma_empty_wf(idle_ttl_ms: i64)
    ensures
        ManagerView::empty(idle_ttl_ms).wf(),
{
}

/// In well-formed tables every bound chat has a live session.
pub proof fn lemma_bound_chat_has_session(v: ManagerView, chat: Seq<char>)
    requires
        v.wf(),
        v.chat_to_cli.contains_key(chat),
    ensures
        v.sessions.contains_key(v.chat_to_cli[chat]),
{
}

/// In well-formed tables two chats that subscribe to live sessions subscribe
/// to different ones, and two chats bound to one session are one chat.
pub proof fn lemma_one_subscriber(v: ManagerView, s1: u32, s2: u32)
    requires
        v.wf(),
        v.sessions.contains_key(s1),
        v.sessions.contains_key(s2),
        v.sessions[s1].subscriber is Some,
        v.sessions[s1].subscriber == v.sessions[s2].subscriber,
    ensures
        s1 == s2,
{
}

/// In well-formed tables a name belongs to at most one live session.
pub proof fn lemma_one_session_per_name(v: ManagerView, s1: u32, s2: u32, id: Seq<char>)
    requires
        v.wf(),
        v.sessions.contains_key(s1),
        v.sessions.contains_key(s2),
        v.sessions[s1].session_id == Some(id),
        v.sessions[s2].session_id == Some(id),
    ensures
        s1 == s2,
{
    if s1 != s2 {
        assert(v.sessions[s1].session_id != v.sessions[s2].session_id);
    }
}

/// After a connection closed, no chat speaks through it and no session has a
/// subscriber that spoke through it.
pub proof fn lemma_closed_connection_is_gone(v: ManagerView, conn: u32)
    requires
        v.wf(),
    ensures
        !v.connection_closed(conn).connections.contains(conn),
        forall|c: Seq<char>| #[trigger]
            v.connection_closed(conn).chat_to_conn.contains_key(c) ==> v.connection_closed(
                conn,
            ).chat_to_conn[c] != conn,
        forall|s: u32| #[trigger]
            v.connection_closed(conn).sessions.contains_key(s) ==> (v.connection_closed(
                conn,
            ).sessions[s].subscriber matches Some(c) ==> !v.speaks_through(c, conn)),
        forall|s: u32| #[trigger]
            v.sessions.contains_key(s) <==> v.connection_closed(conn).sessions.contains_key(s),
{
}

/// No step takes anything out of the cache of a session that lives on, or
/// changes what is in it.
pub proof fn lemma_step_appends(v: ManagerView, e: ManagerEvent)
    requires
        v.wf(),
        v.admits(e),
    ensures
        v.caches_grow_into(v.apply(e)),
{
    let w = v.apply(e);
    assert forall|s: u32|
        v.sessions.contains_key(s) && #[trigger] w.sessions.contains_key(s)
            implies v.sessions[s].messages.is_prefix_of(w.sessions[s].messages) by {
        match e {
            ManagerEvent::StartSession { chat, work_dir, session_id, seed, now } => {
                assert(s != v.next_cli);
            },
            _ => {},
        }
    }
}

/// Taking over a live session leaves it alive with its cache as it was, and
/// makes the taker its subscriber.
pub proof fn lemma_resume_keeps_session(v: ManagerView, chat: Seq<char>, cli: u32)
    requires
        v.wf(),
        v.chat_to_conn.contains_key(chat),
        v.sessions.contains_key(cli),
    ensures
        v.resume_active(chat, cli).sessions.contains_key(cli),
        v.resume_active(chat, cli).sessions[cli].messages == v.sessions[cli].messages,
        v.resume_active(chat, cli).sessions[cli].subscriber == Some(chat),
        v.resume_active(chat, cli).sessions[cli].session_id == v.sessions[cli].session_id,
{
}

/// A message from a session without a subscriber makes its lag grow and
/// takes nothing out of its cache; a failed delivery does the same.
pub proof fn lemma_lag_grows(v: ManagerView, cli: u32, data: ServerMessageData, now: i64)
    requires
        v.wf(),
        v.sessions.contains_key(cli),
    ensures
        v.sessions[cli].subscriber is None ==> v.cli_message(cli, data, now).sessions[cli].lag_count
            == next_count(v.sessions[cli].lag_count),
        v.sessions[cli].messages.is_prefix_of(v.cli_message(cli, data, now).sessions[cli].messages),
        v.delivery_failed(cli).sessions[cli].lag_count == next_count(v.sessions[cli].lag_count),
        v.delivery_failed(cli).sessions[cli].messages == v.sessions[cli].messages,
{
}

/// A replay of which every message arrived leaves no lag, and a replay that
/// was cut short leaves the lag that a second replay needs to go on where the
/// first one ended.
pub proof fn lemma_replay_settles_lag(v: ManagerView, cli: u32, delivered: nat)
    requires
        v.wf(),
        v.sessions.contains_key(cli),
    ensures
        delivered >= v.sessions[cli].replay_data().len() ==> v.replay_settled(
            cli,
            delivered,
        ).sessions[cli].lag_count == 0,
        delivered < v.sessions[cli].replay_data().len() ==> lag_start(
            v.sessions[cli].messages.len(),
            v.replay_settled(cli, delivered).sessions[cli].lag_count,
        ) == v.sessions[cli].replay_places()[delivered as int],
        v.replay_settled(cli, delivered).sessions[cli].messages == v.sessions[cli].messages,
{
    let s = v.sessions[cli];
    if delivered < s.replay_data().len() {
        lemma_replay_bounds(s.messages, lag_start(s.messages.len(), s.lag_count), delivered as int);
        let place = s.replay_places()[delivered as int];
        assert(0 <= place < s.messages.len());
        assert(lag_start(s.messages.len(), s.lag_count) <= place);
        assert(s.messages.len() - place <= s.lag_count) by {
            if s.lag_count as nat >= s.messages.len() {
            } else {
                assert(lag_start(s.messages.len(), s.lag_count) == s.messages.len() - s.lag_count);
            }
        }
    }
}

/// After the idle sessions were stopped, none of them lives, and every
/// session that was not idle lives on unchanged.
pub proof fn lemma_clean_stops_idle(v: ManagerView, now: i64, s: u32)
    requires
        v.wf(),
        v.sessions.contains_key(s),
    ensures
        is_expired(now, v.sessions[s].last_activity, v.idle_ttl_ms) ==> !v.clean_sessions(
            now,
        ).sessions.contains_key(s),
        !is_expired(now, v.sessions[s].last_activity, v.idle_ttl_ms) ==> v.clean_sessions(
            now,
        ).sessions.contains_key(s) && v.clean_sessions(now).sessions[s] == v.sessions[s],
{
}

} // verus!
