//! The chat manager together with the writers of its connections: it takes
//! each message of the manager's mailbox, lets the manager decide, and sends
//! what is to be sent.

use crate::server::chat::{
    forwards_or_reports, has_stop, is_stop_action, lists_sessions, reports_error, resume_actions,
    session_closed_text, start_plan, stops_all, stops_session, BizResult, ChatManager, CliId,
    ClientStep, ConnId, ManagerAction, Resumed, SessionCommand, SessionInfo, StartChatError,
    StartChatOptions, StartPlan, DEFAULT_IDLE_TTL_MS,
};
use crate::server::message::{
    ChatId, ClientMessage, ClientMessageData, ServerMessage, ServerMessageData,
};
use crate::server::model::{CacheMessage, ManagerView, MessageRecord};
use crate::text::opt_text;
use crate::types::options::PermissionMode;
use vstd::prelude::*;

verus! {

/// The writer's end of a connection is gone.
#[derive(Clone, Copy, Debug, PartialEq, Eq, Structural)]
pub struct WriterClosed;

/// Sends messages to the client of one connection.
pub trait WsWriter {
    /// Hands `msg` over for sending. An error says that it will not arrive.
    fn send_msg(&self, msg: ServerMessage) -> Result<(), WriterClosed>;
}

/// An open connection and its writer.
pub struct Connection<W> {
    pub conn_id: ConnId,
    pub writer: W,
}

/// The commands for sessions among `actions`, in order.
pub open spec fn forwards(actions: Seq<ManagerAction>) -> Seq<ManagerAction>
    decreases actions.len(),
{
    if actions.len() == 0 {
        seq![]
    } else if actions.last() is Forward {
        forwards(actions.drop_last()).push(actions.last())
    } else {
        forwards(actions.drop_last())
    }
}

/// Whether `commands` hand `command` to the session that `chat` is bound to:
/// that one command where it is bound, nothing where it is not.
pub open spec fn commands_session(
    v: ManagerView,
    chat: Seq<char>,
    command: SessionCommand,
    commands: Seq<ManagerAction>,
) -> bool {
    if v.chat_to_cli.contains_key(chat) {
        commands == seq![
            ManagerAction::Forward { cli_id: CliId(v.chat_to_cli[chat]), command },
        ]
    } else {
        commands.len() == 0
    }
}

/// Whether `commands` tell the session `cli` to stop: that one command where
/// the session lives, nothing where it does not.
pub open spec fn commands_stop(v: ManagerView, cli: u32, commands: Seq<ManagerAction>) -> bool {
    if v.sessions.contains_key(cli) {
        commands == seq![
            ManagerAction::Forward { cli_id: CliId(cli), command: SessionCommand::Stop },
        ]
    } else {
        commands.len() == 0
    }
}

/// The commands among the actions that hand a command to a chat's session,
/// or report that there is none, are that command or nothing.
pub proof fn lemma_forwards_command(
    v: ManagerView,
    chat: Seq<char>,
    command: SessionCommand,
    actions: Seq<ManagerAction>,
)
    requires
        forwards_or_reports(v, chat, command, actions),
    ensures
        commands_session(v, chat, command, forwards(actions)),
{
    reveal_with_fuel(forwards, 3);
    if actions.len() == 1 {
        assert(actions.drop_last().len() == 0);
        assert(forwards(actions) =~= if actions[0] is Forward {
            seq![actions[0]]
        } else {
            seq![]
        });
    }
}

/// The commands among the actions that stop a session are the command to
/// stop, or nothing.
pub proof fn lemma_forwards_stop(v: ManagerView, cli: u32, actions: Seq<ManagerAction>)
    requires
        stops_session(v, cli, actions),
    ensures
        commands_stop(v, cli, forwards(actions)),
{
    reveal_with_fuel(forwards, 4);
    if actions.len() == 1 {
        assert(actions.drop_last().len() == 0);
        assert(forwards(actions) =~= seq![actions[0]]);
    } else if actions.len() == 2 {
        assert(actions.drop_last().len() == 1);
        assert(actions.drop_last().drop_last().len() == 0);
        assert(actions.drop_last()[0] == actions[0]);
        assert(forwards(actions.drop_last()) =~= seq![actions[0]]);
        assert(forwards(actions) =~= seq![actions[0]]);
    }
}

/// Whether the tables `w` and the answer `r` are the outcome of the client's
/// message `msg`, which came through `conn` at the time `now` when the tables
/// were `v`.
pub open spec fn client_outcome(
    v: ManagerView,
    conn: u32,
    msg: ClientMessage,
    now: i64,
    w: ManagerView,
    r: ManagerReply,
) -> bool {
    let chat = msg.chat_id@;
    match msg.data {
        ClientMessageData::RegisterChat => {
            &&& r matches ManagerReply::Replayed(delivered)
            &&& if v.connections.contains(conn) && v.chat_to_cli.contains_key(chat) {
                &&& delivered <= v.sessions[v.chat_to_cli[chat]].replay_data().len()
                &&& w == v.register_chat(conn, chat).replay_settled(
                    v.chat_to_cli[chat],
                    delivered as nat,
                )
            } else {
                delivered == 0 && w == v.register_chat(conn, chat)
            }
        },
        ClientMessageData::UserInput(u) => {
            &&& w == v.record_input(
                chat,
                MessageRecord { timestamp: now, message: CacheMessage::UserInput(u.content) },
            )
            &&& r matches ManagerReply::Commands(c)
            &&& commands_session(v, chat, SessionCommand::UserInput(u.content), c@)
        },
        ClientMessageData::PermissionResp(p) => {
            &&& w == v.record_input(
                chat,
                MessageRecord { timestamp: now, message: CacheMessage::PermissionResp(p) },
            )
            &&& r matches ManagerReply::Commands(c)
            &&& commands_session(v, chat, SessionCommand::PermissionResp(p), c@)
        },
        ClientMessageData::SetMode { mode } => {
            &&& w == v
            &&& r matches ManagerReply::Commands(c)
            &&& commands_session(v, chat, SessionCommand::SetMode(mode), c@)
        },
        ClientMessageData::GetInfo => {
            &&& w == v
            &&& r matches ManagerReply::Commands(c)
            &&& commands_session(v, chat, SessionCommand::GetInfo, c@)
        },
        ClientMessageData::Interrupt => {
            &&& w == v
            &&& r matches ManagerReply::Commands(c)
            &&& commands_session(v, chat, SessionCommand::Interrupt, c@)
        },
        ClientMessageData::StopSession => {
            &&& r matches ManagerReply::Commands(c)
            &&& if v.chat_to_cli.contains_key(chat) {
                w == v.stop_session(v.chat_to_cli[chat]) && commands_stop(
                    v,
                    v.chat_to_cli[chat],
                    c@,
                )
            } else {
                w == v && c@.len() == 0
            }
        },
    }
}

/// The commands among two lists of actions, one behind the other, are the
/// commands of the first and then those of the second.
pub proof fn lemma_forwards_concat(a: Seq<ManagerAction>, b: Seq<ManagerAction>)
    ensures
        forwards(a + b) == forwards(a) + forwards(b),
    decreases b.len(),
{
    if b.len() == 0 {
        assert(a + b =~= a);
        assert(forwards(a) + forwards(b) =~= forwards(a));
    } else {
        lemma_forwards_concat(a, b.drop_last());
        assert((a + b).drop_last() =~= a + b.drop_last());
        assert((a + b).last() == b.last());
        if b.last() is Forward {
            assert(forwards(a + b) =~= forwards(a) + forwards(b));
        }
    }
}

/// An action is among the commands exactly when it is a command among the
/// actions.
pub proof fn lemma_forwards_contains(actions: Seq<ManagerAction>, a: ManagerAction)
    ensures
        forwards(actions).contains(a) <==> (a is Forward && actions.contains(a)),
    decreases actions.len(),
{
    if actions.len() > 0 {
        let head = actions.drop_last();
        lemma_forwards_contains(head, a);
        if actions.contains(a) {
            let k = choose|k: int| 0 <= k < actions.len() && actions[k] == a;
            if k < head.len() {
                assert(head[k] == a);
            }
        }
        if head.contains(a) {
            let k = choose|k: int| 0 <= k < head.len() && head[k] == a;
            assert(actions[k] == a);
        }
        if actions.last() is Forward {
            let f = forwards(head);
            let g = f.push(actions.last());
            if f.contains(a) {
                let k = choose|k: int| 0 <= k < f.len() && f[k] == a;
                assert(g[k] == a);
            }
            if g.contains(a) {
                let k = choose|k: int| 0 <= k < g.len() && g[k] == a;
                if k < f.len() {
                    assert(f[k] == a);
                } else {
                    assert(actions[actions.len() - 1] == a);
                }
            }
            if a == actions.last() {
                assert(g[f.len() as int] == a);
                assert(actions[actions.len() - 1] == a);
            }
        } else {
            if actions.contains(a) && a is Forward {
                let k = choose|k: int| 0 <= k < actions.len() && actions[k] == a;
                assert(k < head.len());
                assert(head[k] == a);
            }
        }
    }
}

/// Whether `commands` tell the session `cli` its new mode, where one is
/// given, and nothing else.
pub open spec fn commands_mode(cli: u32, mode: Option<PermissionMode>, commands: Seq<ManagerAction>) -> bool {
    match mode {
        Some(m) => commands == seq![
            ManagerAction::Forward { cli_id: CliId(cli), command: SessionCommand::SetMode(m) },
        ],
        None => commands.len() == 0,
    }
}

/// The commands among the actions of a take-over are the change of mode, or
/// nothing.
pub proof fn lemma_forwards_resume(
    v: ManagerView,
    chat: Seq<char>,
    cli: u32,
    mode: Option<PermissionMode>,
    actions: Seq<ManagerAction>,
)
    requires
        resume_actions(v, chat, cli, mode, actions),
    ensures
        commands_mode(cli, mode, forwards(actions)),
{
    reveal_with_fuel(forwards, 4);
    if actions.len() == 1 {
        assert(actions.drop_last().len() == 0);
        if mode is Some {
            assert(forwards(actions) =~= seq![actions[0]]);
        } else {
            assert(forwards(actions) =~= seq![]);
        }
    } else if actions.len() == 2 {
        assert(actions.drop_last().len() == 1);
        assert(actions.drop_last().drop_last().len() == 0);
        assert(actions.drop_last()[0] == actions[0]);
        assert(forwards(actions.drop_last()) =~= seq![]);
        assert(forwards(actions) =~= seq![actions[1]]);
    }
}

/// Whether `commands` tell each live session in `dead` to stop, and nothing
/// else.
pub open spec fn commands_stop_all(v: ManagerView, dead: Set<u32>, commands: Seq<ManagerAction>) -> bool {
    &&& forall|k: int|
        0 <= k < commands.len() ==> {
            &&& (#[trigger] commands[k]) matches ManagerAction::Forward { cli_id, command }
            &&& command is Stop
            &&& dead.contains(cli_id.0)
            &&& v.sessions.contains_key(cli_id.0)
        }
    &&& forall|cli: u32|
        dead.contains(cli) && #[trigger] v.sessions.contains_key(cli) ==> has_stop(commands, cli)
}

/// The commands among the actions that stop some sessions tell each of them
/// to stop, and nothing else.
pub proof fn lemma_forwards_stop_all(v: ManagerView, dead: Set<u32>, actions: Seq<ManagerAction>)
    requires
        stops_all(v, dead, actions),
    ensures
        commands_stop_all(v, dead, forwards(actions)),
{
    let c = forwards(actions);
    assert forall|k: int| 0 <= k < c.len() implies {
        &&& (#[trigger] c[k]) matches ManagerAction::Forward { cli_id, command }
        &&& command is Stop
        &&& dead.contains(cli_id.0)
        &&& v.sessions.contains_key(cli_id.0)
    } by {
        lemma_forwards_contains(actions, c[k]);
        assert(c.contains(c[k]));
        let j = choose|j: int| 0 <= j < actions.len() && actions[j] == c[k];
        assert(is_stop_action(v, dead, actions[j]));
    }
    assert forall|cli: u32| dead.contains(cli) && #[trigger] v.sessions.contains_key(cli) implies has_stop(
        c,
        cli,
    ) by {
        let want = ManagerAction::Forward { cli_id: CliId(cli), command: SessionCommand::Stop };
        let j = choose|j: int| 0 <= j < actions.len() && #[trigger] actions[j] == want;
        assert(actions.contains(want));
        lemma_forwards_contains(actions, want);
        let k = choose|k: int| 0 <= k < c.len() && c[k] == want;
        assert(c[k] == want);
    }
}

/// A message of the manager's mailbox.
pub enum ChatManagerMessage<W> {
    NewConnect { conn_id: ConnId, ws_writer: W },
    ClientMessage { conn_id: ConnId, msg: ClientMessage },
    /// A message from a session.
    CliMessage { cli_id: CliId, data: ServerMessageData },
    ConnectionClosed { conn_id: ConnId },
    GetActiveSessions { work_dir: String },
    StartChat { options: StartChatOptions },
    CleanSessions,
}

/// How far the start of a chat has come.
pub enum StartStep {
    /// The chat cannot be started.
    Rejected(StartChatError),
    /// A live session was taken over: the chat is started.
    Resumed(Resumed),
    /// A new child and a new session are to be started.
    Spawn,
    /// The transcript is to be loaded, and a child is to be started that
    /// goes on with its session.
    LoadTranscript,
}

/// What the manager answers to a message of its mailbox.
pub enum ManagerReply {
    /// Nothing but these commands for sessions.
    Commands(Vec<ManagerAction>),
    /// Whether the session's message reached a subscriber.
    Delivered(bool),
    /// The chat registered, and this many lagged messages were replayed.
    Replayed(usize),
    Sessions(Vec<SessionInfo>),
    /// How the chat is to be started.
    Start(StartPlan),
}

/// The manager and the writers of the open connections.
pub struct ChatHub<W> {
    manager: ChatManager,
    writers: Vec<Connection<W>>,
}

impl<W: WsWriter> ChatHub<W> {
    /// The manager's tables.
    pub closed spec fn tables(&self) -> ManagerView {
        self.manager@
    }

    /// The hub is in a state that its steps can start from.
    pub closed spec fn wf(&self) -> bool {
        self.manager.wf()
    }

    /// In a state that steps can start from, the tables are well formed.
    pub proof fn lemma_tables_wf(&self)
        requires
            self.wf(),
        ensures
            self.tables().wf(),
    {
    }

    /// A hub without connections, chats or sessions, which stops a session
    /// when it has been idle for more than `idle_ttl_ms` milliseconds.
    pub fn with_idle_ttl(idle_ttl_ms: i64) -> (r: Self)
        ensures
            r.wf(),
            r.tables() == ManagerView::empty(idle_ttl_ms),
    {
        ChatHub { manager: ChatManager::with_idle_ttl(idle_ttl_ms), writers: Vec::new() }
    }

    /// A hub without connections, chats or sessions, with the default idle
    /// time.
    pub fn new() -> (r: Self)
        ensures
            r.wf(),
            r.tables() == ManagerView::empty(DEFAULT_IDLE_TTL_MS),
    {
        ChatHub { manager: ChatManager::new(), writers: Vec::new() }
    }

    /// The manager, to look at.
    pub fn manager(&self) -> (r: &ChatManager)
        requires
            self.wf(),
        ensures
            r.wf(),
            r@ == self.tables(),
    {
        &self.manager
    }

    /// Whether the hub holds a writer for `conn`.
    pub closed spec fn has_writer(&self, conn: ConnId) -> bool {
        exists|i: int| 0 <= i < self.writers@.len() && (#[trigger] self.writers@[i]).conn_id == conn
    }

    /// The place of the first writer of `conn`.
    fn writer_index(&self, conn: ConnId) -> (r: Option<usize>)
        ensures
            match r {
                Some(i) => {
                    &&& i < self.writers@.len()
                    &&& self.writers@[i as int].conn_id == conn
                    &&& forall|j: int| 0 <= j < i ==> (#[trigger] self.writers@[j]).conn_id != conn
                    &&& self.has_writer(conn)
                },
                None => !self.has_writer(conn),
            },
    {
        let mut i: usize = 0;
        while i < self.writers.len()
            invariant
                i <= self.writers.len(),
                forall|j: int| 0 <= j < i ==> (#[trigger] self.writers@[j]).conn_id != conn,
            decreases self.writers.len() - i,
        {
            if self.writers[i].conn_id.0 == conn.0 {
                assert(self.writers@[i as int].conn_id == conn);
                return Some(i);
            }
            i = i + 1;
        }
        None
    }

    /// Sends `msg` through `conn`; false where the connection has no writer
    /// or the writer fails.
    fn send(&self, conn: ConnId, msg: ServerMessage) -> (r: bool)
        ensures
            !self.has_writer(conn) ==> !r,
    {
        match self.writer_index(conn) {
            Some(i) => {
                match self.writers[i].writer.send_msg(msg) {
                    Ok(_) => true,
                    Err(_) => false,
                }
            },
            None => false,
        }
    }

    /// Sends what is to be sent, whether it arrives or not, and keeps the
    /// commands for sessions.
    fn perform(&self, actions: Vec<ManagerAction>) -> (r: Vec<ManagerAction>)
        ensures
            r@ == forwards(actions@),
    {
        let ghost all = actions@;
        let mut out: Vec<ManagerAction> = Vec::new();
        let mut rest = actions;
        let ghost mut done: Seq<ManagerAction> = Seq::empty();
        assert(done + rest@ =~= all);
        while rest.len() > 0
            invariant
                done + rest@ == all,
                out@ == forwards(done),
            decreases rest.len(),
        {
            let ghost before = rest@;
            let a = rest.remove(0);
            proof {
                assert(done.push(a) + rest@ =~= done + before);
                assert(done.push(a).drop_last() =~= done);
                done = done.push(a);
            }
            match a {
                ManagerAction::Send { conn, msg } => {
                    let _ = self.send(conn, msg);
                },
                ManagerAction::Forward { cli_id, command } => {
                    out.push(ManagerAction::Forward { cli_id, command });
                },
            }
        }
        proof {
            assert(done =~= all);
        }
        out
    }

    /// A connection opens, with its writer.
    pub fn new_connect(&mut self, conn: ConnId, writer: W)
        requires
            old(self).wf(),
        ensures
            final(self).wf(),
            final(self).tables() == old(self).tables().new_connect(conn.0),
    {
        self.manager.new_connect(conn);
        match self.writer_index(conn) {
            Some(i) => {
                self.writers[i].writer = writer;
            },
            None => {
                self.writers.push(Connection { conn_id: conn, writer });
            },
        }
    }

    /// A connection closes: its writer is dropped, its chats are no longer
    /// registered, and the sessions that they subscribed to have no
    /// subscriber.
    pub fn connection_closed(&mut self, conn: ConnId)
        requires
            old(self).wf(),
        ensures
            final(self).wf(),
            final(self).tables() == old(self).tables().connection_closed(conn.0),
    {
        self.manager.connection_closed(conn);
        let ghost closed = self.manager;
        let mut i: usize = 0;
        while i < self.writers.len()
            invariant
                i <= self.writers.len(),
                self.manager == closed,
            decreases self.writers.len() - i,
        {
            if self.writers[i].conn_id.0 == conn.0 {
                self.writers.remove(i);
            } else {
                i = i + 1;
            }
        }
    }

    /// A chat registers on a connection, and the lagged messages of its
    /// session are replayed through the connection, in order, until one does
    /// not arrive. The result is the number of messages that arrived; the
    /// session's lag is what did not.
    pub fn regiter_chat(&mut self, conn: ConnId, chat: ChatId) -> (delivered: usize)
        requires
            old(self).wf(),
        ensures
            final(self).wf(),
            if old(self).tables().connections.contains(conn.0) && old(self).tables().chat_to_cli.contains_key(chat@) {
                &&& delivered <= old(self).tables().sessions[old(self).tables().chat_to_cli[chat@]].replay_data().len()
                &&& final(self).tables() == old(self).tables().register_chat(
                    conn.0,
                    chat@,
                ).replay_settled(old(self).tables().chat_to_cli[chat@], delivered as nat)
            } else {
                &&& delivered == 0
                &&& final(self).tables() == old(self).tables().register_chat(conn.0, chat@)
            },
    {
        let replay = self.manager.regiter_chat(conn, chat);
        let cli = match replay.cli {
            Some(c) => c,
            None => {
                return 0;
            },
        };
        let total = replay.messages.len();
        let mut rest = replay.messages;
        let mut delivered: usize = 0;
        while rest.len() > 0
            invariant
                delivered + rest.len() <= total,
            decreases rest.len(),
        {
            let msg = rest.remove(0);
            if !self.send(conn, msg) {
                break ;
            }
            delivered = delivered + 1;
        }
        self.manager.replay_settled(cli, delivered);
        delivered
    }

    /// A session sent a message: it is cached, and sent to the subscriber
    /// where there is one. The result says whether it arrived; where it did
    /// not, the session's lag has grown by one.
    pub fn handle_cli_message(&mut self, cli: CliId, data: ServerMessageData, now: i64) -> (delivered:
        bool)
        requires
            old(self).wf(),
        ensures
            final(self).wf(),
            delivered ==> old(self).tables().sessions.contains_key(cli.0) && old(self).tables().sessions[cli.0].subscriber is Some,
            final(self).tables() == if !delivered && old(self).tables().sessions.contains_key(cli.0)
                && old(self).tables().sessions[cli.0].subscriber is Some {
                old(self).tables().cli_message(cli.0, data, now).delivery_failed(cli.0)
            } else {
                old(self).tables().cli_message(cli.0, data, now)
            },
    {
        match self.manager.handle_cli_message(cli, data, now) {
            Some(d) => {
                if self.send(d.conn, d.msg) {
                    true
                } else {
                    self.manager.delivery_failed(cli);
                    false
                }
            },
            None => false,
        }
    }

    /// Tells the chat that is bound to the session `cli` that the session can
    /// no longer be reached, and stops the session. The result is the command
    /// that tells the session's transport to stop.
    pub fn session_unreachable(&mut self, cli: CliId) -> (r: Vec<ManagerAction>)
        requires
            old(self).wf(),
        ensures
            final(self).wf(),
            final(self).tables() == old(self).tables().stop_session(cli.0),
            commands_stop(old(self).tables(), cli.0, r@),
    {
        let ghost v = self.manager@;
        let actions = self.manager.session_unreachable(cli);
        proof {
            let k = choose|k: int|
                0 <= k <= actions@.len() && stops_session(v, cli.0, #[trigger] actions@.skip(k)) && (
                if v.has_chat_of(cli.0) {
                    reports_error(v, v.chat_of(cli.0), session_closed_text(), actions@.take(k))
                } else {
                    k == 0
                });
            let head = actions@.take(k);
            let tail = actions@.skip(k);
            assert(head + tail =~= actions@);
            lemma_forwards_concat(head, tail);
            lemma_forwards_stop(v, cli.0, tail);
            reveal_with_fuel(forwards, 3);
            if head.len() == 1 {
                assert(head.drop_last().len() == 0);
            }
            assert(forwards(head) =~= seq![]);
            assert(forwards(head) + forwards(tail) =~= forwards(tail));
        }
        self.perform(actions)
    }

    /// The chat `chat` takes over the live session `cli`: a chat that was
    /// bound to the session is told that it is removed. The result holds the
    /// session's whole cache, and the change of mode for the session where
    /// one is asked for.
    pub fn resume_active(&mut self, chat: &str, cli: CliId, options: &StartChatOptions) -> (r:
        Result<Resumed, StartChatError>)
        requires
            old(self).wf(),
        ensures
            final(self).wf(),
            match r {
                Ok(res) => {
                    &&& old(self).tables().chat_to_conn.contains_key(chat@)
                    &&& old(self).tables().sessions.contains_key(cli.0)
                    &&& final(self).tables() == old(self).tables().resume_active(chat@, cli.0)
                    &&& res.messages@ == old(self).tables().sessions[cli.0].messages
                    &&& commands_mode(cli.0, options.mode, res.actions@)
                },
                Err(e) => {
                    &&& final(self).tables() == old(self).tables()
                    &&& if !old(self).tables().chat_to_conn.contains_key(chat@) {
                        e is ChatNotRegistered
                    } else {
                        !old(self).tables().sessions.contains_key(cli.0) && e is SessionNotFound
                    }
                },
            },
    {
        let ghost v = self.manager@;
        match self.manager.resume_active(chat, cli, options.mode) {
            Ok(res) => {
                proof {
                    lemma_forwards_resume(v, chat@, cli.0, options.mode, res.actions@);
                }
                let commands = self.perform(res.actions);
                Ok(Resumed { messages: res.messages, actions: commands })
            },
            Err(e) => Err(e),
        }
    }

    /// Starts the chat of `options` as far as that takes no child: a chat
    /// that is not registered is refused, and a live session is taken over at
    /// once. The result says what is left to do: to start a new child, or to
    /// load the transcript and start a child that goes on with it.
    pub fn handle_start_chat(&mut self, options: &StartChatOptions) -> (r: StartStep)
        requires
            old(self).wf(),
        ensures
            final(self).wf(),
            match start_plan(old(self).tables(), options.chat_id@, opt_text(options.resume)) {
                StartPlan::Rejected(e) => r == StartStep::Rejected(e) && final(self).tables()
                    == old(self).tables(),
                StartPlan::Spawn => r is Spawn && final(self).tables() == old(self).tables(),
                StartPlan::LoadTranscript => r is LoadTranscript && final(self).tables() == old(
                    self,
                ).tables(),
                StartPlan::ResumeActive(cli) => {
                    &&& r matches StartStep::Resumed(res)
                    &&& final(self).tables() == old(self).tables().resume_active(
                        options.chat_id@,
                        cli.0,
                    )
                    &&& res.messages@ == old(self).tables().sessions[cli.0].messages
                    &&& commands_mode(cli.0, options.mode, res.actions@)
                },
            },
    {
        match self.manager.plan_start_chat(options) {
            StartPlan::Rejected(e) => StartStep::Rejected(e),
            StartPlan::Spawn => StartStep::Spawn,
            StartPlan::LoadTranscript => StartStep::LoadTranscript,
            StartPlan::ResumeActive(cli) => {
                proof {
                    let v = self.manager@;
                    let id = options.resume->Some_0@;
                    assert(v.sessions.contains_key(v.session_named(id)));
                }
                match self.resume_active(options.chat_id.as_str(), cli, options) {
                    Ok(res) => StartStep::Resumed(res),
                    Err(e) => {
                        assert(false);
                        StartStep::Rejected(e)
                    },
                }
            },
        }
    }

    /// A new session starts for `chat`; see `ChatManager::attach_session`.
    pub fn attach_session(
        &mut self,
        chat: &str,
        work_dir: String,
        session_id: Option<String>,
        seed: Vec<MessageRecord>,
        now: i64,
    ) -> (r: BizResult<CliId, StartChatError>)
        requires
            old(self).wf(),
        ensures
            final(self).wf(),
            match r {
                Ok(Ok(id)) => {
                    &&& old(self).tables().chat_to_conn.contains_key(chat@)
                    &&& old(self).tables().next_cli < u32::MAX
                    &&& id.0 == old(self).tables().next_cli
                    &&& final(self).tables() == old(self).tables().attach_session(
                        chat@,
                        work_dir@,
                        opt_text(session_id),
                        seed@,
                        now,
                    )
                },
                Ok(Err(e)) => {
                    &&& final(self).tables() == old(self).tables()
                    &&& !old(self).tables().chat_to_conn.contains_key(chat@)
                    &&& e is ChatNotRegistered
                },
                Err(_) => {
                    &&& final(self).tables() == old(self).tables()
                    &&& old(self).tables().chat_to_conn.contains_key(chat@)
                    &&& old(self).tables().next_cli == u32::MAX
                },
            },
    {
        self.manager.attach_session(chat, work_dir, session_id, seed, now)
    }

    /// Takes one message of the mailbox at the time `now`.
    ///
    /// What is to be sent to clients is sent; the answer holds what is left
    /// to do: commands for sessions, or the plan for starting a chat.
    pub fn handle_msg(&mut self, msg: ChatManagerMessage<W>, now: i64) -> (r: ManagerReply)
        requires
            old(self).wf(),
        ensures
            final(self).wf(),
            match msg {
                ChatManagerMessage::NewConnect { conn_id, .. } => {
                    &&& final(self).tables() == old(self).tables().new_connect(conn_id.0)
                    &&& r matches ManagerReply::Commands(c) && c@.len() == 0
                },
                ChatManagerMessage::ConnectionClosed { conn_id } => {
                    &&& final(self).tables() == old(self).tables().connection_closed(conn_id.0)
                    &&& r matches ManagerReply::Commands(c) && c@.len() == 0
                },
                ChatManagerMessage::CleanSessions => {
                    &&& final(self).tables() == old(self).tables().clean_sessions(now)
                    &&& r matches ManagerReply::Commands(c) && commands_stop_all(
                        old(self).tables(),
                        old(self).tables().expired(now),
                        c@,
                    )
                },
                ChatManagerMessage::GetActiveSessions { work_dir } => {
                    &&& final(self).tables() == old(self).tables()
                    &&& r matches ManagerReply::Sessions(infos) && lists_sessions(
                        old(self).tables(),
                        work_dir@,
                        infos@,
                    )
                },
                ChatManagerMessage::StartChat { options } => {
                    &&& final(self).tables() == old(self).tables()
                    &&& r matches ManagerReply::Start(plan) && plan == start_plan(
                        old(self).tables(),
                        options.chat_id@,
                        opt_text(options.resume),
                    )
                },
                ChatManagerMessage::CliMessage { cli_id, data } => {
                    &&& r matches ManagerReply::Delivered(delivered)
                    &&& final(self).tables() == if !delivered && old(self).tables().sessions.contains_key(cli_id.0) && old(self).tables().sessions[cli_id.0].subscriber is Some {
                        old(self).tables().cli_message(cli_id.0, data, now).delivery_failed(
                            cli_id.0,
                        )
                    } else {
                        old(self).tables().cli_message(cli_id.0, data, now)
                    }
                },
                ChatManagerMessage::ClientMessage { conn_id, msg } => client_outcome(
                    old(self).tables(),
                    conn_id.0,
                    msg,
                    now,
                    final(self).tables(),
                    r,
                ),
            },
    {
        match msg {
            ChatManagerMessage::NewConnect { conn_id, ws_writer } => {
                self.new_connect(conn_id, ws_writer);
                ManagerReply::Commands(Vec::new())
            },
            ChatManagerMessage::ClientMessage { conn_id, msg } => {
                self.handle_client_msg(conn_id, msg, now)
            },
            ChatManagerMessage::CliMessage { cli_id, data } => ManagerReply::Delivered(
                self.handle_cli_message(cli_id, data, now),
            ),
            ChatManagerMessage::ConnectionClosed { conn_id } => {
                self.connection_closed(conn_id);
                ManagerReply::Commands(Vec::new())
            },
            ChatManagerMessage::GetActiveSessions { work_dir } => ManagerReply::Sessions(
                self.manager.handle_get_active_sessions(work_dir.as_str()),
            ),
            ChatManagerMessage::StartChat { options } => ManagerReply::Start(
                self.manager.plan_start_chat(&options),
            ),
            ChatManagerMessage::CleanSessions => {
                let ghost v = self.manager@;
                let actions = self.manager.cleanup_inactive_sessions(now);
                proof {
                    lemma_forwards_stop_all(v, v.expired(now), actions@);
                }
                ManagerReply::Commands(self.perform(actions))
            },
        }
    }

    /// Takes a client's message at the time `now`: a registration with its
    /// replay, or anything else, for which the answer holds the commands for
    /// sessions.
    pub fn handle_client_msg(&mut self, conn: ConnId, msg: ClientMessage, now: i64) -> (r:
        ManagerReply)
        requires
            old(self).wf(),
        ensures
            final(self).wf(),
            client_outcome(old(self).tables(), conn.0, msg, now, final(self).tables(), r),
    {
        let ghost v = self.manager@;
        let ghost chat = msg.chat_id@;
        let ghost asked = msg.data;
        match msg.data {
            ClientMessageData::RegisterChat => ManagerReply::Replayed(
                self.regiter_chat(conn, msg.chat_id),
            ),
            _ => {
                match self.manager.handle_client_msg(conn, msg, now) {
                    ClientStep::Done(actions) => {
                        proof {
                            match asked {
                                ClientMessageData::UserInput(u) => lemma_forwards_command(
                                    v,
                                    chat,
                                    SessionCommand::UserInput(u.content),
                                    actions@,
                                ),
                                ClientMessageData::PermissionResp(p) => lemma_forwards_command(
                                    v,
                                    chat,
                                    SessionCommand::PermissionResp(p),
                                    actions@,
                                ),
                                ClientMessageData::SetMode { mode } => lemma_forwards_command(
                                    v,
                                    chat,
                                    SessionCommand::SetMode(mode),
                                    actions@,
                                ),
                                ClientMessageData::GetInfo => lemma_forwards_command(
                                    v,
                                    chat,
                                    SessionCommand::GetInfo,
                                    actions@,
                                ),
                                ClientMessageData::Interrupt => lemma_forwards_command(
                                    v,
                                    chat,
                                    SessionCommand::Interrupt,
                                    actions@,
                                ),
                                ClientMessageData::StopSession => {
                                    if v.chat_to_cli.contains_key(chat) {
                                        lemma_forwards_stop(v, v.chat_to_cli[chat], actions@);
                                    } else {
                                        assert(forwards(actions@) =~= seq![]);
                                    }
                                },
                                ClientMessageData::RegisterChat => {},
                            }
                        }
                        ManagerReply::Commands(self.perform(actions))
                    },
                    ClientStep::Registered(_) => {
                        assert(false);
                        ManagerReply::Commands(Vec::new())
                    },
                }
            },
        }
    }
}

} // verus!
