//! Control requests that the host sends to the child.

use crate::cli::info::{ClaudeSysInfo, ModelInfo, SlashCommand};
use crate::json::{
    json_from_text, json_insert, json_is_object, json_members, json_new_object,
    json_text_member,
};
use crate::types::options::PermissionMode;
use serde_json::Value;
use vstd::prelude::*;

verus! {

/// What the host can ask of a running child.
#[derive(Clone, Debug, PartialEq)]
pub enum QueryCommand {
    Interrupt {  },
    SetPermissionMode { mode: PermissionMode },
    SetModel { model: String },
}

impl QueryCommand {
    /// The command's name on the wire.
    pub open spec fn wire_name(&self) -> Seq<char> {
        match self {
            QueryCommand::Interrupt {  } => "interrupt"@,
            QueryCommand::SetPermissionMode { .. } => "set_permission_mode"@,
            QueryCommand::SetModel { .. } => "set_model"@,
        }
    }

    /// The command's name on the wire.
    pub fn name(&self) -> (r: &'static str)
        ensures
            r@ == self.wire_name(),
    {
        match self {
            QueryCommand::Interrupt {  } => "interrupt",
            QueryCommand::SetPermissionMode { .. } => "set_permission_mode",
            QueryCommand::SetModel { .. } => "set_model",
        }
    }
}

/// Calls `nanoid::format` with the crate's default random source, its
/// URL-safe alphabet and the length 21, as the crate's own shorthand does:
/// a random name of 21 characters.
#[verifier::external_body]
pub(crate) fn gen_request_id() -> (r: String)
    ensures
        r@.len() == 21,
{
    nanoid::format(nanoid::rngs::default, &nanoid::alphabet::SAFE, 21)
}

/// Whether `v` is an object whose members are exactly those of `members`
/// that are present, each a string with the given text.
pub open spec fn is_text_object(v: Value, members: Map<Seq<char>, Seq<char>>) -> bool {
    &&& json_is_object(v)
    &&& json_members(v).dom() == members.dom()
    &&& forall|k: Seq<char>| #[trigger]
        members.contains_key(k) ==> json_text_member(v, k) == Some(members[k])
}

/// The members of the body of the request for `command`.
pub open spec fn request_members(command: QueryCommand) -> Map<Seq<char>, Seq<char>> {
    match command {
        QueryCommand::Interrupt {  } => map!["subtype"@ => "interrupt"@],
        QueryCommand::SetPermissionMode { mode } => map![
            "subtype"@ => "set_permission_mode"@,
            "mode"@ => mode.wire_value(),
        ],
        QueryCommand::SetModel { model } => map!["subtype"@ => "set_model"@, "model"@ => model@],
    }
}

/// Whether `v` is a control request with the name `id` whose body has the
/// members `body`: an object with the members `request_id`, `type`, which is
/// `control_request`, and `request`.
pub open spec fn is_control_request(v: Value, id: Seq<char>, body: Map<Seq<char>, Seq<char>>) -> bool {
    &&& json_is_object(v)
    &&& json_members(v).dom() == set!["request_id"@, "type"@, "request"@]
    &&& json_text_member(v, "request_id"@) == Some(id)
    &&& json_text_member(v, "type"@) == Some("control_request"@)
    &&& is_text_object(json_members(v)["request"@], body)
}

/// Whether `v` is a control request, under some name, that asks for
/// `command`.
pub open spec fn asks_for(v: Value, command: QueryCommand) -> bool {
    exists|id: Seq<char>| #[trigger] is_control_request(v, id, request_members(command))
}

/// The frame of a control request with the name `id` around `body`.
fn wrap_request(id: &str, body: Value) -> (r: Value)
    ensures
        json_is_object(r),
        json_members(r).dom() == set!["request_id"@, "type"@, "request"@],
        json_text_member(r, "request_id"@) == Some(id@),
        json_text_member(r, "type"@) == Some("control_request"@),
        json_members(r)["request"@] == body,
{
    proof {
        reveal_strlit("request_id");
        reveal_strlit("type");
        reveal_strlit("request");
        assert("request_id"@.len() == 10 && "type"@.len() == 4 && "request"@.len() == 7);
    }
    let mut frame = json_new_object();
    json_insert(&mut frame, "request_id", json_from_text(id));
    json_insert(&mut frame, "type", json_from_text("control_request"));
    json_insert(&mut frame, "request", body);
    assert(json_members(frame).dom() =~= set!["request_id"@, "type"@, "request"@]);
    frame
}

/// The control request with the name `id` that asks for `command`.
pub fn control_request_frame(id: &str, command: &QueryCommand) -> (r: Value)
    ensures
        is_control_request(r, id@, request_members(*command)),
{
    proof {
        reveal_strlit("subtype");
        reveal_strlit("mode");
        reveal_strlit("model");
        assert("subtype"@.len() == 7 && "mode"@.len() == 4 && "model"@.len() == 5);
    }
    let mut body = json_new_object();
    json_insert(&mut body, "subtype", json_from_text(command.name()));
    match command {
        QueryCommand::Interrupt {  } => {},
        QueryCommand::SetPermissionMode { mode } => {
            json_insert(&mut body, "mode", json_from_text(mode.wire_name()));
        },
        QueryCommand::SetModel { model } => {
            json_insert(&mut body, "model", json_from_text(model.as_str()));
        },
    }
    assert(json_members(body).dom() =~= request_members(*command).dom());
    wrap_request(id, body)
}

/// The control request with the name `id` that opens a stream: its body
/// holds the one member `subtype`, which is `initialize`.
pub fn initialize_frame(id: &str) -> (r: Value)
    ensures
        is_control_request(r, id@, map!["subtype"@ => "initialize"@]),
{
    let mut body = json_new_object();
    json_insert(&mut body, "subtype", json_from_text("initialize"));
    assert(json_members(body).dom() =~= map!["subtype"@ => "initialize"@].dom());
    wrap_request(id, body)
}

/// A control request and the name under which its answer is awaited.
#[derive(Clone, Debug, PartialEq)]
pub struct NamedRequest {
    pub id: String,
    pub frame: Value,
}

/// The control request that opens a stream, under a new random name.
pub fn initialize_request() -> (r: NamedRequest)
    ensures
        is_control_request(r.frame, r.id@, map!["subtype"@ => "initialize"@]),
{
    let id = gen_request_id();
    let frame = initialize_frame(id.as_str());
    NamedRequest { id, frame }
}

/// Why a request cannot be made of a stream.
#[derive(Clone, Debug, PartialEq)]
pub enum QueryError {
    /// The command needs a stream that takes input; the child was started
    /// with a single question.
    RequiresStreaming(String),
    /// The child reports its commands and models only when it takes a stream
    /// of input.
    NoSysInfo,
}

/// What the owner of a transport knows about it.
#[derive(Debug)]
pub struct QueryStream {
    /// Whether the child takes a stream of input.
    pub has_writer: bool,
    pub claude_sys_info: Option<ClaudeSysInfo>,
    pub session_id: Option<String>,
}

/// Copies of the commands.
fn copy_commands(v: &Vec<SlashCommand>) -> (r: Vec<SlashCommand>)
    ensures
        r@ == v@,
{
    let mut out: Vec<SlashCommand> = Vec::new();
    let mut i: usize = 0;
    while i < v.len()
        invariant
            i <= v.len(),
            out@ == v@.take(i as int),
        decreases v.len() - i,
    {
        out.push(
            SlashCommand {
                name: v[i].name.clone(),
                description: v[i].description.clone(),
                argument_hint: v[i].argument_hint.clone(),
            },
        );
        assert(out@ =~= v@.take(i + 1));
        i = i + 1;
    }
    assert(v@.take(v.len() as int) =~= v@);
    out
}

/// Copies of the models.
fn copy_models(v: &Vec<ModelInfo>) -> (r: Vec<ModelInfo>)
    ensures
        r@ == v@,
{
    let mut out: Vec<ModelInfo> = Vec::new();
    let mut i: usize = 0;
    while i < v.len()
        invariant
            i <= v.len(),
            out@ == v@.take(i as int),
        decreases v.len() - i,
    {
        out.push(
            ModelInfo {
                value: v[i].value.clone(),
                display_name: v[i].display_name.clone(),
                description: v[i].description.clone(),
            },
        );
        assert(out@ =~= v@.take(i + 1));
        i = i + 1;
    }
    assert(v@.take(v.len() as int) =~= v@);
    out
}

impl QueryStream {
    /// What is known of a transport that was just started. A child that
    /// takes a stream of input has answered the request that opens the
    /// stream with `sys_info`; a child that was started with a single
    /// question takes no input and has reported nothing.
    pub fn new(streaming: bool, sys_info: ClaudeSysInfo) -> (r: Self)
        ensures
            r.has_writer == streaming,
            r.claude_sys_info == (if streaming {
                Some(sys_info)
            } else {
                None
            }),
            r.session_id is None,
    {
        QueryStream {
            has_writer: streaming,
            claude_sys_info: if streaming {
                Some(sys_info)
            } else {
                None
            },
            session_id: None,
        }
    }

    /// The name of the session, once the child has given one.
    pub fn session_id(&self) -> (r: Option<&str>)
        ensures
            match r {
                Some(s) => self.session_id matches Some(t) && s@ == t@,
                None => self.session_id is None,
            },
    {
        match &self.session_id {
            Some(s) => Some(s.as_str()),
            None => None,
        }
    }

    /// The control request for `command`, under a new random name. Fails
    /// where the child takes no stream of input.
    pub fn send_req(&self, command: QueryCommand) -> (r: Result<Value, QueryError>)
        ensures
            match r {
                Ok(frame) => self.has_writer && asks_for(frame, command),
                Err(e) => {
                    &&& !self.has_writer
                    &&& e matches QueryError::RequiresStreaming(n)
                    &&& n@ == command.wire_name()
                },
            },
    {
        if !self.has_writer {
            return Err(QueryError::RequiresStreaming(command.name().to_owned()));
        }
        let id = gen_request_id();
        let frame = control_request_frame(id.as_str(), &command);
        assert(is_control_request(frame, id@, request_members(command)));
        Ok(frame)
    }

    /// The control request that interrupts the child.
    pub fn interrupt(&self) -> (r: Result<Value, QueryError>)
        ensures
            r is Ok <==> self.has_writer,
            r matches Ok(frame) ==> asks_for(frame, QueryCommand::Interrupt {  }),
    {
        self.send_req(QueryCommand::Interrupt {  })
    }

    /// The control request that sets the permission mode.
    pub fn set_permission_mode(&self, mode: PermissionMode) -> (r: Result<Value, QueryError>)
        ensures
            r is Ok <==> self.has_writer,
            r matches Ok(frame) ==> asks_for(frame, QueryCommand::SetPermissionMode { mode }),
    {
        self.send_req(QueryCommand::SetPermissionMode { mode })
    }

    /// The control request that sets the model.
    pub fn set_model(&self, model: String) -> (r: Result<Value, QueryError>)
        ensures
            r is Ok <==> self.has_writer,
            r matches Ok(frame) ==> asks_for(frame, QueryCommand::SetModel { model }),
    {
        self.send_req(QueryCommand::SetModel { model })
    }

    /// The commands that the child reported. Fails where it reported none,
    /// as it does when it was started with a single question.
    pub fn supported_commands(&self) -> (r: Result<Vec<SlashCommand>, QueryError>)
        ensures
            match r {
                Ok(c) => self.claude_sys_info matches Some(i) && c@ == i.supported_commands@,
                Err(e) => self.claude_sys_info is None && e == QueryError::NoSysInfo,
            },
    {
        match &self.claude_sys_info {
            Some(info) => Ok(copy_commands(&info.supported_commands)),
            None => Err(QueryError::NoSysInfo),
        }
    }

    /// The models that the child reported. Fails where it reported none.
    pub fn supported_models(&self) -> (r: Result<Vec<ModelInfo>, QueryError>)
        ensures
            match r {
                Ok(m) => self.claude_sys_info matches Some(i) && m@ == i.models@,
                Err(e) => self.claude_sys_info is None && e == QueryError::NoSysInfo,
            },
    {
        match &self.claude_sys_info {
            Some(info) => Ok(copy_models(&info.models)),
            None => Err(QueryError::NoSysInfo),
        }
    }
}

} // verus!
