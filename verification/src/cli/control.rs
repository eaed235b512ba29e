//! The control handler of a transport: it matches the child's answers with
//! the requests that wait for them, and answers the child's own requests.

use crate::cli::stop::StopReason;
use crate::json::{
    json_from_text, json_get, json_insert, json_is_object, json_member, json_members,
    json_new_object, json_string, json_text_member, text_member,
};
use crate::table::{
    as_map, lemma_as_map_absent, lemma_as_map_at, lemma_as_map_empty, lemma_as_map_key,
    lemma_as_map_push, lemma_as_map_remove, unique_keys,
};
use crate::text::same_text;
use crate::types::can_use_tool::PermissionUpdate;
use crate::types::tool_input::ToolUseParams;
use serde_json::Value;
use vstd::prelude::*;

verus! {

/// A request of an MCP server.
#[derive(Clone, Debug, PartialEq)]
pub struct McpMessageRequest {
    pub server_name: String,
    pub message: Value,
}

/// A call of a hook.
#[derive(Clone, Debug, PartialEq)]
pub struct HookCallbackRequest {
    pub callback_id: String,
    pub input: Value,
    pub tool_use_id: String,
}

/// The question whether a tool may be used.
#[derive(Clone, Debug, PartialEq)]
pub struct CanUseToolRequest {
    pub tool_use: ToolUseParams,
    pub permission_suggestions: Option<Vec<PermissionUpdate>>,
}

/// What the child can ask of the host.
#[derive(Clone, Debug, PartialEq)]
pub enum ControlRequstMessage {
    CanUseTool(CanUseToolRequest),
    HookCallback(HookCallbackRequest),
    McpMessage(McpMessageRequest),
}

/// A control request of the child, with the name under which it waits for
/// the answer.
#[derive(Clone, Debug, PartialEq)]
pub struct ControlRequstMessageWrapper {
    pub request_id: String,
    pub request: ControlRequstMessage,
}

/// A direct write to the child.
#[derive(Clone, Debug, PartialEq)]
pub enum ClaudeWriterMessage {
    Write(Value),
}

/// A message for the control handler. `S` is the sink that takes the answer
/// to a request.
pub enum ControlMessage<S> {
    ControlRequest(Value),
    ControlResponse(Value),
    RegisterResponseChan { id: String, chan: S },
}

/// A request that waits for its answer.
pub struct PendingControl<S> {
    pub request_id: String,
    pub reply: S,
}

/// An answer and the sink that takes it.
pub struct ControlReply<S> {
    pub chan: S,
    pub response: Value,
}

/// The requests as pairs of name and sink.
pub open spec fn pending_pairs<S>(pending: Seq<PendingControl<S>>) -> Seq<(Seq<char>, S)> {
    pending.map_values(|p: PendingControl<S>| (p.request_id@, p.reply))
}

/// The name of the request that the frame `msg` answers: the text of
/// `request_id` in its member `response`.
pub open spec fn answered_request(msg: Value) -> Option<Seq<char>> {
    match json_member(msg, "response"@) {
        Some(r) => json_text_member(r, "request_id"@),
        None => None,
    }
}

/// Whether `v` is a control response to the request `id` with the subtype
/// `subtype`, whose member `key` is `payload`: an object with the members
/// `type`, which is `control_response`, and `response`, which holds
/// `subtype`, `request_id` and `key`.
pub open spec fn is_control_response(
    v: Value,
    id: Seq<char>,
    subtype: Seq<char>,
    key: Seq<char>,
    payload: Value,
) -> bool {
    let body = json_members(v)["response"@];
    &&& json_is_object(v)
    &&& json_members(v).dom() == set!["type"@, "response"@]
    &&& json_text_member(v, "type"@) == Some("control_response"@)
    &&& json_is_object(body)
    &&& json_members(body).dom() == set!["subtype"@, "request_id"@, key]
    &&& json_text_member(body, "subtype"@) == Some(subtype)
    &&& json_text_member(body, "request_id"@) == Some(id)
    &&& json_member(body, key) == Some(payload)
}

/// The control response to the request `id` with the subtype `subtype` and
/// the member `key`.
fn response_frame(id: &str, subtype: &str, key: &str, payload: Value) -> (r: Value)
    requires
        key@ != "subtype"@,
        key@ != "request_id"@,
    ensures
        is_control_response(r, id@, subtype@, key@, payload),
{
    proof {
        reveal_strlit("type");
        reveal_strlit("response");
        reveal_strlit("subtype");
        reveal_strlit("request_id");
        assert("type"@.len() == 4 && "response"@.len() == 8 && "subtype"@.len() == 7
            && "request_id"@.len() == 10);
    }
    let mut body = json_new_object();
    json_insert(&mut body, "subtype", json_from_text(subtype));
    json_insert(&mut body, "request_id", json_from_text(id));
    json_insert(&mut body, key, payload);
    assert(json_members(body).dom() =~= set!["subtype"@, "request_id"@, key@]);
    let mut frame = json_new_object();
    json_insert(&mut frame, "type", json_from_text("control_response"));
    json_insert(&mut frame, "response", body);
    assert(json_members(frame).dom() =~= set!["type"@, "response"@]);
    frame
}

/// The response that tells the child that its request `id` succeeded, with
/// `payload` as the result.
pub fn success_frame(id: &str, payload: Value) -> (r: Value)
    ensures
        is_control_response(r, id@, "success"@, "response"@, payload),
{
    proof {
        reveal_strlit("response");
        reveal_strlit("subtype");
        reveal_strlit("request_id");
        assert("response"@.len() == 8 && "subtype"@.len() == 7 && "request_id"@.len() == 10);
    }
    response_frame(id, "success", "response", payload)
}

/// Whether `v` tells the child that its request `id` failed for the reason
/// `text`.
pub open spec fn is_error_response(v: Value, id: Seq<char>, text: Seq<char>) -> bool {
    exists|payload: Value|
        #[trigger] is_control_response(v, id, "error"@, "error"@, payload)
            && json_string(payload) == Some(text)
}

/// The response that tells the child that its request `id` failed for the
/// reason `text`.
pub fn error_frame(id: &str, text: &str) -> (r: Value)
    ensures
        is_error_response(r, id@, text@),
{
    proof {
        reveal_strlit("error");
        reveal_strlit("subtype");
        reveal_strlit("request_id");
        assert("error"@.len() == 5 && "subtype"@.len() == 7 && "request_id"@.len() == 10);
    }
    let payload = json_from_text(text);
    let r = response_frame(id, "error", "error", payload);
    assert(is_control_response(r, id@, "error"@, "error"@, payload));
    r
}

/// The response to the child's request `id` once the permission callback
/// has come back: success with its result, or the error with its reason.
pub fn callback_frame(id: &str, outcome: Result<Value, String>) -> (r: Value)
    ensures
        match outcome {
            Ok(payload) => is_control_response(r, id@, "success"@, "response"@, payload),
            Err(e) => is_error_response(r, id@, e@),
        },
{
    match outcome {
        Ok(payload) => success_frame(id, payload),
        Err(e) => error_frame(id, e.as_str()),
    }
}

/// What the control handler does with a control request of the child.
#[derive(Clone, Debug, PartialEq)]
pub enum ControlDecision {
    /// The request could not be decoded: the transport stops.
    Stop(StopReason),
    /// The permission callback is asked; its answer goes into the response
    /// to the request `request_id`.
    Ask { request_id: String, tool_use: ToolUseParams, suggestions: Option<Vec<PermissionUpdate>> },
    /// This response is written to the child.
    Reply(Value),
}

/// Why the request `request` is answered with an error at once: there is no
/// permission callback to ask, or the kind of request is not supported.
pub open spec fn refusal(request: ControlRequstMessage, has_callback: bool) -> Option<Seq<char>> {
    match request {
        ControlRequstMessage::CanUseTool(_) => if has_callback {
            None
        } else {
            Some("canUseTool callback is not provided."@)
        },
        ControlRequstMessage::HookCallback(_) => Some("unsupported HookCallback"@),
        ControlRequstMessage::McpMessage(_) => Some("unsupported McpMessage"@),
    }
}

/// Whether `d` is what the control handler decides for the request
/// `decoded`, which is the request or the reason why it could not be
/// decoded.
pub open spec fn decides(
    decoded: Result<ControlRequstMessageWrapper, String>,
    has_callback: bool,
    d: ControlDecision,
) -> bool {
    match decoded {
        Err(e) => d matches ControlDecision::Stop(StopReason::ParseClaudeControlRequest(t)) && t@
            == e@,
        Ok(w) => match refusal(w.request, has_callback) {
            Some(text) => d matches ControlDecision::Reply(v) && is_error_response(
                v,
                w.request_id@,
                text,
            ),
            None => {
                &&& d matches ControlDecision::Ask { request_id, tool_use, suggestions }
                &&& request_id@ == w.request_id@
                &&& w.request matches ControlRequstMessage::CanUseTool(q)
                &&& tool_use == q.tool_use
                &&& suggestions == q.permission_suggestions
            },
        },
    }
}

/// What the control handler does with a control request of the child.
///
/// A request that could not be decoded stops the transport. A permission
/// question goes to the permission callback where there is one. Everything
/// else is answered with an error at once.
pub fn handle_ctrl_req(decoded: Result<ControlRequstMessageWrapper, String>, has_callback: bool) -> (r:
    ControlDecision)
    ensures
        decides(decoded, has_callback, r),
{
    let w = match decoded {
        Ok(w) => w,
        Err(e) => {
            return ControlDecision::Stop(StopReason::ParseClaudeControlRequest(e));
        },
    };
    match w.request {
        ControlRequstMessage::CanUseTool(q) => {
            if has_callback {
                ControlDecision::Ask {
                    request_id: w.request_id,
                    tool_use: q.tool_use,
                    suggestions: q.permission_suggestions,
                }
            } else {
                ControlDecision::Reply(
                    error_frame(w.request_id.as_str(), "canUseTool callback is not provided."),
                )
            }
        },
        ControlRequstMessage::HookCallback(_) => ControlDecision::Reply(
            error_frame(w.request_id.as_str(), "unsupported HookCallback"),
        ),
        ControlRequstMessage::McpMessage(_) => ControlDecision::Reply(
            error_frame(w.request_id.as_str(), "unsupported McpMessage"),
        ),
    }
}

/// The requests of the host that wait for the child's answer, each with the
/// sink that takes it.
pub struct ControlHandler<S> {
    resp_chans: Vec<PendingControl<S>>,
}

impl<S> View for ControlHandler<S> {
    type V = Map<Seq<char>, S>;

    closed spec fn view(&self) -> Map<Seq<char>, S> {
        as_map(pending_pairs(self.resp_chans@))
    }
}

impl<S> ControlHandler<S> {
    /// No name waits twice.
    pub closed spec fn wf(&self) -> bool {
        unique_keys(pending_pairs(self.resp_chans@))
    }

    /// The number of requests that wait.
    pub closed spec fn count(&self) -> nat {
        self.resp_chans@.len()
    }

    /// A handler for which no request waits.
    pub fn new() -> (r: Self)
        ensures
            r.wf(),
            r@ == Map::<Seq<char>, S>::empty(),
            r.count() == 0,
    {
        let r = ControlHandler { resp_chans: Vec::new() };
        proof {
            lemma_as_map_empty::<Seq<char>, S>();
            assert(pending_pairs(r.resp_chans@) =~= Seq::<(Seq<char>, S)>::empty());
        }
        r
    }

    /// The place of the request `id`.
    fn position(&self, id: &str) -> (r: Option<usize>)
        requires
            self.wf(),
        ensures
            match r {
                Some(i) => i < self.resp_chans.len() && self.resp_chans@[i as int].request_id@
                    == id@ && self@.contains_key(id@) && self@[id@] == self.resp_chans@[i as int].reply,
                None => !self@.contains_key(id@),
            },
    {
        let mut i: usize = 0;
        while i < self.resp_chans.len()
            invariant
                i <= self.resp_chans.len(),
                self.wf(),
                forall|j: int|
                    0 <= j < i ==> (#[trigger] pending_pairs(self.resp_chans@)[j]).0 != id@,
            decreases self.resp_chans.len() - i,
        {
            if same_text(self.resp_chans[i].request_id.as_str(), id) {
                proof {
                    lemma_as_map_at(pending_pairs(self.resp_chans@), i as int);
                }
                return Some(i);
            }
            i = i + 1;
        }
        proof {
            lemma_as_map_absent(pending_pairs(self.resp_chans@), id@);
        }
        None
    }

    /// The request `id` waits for its answer with the sink `chan`. A sink
    /// that waited under the same name is handed back: its request is given
    /// up.
    pub fn register_resp_chan(&mut self, id: String, chan: S) -> (r: Option<S>)
        requires
            old(self).wf(),
        ensures
            final(self).wf(),
            final(self)@ == old(self)@.insert(id@, chan),
            r == (if old(self)@.contains_key(id@) {
                Some(old(self)@[id@])
            } else {
                None
            }),
    {
        let ghost before = pending_pairs(self.resp_chans@);
        match self.position(id.as_str()) {
            Some(i) => {
                let old_entry = self.resp_chans.remove(i);
                proof {
                    lemma_as_map_remove(before, i as int);
                    assert(pending_pairs(self.resp_chans@) =~= before.remove(i as int));
                }
                let ghost mid = pending_pairs(self.resp_chans@);
                self.resp_chans.push(PendingControl { request_id: id, reply: chan });
                proof {
                    lemma_as_map_push(mid, id@, chan);
                    assert(pending_pairs(self.resp_chans@) =~= mid.push((id@, chan)));
                    assert(self@ =~= old(self)@.insert(id@, chan));
                }
                Some(old_entry.reply)
            },
            None => {
                self.resp_chans.push(PendingControl { request_id: id, reply: chan });
                proof {
                    lemma_as_map_push(before, id@, chan);
                    assert(pending_pairs(self.resp_chans@) =~= before.push((id@, chan)));
                }
                None
            },
        }
    }

    /// The child answered: where the frame names a request that waits, the
    /// request waits no longer, and the result is its sink with the frame's
    /// member `response` for it. A frame that names no request, or one that
    /// does not wait, changes nothing.
    pub fn handle_ctrl_resp(&mut self, msg: &Value) -> (r: Option<ControlReply<S>>)
        requires
            old(self).wf(),
        ensures
            final(self).wf(),
            match r {
                Some(reply) => {
                    &&& answered_request(*msg) matches Some(id)
                    &&& old(self)@.contains_key(id)
                    &&& reply.chan == old(self)@[id]
                    &&& json_member(*msg, "response"@) == Some(reply.response)
                    &&& final(self)@ == old(self)@.remove(id)
                },
                None => {
                    &&& final(self)@ == old(self)@
                    &&& answered_request(*msg) matches Some(id) ==> !old(self)@.contains_key(id)
                },
            },
    {
        let response = match json_get(msg, "response") {
            Some(r) => r,
            None => {
                return None;
            },
        };
        let id = match text_member(response, "request_id") {
            Some(id) => id,
            None => {
                return None;
            },
        };
        let ghost before = pending_pairs(self.resp_chans@);
        match self.position(id.as_str()) {
            Some(i) => {
                let entry = self.resp_chans.remove(i);
                proof {
                    lemma_as_map_remove(before, i as int);
                    assert(pending_pairs(self.resp_chans@) =~= before.remove(i as int));
                }
                Some(ControlReply { chan: entry.reply, response: response.clone() })
            },
            None => None,
        }
    }

    /// The transport stops: no request waits any longer, and the result
    /// holds the sinks of those that did, which are to be dropped.
    pub fn cancel_all(&mut self) -> (r: Vec<S>)
        requires
            old(self).wf(),
        ensures
            final(self).wf(),
            final(self)@ == Map::<Seq<char>, S>::empty(),
            final(self).count() == 0,
            r@.len() == old(self).count(),
            forall|id: Seq<char>| #[trigger]
                old(self)@.contains_key(id) ==> r@.contains(old(self)@[id]),
    {
        let mut out: Vec<S> = Vec::new();
        let ghost all = pending_pairs(self.resp_chans@);
        while self.resp_chans.len() > 0
            invariant
                out@.len() + self.resp_chans@.len() == all.len(),
                forall|j: int|
                    0 <= j < self.resp_chans@.len() ==> (#[trigger] self.resp_chans@[j]).reply
                        == all[j].1,
                forall|j: int|
                    self.resp_chans@.len() <= j < all.len() ==> out@.contains(
                        (#[trigger] all[j]).1,
                    ),
            decreases self.resp_chans.len(),
        {
            let ghost prev = out@;
            let ghost n = self.resp_chans@.len() - 1;
            match self.resp_chans.pop() {
                Some(p) => {
                    out.push(p.reply);
                    proof {
                        assert(out@[prev.len() as int] == all[n].1);
                        assert forall|j: int| self.resp_chans@.len() <= j < all.len() implies out@.contains(
                            (#[trigger] all[j]).1,
                        ) by {
                            if j > n {
                                let k = choose|k: int| 0 <= k < prev.len() && prev[k] == all[j].1;
                                assert(out@[k] == all[j].1);
                            }
                        }
                    }
                },
                None => {},
            }
        }
        proof {
            lemma_as_map_empty::<Seq<char>, S>();
            assert(pending_pairs(self.resp_chans@) =~= Seq::<(Seq<char>, S)>::empty());
            assert forall|id: Seq<char>| #[trigger] old(self)@.contains_key(id) implies out@.contains(
                old(self)@[id],
            ) by {
                lemma_as_map_key(all, id);
            }
        }
        out
    }
}

} // verus!
