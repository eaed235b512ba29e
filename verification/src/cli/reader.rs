//! The reader of a transport: what each line of the child's output is, and
//! what is to be done with it.

use crate::cli::stop::{ClaudeStreamError, StopReason};
use crate::json::{json_parse, json_text_member, parse_json, text_member};
use crate::text::same_text;
use crate::types::message::{SDKMessage, SDKMessageTyped};
use serde_json::Value;
use vstd::prelude::*;

verus! {

/// Where a frame goes.
#[derive(Clone, Copy, Debug, PartialEq, Eq, Structural)]
pub enum Route {
    /// The answer to a control request of the host: to the control handler.
    ControlResponse,
    /// A control request of the child: to the control handler.
    ControlRequest,
    /// The child takes a control request back: nowhere.
    ControlCancel,
    /// Anything else: to the owner of the stream, as a data message.
    Data,
}

/// Where a frame with the type `t` goes.
pub open spec fn route_of(t: Seq<char>) -> Route {
    if t == "control_response"@ {
        Route::ControlResponse
    } else if t == "control_request"@ {
        Route::ControlRequest
    } else if t == "control_cancel_request"@ {
        Route::ControlCancel
    } else {
        Route::Data
    }
}

/// Where a frame with the type `t` goes.
pub fn route(t: &str) -> (r: Route)
    ensures
        r == route_of(t@),
{
    if same_text(t, "control_response") {
        Route::ControlResponse
    } else if same_text(t, "control_request") {
        Route::ControlRequest
    } else if same_text(t, "control_cancel_request") {
        Route::ControlCancel
    } else {
        Route::Data
    }
}

/// The kind of data message that the type `t` names, if it names one.
pub open spec fn data_kind(t: Seq<char>) -> Option<SDKMessageTyped> {
    if t == "assistant"@ {
        Some(SDKMessageTyped::Assistant)
    } else if t == "user"@ {
        Some(SDKMessageTyped::User)
    } else if t == "result"@ {
        Some(SDKMessageTyped::Result)
    } else if t == "system"@ {
        Some(SDKMessageTyped::System)
    } else if t == "stream_event"@ {
        Some(SDKMessageTyped::StreamEvent)
    } else {
        None
    }
}

/// The kind of data message that the type `t` names, if it names one.
pub fn parse_data_kind(t: &str) -> (r: Option<SDKMessageTyped>)
    ensures
        r == data_kind(t@),
{
    if same_text(t, "assistant") {
        Some(SDKMessageTyped::Assistant)
    } else if same_text(t, "user") {
        Some(SDKMessageTyped::User)
    } else if same_text(t, "result") {
        Some(SDKMessageTyped::Result)
    } else if same_text(t, "system") {
        Some(SDKMessageTyped::System)
    } else if same_text(t, "stream_event") {
        Some(SDKMessageTyped::StreamEvent)
    } else {
        None
    }
}

/// Whether the frame `v` is a data message: its type names a kind of data
/// message, and it says which session it belongs to.
pub open spec fn is_data_message(v: Value) -> bool {
    &&& json_text_member(v, "type"@) matches Some(t)
    &&& data_kind(t) is Some
    &&& json_text_member(v, "session_id"@) is Some
}

/// Whether `m` is the data message that the frame `v` holds.
pub open spec fn holds_message(v: Value, m: SDKMessage) -> bool {
    &&& json_text_member(v, "type"@) matches Some(t)
    &&& data_kind(t) == Some(m.typed)
    &&& json_text_member(v, "session_id"@) == Some(m.session_id@)
    &&& m.body == v
}

/// Reads the frame `v` as a data message: the frame itself, with the
/// session and the kind that it names. Fails where it names none.
pub fn decode_message(v: Value) -> (r: Result<SDKMessage, String>)
    ensures
        match r {
            Ok(m) => holds_message(v, m),
            Err(_) => !is_data_message(v),
        },
{
    let kind = match text_member(&v, "type") {
        Some(t) => parse_data_kind(t.as_str()),
        None => None,
    };
    let typed = match kind {
        Some(k) => k,
        None => {
            return Err("unknown message type".to_owned());
        },
    };
    match text_member(&v, "session_id") {
        Some(session_id) => Ok(SDKMessage { session_id, typed, body: v }),
        None => Err("missing field `session_id`".to_owned()),
    }
}

/// What the reader does with one line.
#[derive(Clone, Debug, PartialEq)]
pub enum ReaderStep {
    /// The child closed its output: the transport stops, and the reader
    /// ends.
    Finished,
    /// The line could not be read: the reader ends with this error.
    ReadFailed(String),
    /// The line is no frame: the transport stops, and the reader ends with
    /// this error.
    Invalid(String),
    /// The frame answers a control request: it goes to the control handler.
    ControlResponse(Value),
    /// The frame is a control request: it goes to the control handler.
    ControlRequest(Value),
    /// The frame takes a control request back: it is dropped.
    Ignored,
    /// The frame is a data message: it goes to the owner of the stream.
    Output(SDKMessage),
    /// The frame should be a data message and cannot be decoded: the owner
    /// of the stream receives this error, the transport stops, and the
    /// reader ends.
    Undecodable(String),
}

impl ReaderStep {
    /// The reason with which the step stops the transport, if it does.
    pub open spec fn stops_with(self) -> Option<StopReason> {
        match self {
            ReaderStep::Finished => Some(StopReason::NoMoreClaudeMsg),
            ReaderStep::Invalid(_) => Some(StopReason::InvalidClaudeOutput),
            ReaderStep::Undecodable(_) => Some(StopReason::ParseClaudeSDKMessage),
            _ => None,
        }
    }

    /// The reason with which the step stops the transport, if it does.
    pub fn stop_reason(&self) -> (r: Option<StopReason>)
        ensures
            r == self.stops_with(),
    {
        match self {
            ReaderStep::Finished => Some(StopReason::NoMoreClaudeMsg),
            ReaderStep::Invalid(_) => Some(StopReason::InvalidClaudeOutput),
            ReaderStep::Undecodable(_) => Some(StopReason::ParseClaudeSDKMessage),
            _ => None,
        }
    }

    /// Whether the reader ends with this step.
    pub fn is_break(&self) -> (r: bool)
        ensures
            r == (self is Finished || self is ReadFailed || self is Invalid || self is Undecodable),
    {
        match self {
            ReaderStep::Finished => true,
            ReaderStep::ReadFailed(_) => true,
            ReaderStep::Invalid(_) => true,
            ReaderStep::Undecodable(_) => true,
            _ => false,
        }
    }

    /// What the owner of the stream receives from this step.
    pub fn into_item(self) -> (r: Option<Result<SDKMessage, ClaudeStreamError>>)
        ensures
            match self {
                ReaderStep::Output(m) => r == Some(Ok::<SDKMessage, ClaudeStreamError>(m)),
                ReaderStep::Undecodable(e) => r == Some(
                    Err::<SDKMessage, ClaudeStreamError>(ClaudeStreamError::CannotDeserialize(e)),
                ),
                _ => r is None,
            },
    {
        match self {
            ReaderStep::Output(m) => Some(Ok(m)),
            ReaderStep::Undecodable(e) => Some(Err(ClaudeStreamError::CannotDeserialize(e))),
            _ => None,
        }
    }
}

/// Whether `step` is what the reader does with the frame `v`.
pub open spec fn routes_frame(v: Value, step: ReaderStep) -> bool {
    match json_text_member(v, "type"@) {
        None => step is Invalid,
        Some(t) => match route_of(t) {
            Route::ControlResponse => step == ReaderStep::ControlResponse(v),
            Route::ControlRequest => step == ReaderStep::ControlRequest(v),
            Route::ControlCancel => step is Ignored,
            Route::Data => if is_data_message(v) {
                step matches ReaderStep::Output(m) && holds_message(v, m)
            } else {
                step is Undecodable
            },
        },
    }
}

/// What the reader does with the frame `v`: a frame without a type is no
/// frame; control frames go to the control handler, except that a cancelled
/// request is dropped; every other frame is decoded as a data message.
pub fn route_frame(v: Value) -> (r: ReaderStep)
    ensures
        routes_frame(v, r),
{
    let t = match text_member(&v, "type") {
        Some(t) => t,
        None => {
            return ReaderStep::Invalid("Unknown message type".to_owned());
        },
    };
    match route(t.as_str()) {
        Route::ControlResponse => ReaderStep::ControlResponse(v),
        Route::ControlRequest => ReaderStep::ControlRequest(v),
        Route::ControlCancel => ReaderStep::Ignored,
        Route::Data => {
            match decode_message(v) {
                Ok(m) => ReaderStep::Output(m),
                Err(e) => ReaderStep::Undecodable(e),
            }
        },
    }
}

/// What the reader does with what it read: `None` at the end of the child's
/// output, an error where reading failed, else one line. A line that is not
/// JSON is no frame.
pub fn handle_claude_msg(line: Option<Result<String, String>>) -> (r: ReaderStep)
    ensures
        match line {
            None => r is Finished,
            Some(Err(e)) => r matches ReaderStep::ReadFailed(t) && t@ == e@,
            Some(Ok(l)) => match json_parse(l@) {
                None => r is Invalid,
                Some(v) => routes_frame(v, r),
            },
        },
{
    match line {
        None => ReaderStep::Finished,
        Some(Err(e)) => ReaderStep::ReadFailed(e),
        Some(Ok(l)) => {
            match parse_json(l.as_str()) {
                Ok(v) => route_frame(v),
                Err(e) => ReaderStep::Invalid(e),
            }
        },
    }
}

} // verus!
