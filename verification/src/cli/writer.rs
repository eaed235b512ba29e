//! The writer of a transport: what goes to the child, one frame on each
//! line.

use crate::cli::control::ClaudeWriterMessage;
use crate::cli::stop::StopReason;
use crate::json::{json_text, render_json};
use crate::server::claude::{is_user_frame, user_frame};
use crate::types::message::SDKUserMessage;
use serde_json::Value;
use vstd::prelude::*;
use vstd::string::*;

verus! {

/// The frame `v` as the line that goes to the child: the frame written out,
/// and a line feed.
pub open spec fn line_of(v: Value) -> Seq<char> {
    json_text(v) + "\n"@
}

/// The line that carries the frame `v` to the child. Every frame has one.
pub fn frame_line(v: &Value) -> (r: Option<String>)
    ensures
        r matches Some(l) && l@ == line_of(*v),
{
    match render_json(v) {
        Some(mut l) => {
            l.append("\n");
            Some(l)
        },
        None => None,
    }
}

/// What the writer does next.
#[derive(Clone, Debug, PartialEq)]
pub enum WriterStep {
    /// This line is written to the child.
    Write(String),
    /// No more prompts will come: the writer ends.
    Finished,
    /// A frame could not be written out: the writer ends with an error. No
    /// frame that is a JSON value leads here.
    Unwritable,
}

/// Whether `line` is the line of a frame that carries the user message
/// `prompt` to the child.
pub open spec fn writes_prompt(prompt: SDKUserMessage, line: Seq<char>) -> bool {
    exists|v: Value| #[trigger] is_user_frame(v, prompt) && line == line_of(v)
}

/// What the writer does with what the prompt generator yields: it ends when
/// the generator has ended, and else writes the user message as a frame.
pub fn handle_prompt(prompt: Option<SDKUserMessage>) -> (r: WriterStep)
    ensures
        match prompt {
            None => r is Finished,
            Some(p) => r matches WriterStep::Write(l) && writes_prompt(p, l@),
        },
{
    match prompt {
        None => WriterStep::Finished,
        Some(p) => {
            let frame = user_frame(p);
            match frame_line(&frame) {
                Some(l) => {
                    assert(is_user_frame(frame, p) && l@ == line_of(frame));
                    assert(writes_prompt(p, l@));
                    WriterStep::Write(l)
                },
                None => WriterStep::Unwritable,
            }
        },
    }
}

/// What the writer does with a direct write: it writes the frame.
pub fn handle_msg(msg: ClaudeWriterMessage) -> (r: WriterStep)
    ensures
        match msg {
            ClaudeWriterMessage::Write(v) => r matches WriterStep::Write(l) && l@ == line_of(v),
        },
{
    match msg {
        ClaudeWriterMessage::Write(v) => {
            match frame_line(&v) {
                Some(l) => WriterStep::Write(l),
                None => WriterStep::Unwritable,
            }
        },
    }
}

/// The reason with which the transport stops when a write to the child
/// failed with the error `err`.
pub fn write_failed(err: String) -> (r: StopReason)
    ensures
        r == StopReason::CannotWriteToClaude(err),
{
    StopReason::CannotWriteToClaude(err)
}

} // verus!
