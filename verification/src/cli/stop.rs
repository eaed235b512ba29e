//! Why and how a transport stops.

use vstd::prelude::*;

verus! {

/// Why a transport stops.
#[derive(Clone, Debug, PartialEq)]
pub enum StopReason {
    /// The owner asked for it.
    User,
    /// The owner dropped the stream.
    OutStreamDropped,
    /// The child closed its output.
    NoMoreClaudeMsg,
    /// A data message of the child could not be decoded.
    ParseClaudeSDKMessage,
    /// A line of the child was no frame.
    InvalidClaudeOutput,
    /// Writing to the child failed.
    CannotWriteToClaude(String),
    /// A control request of the child could not be decoded.
    ParseClaudeControlRequest(String),
}

/// An error that the owner of a stream receives in place of a message.
#[derive(Clone, Debug, PartialEq)]
pub enum ClaudeStreamError {
    CannotDeserialize(String),
    CannotWriteToClaude(String),
}

impl ClaudeStreamError {
    /// The text of the error.
    pub open spec fn text(self) -> Seq<char> {
        match self {
            ClaudeStreamError::CannotDeserialize(t) => t@,
            ClaudeStreamError::CannotWriteToClaude(t) => t@,
        }
    }

    /// The text of the error.
    pub fn message(&self) -> (r: String)
        ensures
            r@ == self.text(),
    {
        match self {
            ClaudeStreamError::CannotDeserialize(t) => t.clone(),
            ClaudeStreamError::CannotWriteToClaude(t) => t.clone(),
        }
    }
}

/// What the owner of the stream is told when the transport stops for
/// `reason`: the error where writing failed or a control request could not
/// be decoded, nothing for the other reasons.
pub open spec fn stop_report(reason: StopReason) -> Option<ClaudeStreamError> {
    match reason {
        StopReason::CannotWriteToClaude(e) => Some(ClaudeStreamError::CannotWriteToClaude(e)),
        StopReason::ParseClaudeControlRequest(e) => Some(ClaudeStreamError::CannotDeserialize(e)),
        _ => None,
    }
}

/// What the reader hands to the owner of the stream when it sees that the
/// transport stops.
pub fn reader_handle_stop(reason: StopReason) -> (r: Option<ClaudeStreamError>)
    ensures
        r == stop_report(reason),
{
    match reason {
        StopReason::CannotWriteToClaude(e) => Some(ClaudeStreamError::CannotWriteToClaude(e)),
        StopReason::ParseClaudeControlRequest(e) => Some(ClaudeStreamError::CannotDeserialize(e)),
        _ => None,
    }
}

/// The stop signal of one transport: unset, or the reason given last.
#[derive(Clone, Debug, PartialEq)]
pub struct StopNotify {
    pub reason: Option<StopReason>,
}

impl StopNotify {
    /// A signal that is not set.
    pub fn new() -> (r: Self)
        ensures
            r.reason is None,
    {
        StopNotify { reason: None }
    }

    /// Whether the transport has been told to stop.
    pub fn is_stopped(&self) -> (r: bool)
        ensures
            r == (self.reason is Some),
    {
        self.reason.is_some()
    }

    /// Tells the transport to stop. The signal stays set whatever follows;
    /// the reason given last is the one that is seen.
    pub fn notify(&mut self, reason: StopReason)
        ensures
            final(self).reason == Some(reason),
    {
        self.reason = Some(reason);
    }

    /// The owner drops the stream: the transport is told to stop, unless it
    /// has been told already.
    pub fn stream_dropped(&mut self)
        ensures
            final(self).reason == (match old(self).reason {
                Some(r) => Some(r),
                None => Some(StopReason::OutStreamDropped),
            }),
    {
        if self.reason.is_none() {
            self.reason = Some(StopReason::OutStreamDropped);
        }
    }
}

} // verus!
