//! Content blocks of a user message.

use serde_json::Value;
use std::sync::Arc;
use vstd::prelude::*;

verus! {

/// How long a cached block lives.
#[derive(Clone, Copy, Debug, PartialEq, Eq, Structural)]
pub enum TTL {
    /// Five minutes.
    _5M,
    /// One hour.
    _1H,
}

/// The one kind of cache control there is: ephemeral.
#[derive(Clone, Copy, Debug, PartialEq, Eq, Structural)]
pub struct CacheControlEphemeralType;

#[derive(Clone, Copy, Debug, PartialEq, Eq, Structural)]
pub struct CacheControlEphemeral {
    pub kind: CacheControlEphemeralType,
    pub ttl: TTL,
}

/// A block of text.
#[derive(Clone, Debug, PartialEq)]
pub struct TextBlockParam {
    pub text: Arc<String>,
    pub cache_control: Option<CacheControlEphemeral>,
    pub citations: Option<Value>,
}

/// One block of a user message: text, or anything else as it arrived.
#[derive(Clone, Debug, PartialEq)]
pub enum ContentBlockParam {
    Text(TextBlockParam),
    Other(Value),
}

} // verus!
