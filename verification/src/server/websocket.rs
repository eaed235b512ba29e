//! The edge of a WebSocket connection: frames that belong together are put
//! together, and each message of the client is turned into what the
//! endpoint does with it.

use crate::text::text_from_utf8;
use vstd::prelude::*;

verus! {

/// What a continued message holds.
#[derive(Clone, Copy, Debug, PartialEq, Eq, Structural)]
pub enum ContinuationKind {
    Text,
    Binary,
}

/// One frame of a continued message.
#[derive(Clone, Debug, PartialEq)]
pub enum Item {
    FirstText(Vec<u8>),
    FirstBinary(Vec<u8>),
    Continue(Vec<u8>),
    Last(Vec<u8>),
}

/// Why a connection is closed.
#[derive(Clone, Debug, PartialEq)]
pub struct CloseReason {
    pub code: u16,
    pub description: Option<String>,
}

/// A message as it comes off the socket.
#[derive(Clone, Debug, PartialEq)]
pub enum Message {
    Text(String),
    Binary(Vec<u8>),
    Continuation(Item),
    Ping(Vec<u8>),
    Pong(Vec<u8>),
    Close(Option<CloseReason>),
    /// Nothing: a socket does not yield this.
    Nop,
}

/// A message with its continuations put together.
#[derive(Clone, Debug, PartialEq)]
pub enum AggregatedMessage {
    Text(String),
    Binary(Vec<u8>),
    Ping(Vec<u8>),
    Pong(Vec<u8>),
    Close(Option<CloseReason>),
}

/// Why a continued message is given up.
#[derive(Clone, Debug, PartialEq)]
pub enum AggregateError {
    /// The frames together are larger than allowed.
    TooLarge,
    /// The frames of a text message are not valid UTF-8.
    InvalidText(String),
}

/// The bytes of the parts, one after the other.
pub open spec fn flattened(parts: Seq<Vec<u8>>) -> Seq<u8>
    decreases parts.len(),
{
    if parts.len() == 0 {
        seq![]
    } else {
        flattened(parts.drop_last()) + parts.last()@
    }
}

/// The bytes of the parts, one after the other.
fn collect(continuations: Vec<Vec<u8>>) -> (r: Vec<u8>)
    ensures
        r@ == flattened(continuations@),
{
    let mut buf: Vec<u8> = Vec::new();
    let mut i: usize = 0;
    assert(continuations@.take(0) =~= Seq::<Vec<u8>>::empty());
    while i < continuations.len()
        invariant
            i <= continuations.len(),
            buf@ == flattened(continuations@.take(i as int)),
        decreases continuations.len() - i,
    {
        let ghost head = buf@;
        let part = &continuations[i];
        let mut j: usize = 0;
        while j < part.len()
            invariant
                j <= part.len(),
                buf@ == head + part@.take(j as int),
            decreases part.len() - j,
        {
            buf.push(part[j]);
            assert(buf@ =~= head + part@.take(j + 1));
            j = j + 1;
        }
        proof {
            assert(part@.take(part.len() as int) =~= part@);
            assert(continuations@.take(i + 1).drop_last() =~= continuations@.take(i as int));
            assert(continuations@.take(i + 1).last() == continuations@[i as int]);
        }
        i = i + 1;
    }
    assert(continuations@.take(continuations.len() as int) =~= continuations@);
    buf
}

/// Puts the frames of continued messages together, up to a largest size.
#[derive(Debug)]
pub struct AggregatedMessageStream {
    pub current_size: usize,
    pub max_size: usize,
    pub continuations: Vec<Vec<u8>>,
    pub continuation_kind: ContinuationKind,
}

/// The largest size of a continued message unless another is set: one
/// mebibyte.
pub const DEFAULT_MAX_CONTINUATION_SIZE: usize = 1_048_576;

/// What a frame of a continued message leads to.
pub enum Aggregated {
    /// More frames are awaited.
    Pending,
    /// A message is complete, or given up.
    Ready(Result<AggregatedMessage, AggregateError>),
}

impl AggregatedMessageStream {
    /// A stream that holds no frame and allows one mebibyte for a continued
    /// message.
    #[must_use]
    pub fn new() -> (r: Self)
        ensures
            r.current_size == 0,
            r.max_size == DEFAULT_MAX_CONTINUATION_SIZE,
            r.continuations@.len() == 0,
            r.continuation_kind == ContinuationKind::Binary,
    {
        AggregatedMessageStream {
            current_size: 0,
            max_size: DEFAULT_MAX_CONTINUATION_SIZE,
            continuations: Vec::new(),
            continuation_kind: ContinuationKind::Binary,
        }
    }

    /// Sets the largest size of a continued message, in bytes.
    #[must_use]
    pub fn max_continuation_size(self, max_size: usize) -> (r: Self)
        ensures
            r.max_size == max_size,
            r.current_size == self.current_size,
            r.continuations == self.continuations,
            r.continuation_kind == self.continuation_kind,
    {
        let mut this = self;
        this.max_size = max_size;
        this
    }

    /// Takes a frame of `len` bytes into the count; true where the message
    /// has become too large, in which case the frames held are dropped.
    fn grow(&mut self, len: usize) -> (r: bool)
        ensures
            r == (old(self).current_size + len > old(self).max_size),
            final(self).max_size == old(self).max_size,
            final(self).continuation_kind == old(self).continuation_kind,
            final(self).current_size == (if old(self).current_size + len > usize::MAX {
                old(self).current_size
            } else {
                (old(self).current_size + len) as usize
            }),
            final(self).continuations@ == (if r {
                Seq::<Vec<u8>>::empty()
            } else {
                old(self).continuations@
            }),
    {
        let over = match self.current_size.checked_add(len) {
            Some(n) => {
                self.current_size = n;
                n > self.max_size
            },
            None => true,
        };
        if over {
            self.continuations.clear();
        }
        over
    }

    /// Takes one frame of a continued message.
    ///
    /// A first frame says what the message holds. Each frame adds its size
    /// to the count, and a message that grows beyond the largest size is
    /// given up: the frames held are dropped. The last frame completes the
    /// message, which is the bytes of all frames in order, as text where the
    /// message holds text; the count starts again at zero.
    pub fn push_item(&mut self, item: Item) -> (r: Aggregated)
        ensures
            takes_item(*old(self), item, *final(self), r),
    {
        match item {
            Item::FirstText(bytes) => {
                self.continuation_kind = ContinuationKind::Text;
                if self.grow(bytes.len()) {
                    return Aggregated::Ready(Err(AggregateError::TooLarge));
                }
                self.continuations.push(bytes);
                Aggregated::Pending
            },
            Item::FirstBinary(bytes) => {
                self.continuation_kind = ContinuationKind::Binary;
                if self.grow(bytes.len()) {
                    return Aggregated::Ready(Err(AggregateError::TooLarge));
                }
                self.continuations.push(bytes);
                Aggregated::Pending
            },
            Item::Continue(bytes) => {
                if self.grow(bytes.len()) {
                    return Aggregated::Ready(Err(AggregateError::TooLarge));
                }
                self.continuations.push(bytes);
                Aggregated::Pending
            },
            Item::Last(bytes) => {
                let over = self.grow(bytes.len());
                self.current_size = 0;
                if over {
                    return Aggregated::Ready(Err(AggregateError::TooLarge));
                }
                self.continuations.push(bytes);
                let mut parts: Vec<Vec<u8>> = Vec::new();
                std::mem::swap(&mut parts, &mut self.continuations);
                let all = collect(parts);
                match self.continuation_kind {
                    ContinuationKind::Text => {
                        match text_from_utf8(all) {
                            Ok(text) => Aggregated::Ready(Ok(AggregatedMessage::Text(text))),
                            Err(e) => Aggregated::Ready(Err(AggregateError::InvalidText(e))),
                        }
                    },
                    ContinuationKind::Binary => Aggregated::Ready(
                        Ok(AggregatedMessage::Binary(all)),
                    ),
                }
            },
        }
    }

    /// Takes one message off the socket, which is not `Nop`: a frame of a
    /// continued message is taken as `push_item` says, and every other
    /// message is ready as it is.
    pub fn push(&mut self, msg: Message) -> (r: Aggregated)
        requires
            !(msg is Nop),
        ensures
            final(self).max_size == old(self).max_size,
            match msg {
                Message::Continuation(item) => takes_item(*old(self), item, *final(self), r),
                Message::Text(t) => *final(self) == *old(self) && r == Aggregated::Ready(
                    Ok::<AggregatedMessage, AggregateError>(AggregatedMessage::Text(t)),
                ),
                Message::Binary(b) => *final(self) == *old(self) && r == Aggregated::Ready(
                    Ok::<AggregatedMessage, AggregateError>(AggregatedMessage::Binary(b)),
                ),
                Message::Ping(b) => *final(self) == *old(self) && r == Aggregated::Ready(
                    Ok::<AggregatedMessage, AggregateError>(AggregatedMessage::Ping(b)),
                ),
                Message::Pong(b) => *final(self) == *old(self) && r == Aggregated::Ready(
                    Ok::<AggregatedMessage, AggregateError>(AggregatedMessage::Pong(b)),
                ),
                Message::Close(c) => *final(self) == *old(self) && r == Aggregated::Ready(
                    Ok::<AggregatedMessage, AggregateError>(AggregatedMessage::Close(c)),
                ),
                Message::Nop => false,
            },
    {
        match msg {
            Message::Continuation(item) => self.push_item(item),
            Message::Text(t) => Aggregated::Ready(Ok(AggregatedMessage::Text(t))),
            Message::Binary(b) => Aggregated::Ready(Ok(AggregatedMessage::Binary(b))),
            Message::Ping(b) => Aggregated::Ready(Ok(AggregatedMessage::Ping(b))),
            Message::Pong(b) => Aggregated::Ready(Ok(AggregatedMessage::Pong(b))),
            Message::Close(c) => Aggregated::Ready(Ok(AggregatedMessage::Close(c))),
            Message::Nop => Aggregated::Pending,
        }
    }
}

/// Whether a frame of `len` bytes that is not the last of its message leads
/// from `before` to `after` and `r`: the size grows by the frame's size; a
/// message that has grown beyond the largest size is given up and the frames
/// held are dropped; else the frame is held and more are awaited.
pub open spec fn holds_frame(
    before: AggregatedMessageStream,
    bytes: Vec<u8>,
    after: AggregatedMessageStream,
    r: Aggregated,
) -> bool {
    &&& before.current_size + bytes@.len() <= usize::MAX ==> after.current_size
        == before.current_size + bytes@.len()
    &&& if before.current_size + bytes@.len() > before.max_size {
        &&& r matches Aggregated::Ready(Err(AggregateError::TooLarge))
        &&& after.continuations@.len() == 0
    } else {
        &&& r is Pending
        &&& after.continuations@ == before.continuations@.push(bytes)
    }
}

/// Whether the frame `item` of a continued message leads from `before` to
/// `after` and `r`.
pub open spec fn takes_item(
    before: AggregatedMessageStream,
    item: Item,
    after: AggregatedMessageStream,
    r: Aggregated,
) -> bool {
    &&& after.max_size == before.max_size
    &&& match item {
        Item::FirstText(b) => after.continuation_kind == ContinuationKind::Text && holds_frame(
            before,
            b,
            after,
            r,
        ),
        Item::FirstBinary(b) => after.continuation_kind == ContinuationKind::Binary && holds_frame(
            before,
            b,
            after,
            r,
        ),
        Item::Continue(b) => after.continuation_kind == before.continuation_kind && holds_frame(
            before,
            b,
            after,
            r,
        ),
        Item::Last(b) => {
            &&& after.continuation_kind == before.continuation_kind
            &&& after.current_size == 0
            &&& after.continuations@.len() == 0
            &&& if before.current_size + b@.len() > before.max_size {
                r matches Aggregated::Ready(Err(AggregateError::TooLarge))
            } else {
                completes(before.continuation_kind, flattened(before.continuations@.push(b)), r)
            }
        },
    }
}

/// Whether `r` completes a continued message of the kind `kind` with the
/// bytes `all`: a binary message holds the bytes; a text message holds the
/// text that they encode, and is given up where they encode none.
pub open spec fn completes(kind: ContinuationKind, all: Seq<u8>, r: Aggregated) -> bool {
    match kind {
        ContinuationKind::Binary => r matches Aggregated::Ready(Ok(AggregatedMessage::Binary(b)))
            && b@ == all,
        ContinuationKind::Text => if vstd::utf8::valid_utf8(all) {
            r matches Aggregated::Ready(Ok(AggregatedMessage::Text(t))) && t@
                == vstd::utf8::decode_utf8(all)
        } else {
            r matches Aggregated::Ready(Err(AggregateError::InvalidText(_)))
        },
    }
}

/// What the endpoint does with a message of the client.
#[derive(Clone, Debug, PartialEq)]
pub enum EndpointStep {
    /// The client is gone: the manager is told that the connection closed,
    /// and the endpoint ends.
    Closed,
    /// The text is decoded as a client message and handed to the manager.
    Decode(Vec<u8>),
    /// The ping is answered with a pong that holds the same bytes.
    Pong(Vec<u8>),
    /// Nothing.
    Nothing,
    /// The endpoint ends with an error: the client closed the session, or
    /// sent something that is no message.
    Fail,
}

/// What the endpoint does with what the socket yields: `None` at the end of
/// the stream, an error where the frames were not in order, else one
/// message.
pub fn handle_client_msg(msg: Option<Result<AggregatedMessage, AggregateError>>) -> (r: EndpointStep)
    ensures
        match msg {
            None => r is Closed,
            Some(Err(_)) => r is Fail,
            Some(Ok(AggregatedMessage::Text(t))) => r matches EndpointStep::Decode(b) && b@
                == vstd::utf8::encode_utf8(t@),
            Some(Ok(AggregatedMessage::Binary(x))) => r == EndpointStep::Decode(x),
            Some(Ok(AggregatedMessage::Ping(x))) => r == EndpointStep::Pong(x),
            Some(Ok(AggregatedMessage::Pong(_))) => r is Nothing,
            Some(Ok(AggregatedMessage::Close(_))) => r is Fail,
        },
{
    match msg {
        None => EndpointStep::Closed,
        Some(Err(_)) => EndpointStep::Fail,
        Some(Ok(AggregatedMessage::Text(t))) => EndpointStep::Decode(t.as_str().as_bytes_vec()),
        Some(Ok(AggregatedMessage::Binary(b))) => EndpointStep::Decode(b),
        Some(Ok(AggregatedMessage::Ping(b))) => EndpointStep::Pong(b),
        Some(Ok(AggregatedMessage::Pong(_))) => EndpointStep::Nothing,
        Some(Ok(AggregatedMessage::Close(_))) => EndpointStep::Fail,
    }
}

} // verus!
