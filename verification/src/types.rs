//! Core data types: identifiers, request/response messages, and error kinds.
use vstd::prelude::*;

verus! {

/// Length, in bytes, of a session identifier.
pub const SESSION_ID_LEN: usize = 32;

/// A 32-byte session identifier, fixed at client construction.
pub struct SessionId {
    pub bytes: Vec<u8>,
}

impl SessionId {
    /// A session identifier is well formed when it holds exactly 32 bytes.
    pub open spec fn wf(self) -> bool {
        self.bytes@.len() == SESSION_ID_LEN
    }

    /// Build a session identifier from exactly 32 bytes.
    pub fn new(bytes: Vec<u8>) -> (r: Self)
        requires
            bytes@.len() == SESSION_ID_LEN,
        ensures
            r.wf(),
            r.bytes@ == bytes@,
    {
        SessionId { bytes }
    }
}

/// Mathematical model of a request: method name and argument bytes.
pub struct SpecRequest {
    pub method: Seq<u8>,
    pub args: Seq<u8>,
}

/// Mathematical model of a response body.
pub enum SpecBody {
    Success(Seq<u8>),
    Error(Seq<u8>),
}

/// Mathematical model of a session-internal message.
pub enum SpecMessage {
    Request(SpecRequest),
    Response(SpecBody),
    Close,
}

/// A typed RPC request: a method name and an opaque, pre-encoded argument value.
pub struct Request {
    pub method: Vec<u8>,
    pub args: Vec<u8>,
}

impl View for Request {
    type V = SpecRequest;

    open spec fn view(&self) -> SpecRequest {
        SpecRequest { method: self.method@, args: self.args@ }
    }
}

/// The body of an RPC response: a successful opaque value, or an error text.
pub enum Body {
    Success(Vec<u8>),
    Error(Vec<u8>),
}

impl View for Body {
    type V = SpecBody;

    open spec fn view(&self) -> SpecBody {
        match self {
            Body::Success(v) => SpecBody::Success(v@),
            Body::Error(e) => SpecBody::Error(e@),
        }
    }
}

/// A typed RPC response.
pub struct Response {
    pub body: Body,
}

impl View for Response {
    type V = SpecBody;

    open spec fn view(&self) -> SpecBody {
        self.body@
    }
}

/// A session-internal message, opaque to the transport.
pub enum Message {
    Request(Request),
    Response(Response),
    Close,
}

impl View for Message {
    type V = SpecMessage;

    open spec fn view(&self) -> SpecMessage {
        match self {
            Message::Request(r) => SpecMessage::Request(r@),
            Message::Response(r) => SpecMessage::Response(r@),
            Message::Close => SpecMessage::Close,
        }
    }
}

/// Errors surfaced by the RPC client.
#[derive(Debug)]
pub enum RpcError {
    /// The remote returned an error body; carries the error text.
    CallFailed(Vec<u8>),
    /// The session decoded a message other than the expected response.
    ExpectedResponseMessage,
    /// The session decoded a message other than the expected close.
    ExpectedCloseMessage,
    /// Carrier failure or malformed carrier reply.
    Transport,
    /// Argument encode or response decode failure.
    Serialization,
    /// A session primitive was invoked in a state that does not allow it.
    SessionInvalidState,
}

} // verus!
