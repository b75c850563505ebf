//! Serialized RPC client: all calls funnel through a bounded FIFO queue
//! and a single controller, which lazily establishes the session, frames
//! requests through the transport, and forwards each typed response to
//! the waiter that enqueued the request.
use vstd::prelude::*;

use crate::codec::{
    encode_frame, msg_encodable, spec_dec_message, spec_enc_frame, spec_enc_message,
    MAX_FIELD_LEN, TAG_HANDSHAKE_1, TAG_HANDSHAKE_2, TAG_HANDSHAKE_3,
};
use crate::session::{Builder, EnclaveId, Session, SessionState};
use crate::types::{
    Body, Message, Request, Response, RpcError, SessionId, SpecBody, SpecMessage, SpecRequest,
};

verus! {

/// Capacity of the internal send queue.
pub const SENDQ_BACKLOG: usize = 10;

/// One scripted carrier outcome: a reply blob, or a carrier failure.
pub enum TransportReply {
    Reply(Vec<u8>),
    Failure,
}

/// A transport over a scripted carrier: it frames each payload with the
/// session identifier, records the framed bytes in order, and returns the
/// next scripted reply. It stands in for a synchronous carrier; the
/// asynchronous carriers live outside the verified core.
pub struct ScriptTransport {
    /// The carrier's replies, consumed in order.
    pub replies: Vec<TransportReply>,
    /// How many replies have been consumed.
    pub cursor: usize,
    /// Every framed blob handed to the carrier, in order.
    pub writes: Vec<Vec<u8>>,
}

/// The reply the script holds at position `i`, if it is a reply at all.
pub open spec fn spec_reply_at(t: ScriptTransport, i: int) -> Option<Seq<u8>> {
    if 0 <= i < t.replies@.len() {
        match t.replies@[i] {
            TransportReply::Reply(b) => Some(b@),
            TransportReply::Failure => None,
        }
    } else {
        None
    }
}

/// A well-formed script: every scripted reply fits one length-delimited
/// payload, as every reply framed by a carrier does.
pub open spec fn spec_script_wf(t: ScriptTransport) -> bool {
    forall|i: int|
        0 <= i < t.replies@.len() ==> (#[trigger] t.replies@[i] matches TransportReply::Reply(b)
            ==> b@.len() <= MAX_FIELD_LEN)
}

/// Where the cursor stands after one exchange attempt from position `c`.
pub open spec fn spec_next_cursor(t: ScriptTransport, c: int) -> int {
    if c < t.replies@.len() {
        c + 1
    } else {
        c
    }
}

impl ScriptTransport {
    /// A transport whose carrier will answer with the given replies.
    pub fn new(replies: Vec<TransportReply>) -> (r: Self)
        ensures
            r.replies == replies,
            r.cursor == 0,
            r.writes@.len() == 0,
    {
        ScriptTransport { replies, cursor: 0, writes: Vec::new() }
    }

    /// Frame a payload with the session identifier, record it, and return
    /// the carrier's next reply; a missing or failed reply is a transport
    /// error.
    pub fn write_message(&mut self, session_id: &SessionId, payload: Vec<u8>) -> (r: Result<
        Vec<u8>,
        RpcError,
    >)
        requires
            old(self).cursor <= old(self).replies@.len(),
            spec_script_wf(*old(self)),
            session_id.wf(),
            payload@.len() <= MAX_FIELD_LEN,
        ensures
            final(self).replies == old(self).replies,
            final(self).cursor == spec_next_cursor(*old(self), old(self).cursor as int),
            final(self).writes.deep_view() == old(self).writes.deep_view().push(
                spec_enc_frame(session_id.bytes@, payload@),
            ),
            match spec_reply_at(*old(self), old(self).cursor as int) {
                Some(b) => r matches Ok(v) && v@ == b && b.len() <= MAX_FIELD_LEN,
                None => r matches Err(e) && e is Transport,
            },
    {
        let frame = encode_frame(&session_id.bytes, &payload);
        let ghost f = frame@;
        self.writes.push(frame);
        proof {
            assert(self.writes.deep_view() =~~= old(self).writes.deep_view().push(f));
        }
        if self.cursor < self.replies.len() {
            let at = self.cursor;
            self.cursor = at + 1;
            match &self.replies[at] {
                TransportReply::Reply(b) => Ok(b.clone()),
                TransportReply::Failure => Err(RpcError::Transport),
            }
        } else {
            Err(RpcError::Transport)
        }
    }
}

/// A queued call: the typed request and the token of the waiter that will
/// receive its response.
pub struct PendingCall {
    pub request: Request,
    pub waiter: u64,
}

/// The bounded FIFO send queue shared by all callers of one client.
pub struct SendQueue {
    pub items: Vec<PendingCall>,
}

impl SendQueue {
    /// An empty queue.
    pub fn new() -> (r: Self)
        ensures
            r.items@.len() == 0,
    {
        SendQueue { items: Vec::new() }
    }

    /// How many calls are queued.
    pub fn len(&self) -> (r: usize)
        ensures
            r == self.items@.len(),
    {
        self.items.len()
    }

    /// Enqueue a call unless the queue is at capacity. A refused enqueue
    /// models the suspension of the sender until the controller drains an
    /// item: the queue applies backpressure at its capacity.
    pub fn try_enqueue(&mut self, c: PendingCall) -> (accepted: bool)
        ensures
            accepted == (old(self).items@.len() < SENDQ_BACKLOG),
            accepted ==> final(self).items@ == old(self).items@.push(c),
            !accepted ==> final(self).items@ == old(self).items@,
    {
        if self.items.len() < SENDQ_BACKLOG {
            self.items.push(c);
            true
        } else {
            false
        }
    }

    /// Remove and return the oldest queued call.
    pub fn dequeue(&mut self) -> (r: Option<PendingCall>)
        ensures
            old(self).items@.len() == 0 ==> r is None && final(self).items@ == old(self).items@,
            old(self).items@.len() > 0 ==> (r matches Some(c) && c == old(self).items@[0]
                && final(self).items@ == old(self).items@.drop_first()),
    {
        if self.items.len() > 0 {
            let c = self.items.remove(0);
            proof {
                assert(self.items@ =~= old(self).items@.drop_first());
            }
            Some(c)
        } else {
            None
        }
    }
}

/// The serialized RPC client. One session, one identifier, one bounded
/// queue, and a controller spawned at most once.
pub struct RpcClient {
    /// Retained factory for fresh sessions, for reset after failures.
    pub builder: Builder,
    /// The current session; replaced with a fresh initiator on failure.
    pub session: Session,
    /// The immutable session identifier.
    pub session_id: SessionId,
    /// Latch: set once, when the controller is spawned.
    pub has_controller: bool,
    /// Whether the receive side of the queue is still with the client; it
    /// is moved out exactly once, on controller spawn.
    pub recvq_available: bool,
    /// The bounded send queue shared by all callers.
    pub sendq: SendQueue,
    /// The next waiter token to hand out.
    pub next_waiter: u64,
}

/// The frame carrying the first handshake message.
#[verifier::opaque]
pub open spec fn spec_hs1_frame(sid: Seq<u8>) -> Seq<u8> {
    spec_enc_frame(sid, seq![TAG_HANDSHAKE_1])
}

/// The frame carrying the final handshake message.
#[verifier::opaque]
pub open spec fn spec_hs3_frame(sid: Seq<u8>) -> Seq<u8> {
    spec_enc_frame(sid, seq![TAG_HANDSHAKE_3])
}

/// The frame carrying one request message.
#[verifier::opaque]
pub open spec fn spec_request_frame(sid: Seq<u8>, req: SpecRequest) -> Seq<u8> {
    spec_enc_frame(sid, spec_enc_message(SpecMessage::Request(req)))
}

/// What a handshake attempt does to the transport and what it returns,
/// as a function of the script: the first handshake frame is always
/// written; on the responder's reply the final handshake frame follows;
/// the attempt succeeds exactly when that frame's delivery is confirmed.
pub open spec fn spec_connect_attempt(
    sid: Seq<u8>,
    t0: ScriptTransport,
    t1: ScriptTransport,
    r: Result<(), RpcError>,
) -> bool {
    let w0 = t0.writes.deep_view();
    let c0 = t0.cursor as int;
    if spec_reply_at(t0, c0) == Some(seq![TAG_HANDSHAKE_2]) {
        t1.writes.deep_view() == w0.push(spec_hs1_frame(sid)).push(spec_hs3_frame(sid)) && (
        if spec_reply_at(t0, c0 + 1) is Some {
            r is Ok && t1.cursor == c0 + 2
        } else {
            r is Err && t1.cursor == spec_next_cursor(t0, c0 + 1)
        })
    } else {
        r is Err && t1.writes.deep_view() == w0.push(spec_hs1_frame(sid)) && t1.cursor
            == spec_next_cursor(t0, c0)
    }
}

/// What one request/response exchange on a connected session does to the
/// transport and what it returns, as a function of the script.
pub open spec fn spec_call_exchange(
    sid: Seq<u8>,
    req: SpecRequest,
    t0: ScriptTransport,
    t1: ScriptTransport,
    r: Result<Response, RpcError>,
) -> bool {
    let c0 = t0.cursor as int;
    t1.writes.deep_view() == t0.writes.deep_view().push(spec_request_frame(sid, req))
        && t1.cursor == spec_next_cursor(t0, c0) && match spec_reply_at(t0, c0) {
        None => r matches Err(e) && e is Transport,
        Some(b) => match spec_dec_message(b) {
            Some(SpecMessage::Response(body)) => r matches Ok(rsp) && rsp@ == body,
            Some(_) => r matches Err(e) && e is ExpectedResponseMessage,
            None => r matches Err(e) && e is Transport,
        },
    }
}

/// What the close protocol does to the transport, what it returns, and
/// where it leaves the session, as a function of the script: the close
/// frame is written; the decoded reply must be a close message, upon
/// which the session is marked closed.
pub open spec fn spec_close_exchange(
    sid: Seq<u8>,
    t0: ScriptTransport,
    t1: ScriptTransport,
    r: Result<(), RpcError>,
    post: SessionState,
) -> bool {
    let c0 = t0.cursor as int;
    t1.writes.deep_view() == t0.writes.deep_view().push(
        spec_enc_frame(sid, spec_enc_message(SpecMessage::Close)),
    ) && t1.cursor == spec_next_cursor(t0, c0) && match spec_reply_at(t0, c0) {
        None => r matches Err(e) && e is Transport && post is Transport,
        Some(b) => match spec_dec_message(b) {
            Some(SpecMessage::Close) => r is Ok && post is Closed,
            Some(_) => r matches Err(e) && e is ExpectedCloseMessage && post is Transport,
            None => r matches Err(e) && e is Transport && post is Closed,
        },
    }
}

/// The controller-latch relation of one `ensure_controller` step: the
/// step spawns exactly when it found the latch unset, and leaves it set.
pub open spec fn spec_spawn_step(pre: RpcClient, post: RpcClient, spawned: bool) -> bool {
    spawned == !pre.has_controller && post.has_controller
}

/// Exactly one controller is spawned per client, however many tasks race
/// on the latch: of any two successive latch steps at most the first
/// spawns, and a step from a fresh client does spawn.
pub proof fn lemma_controller_spawned_once(
    s0: RpcClient,
    s1: RpcClient,
    s2: RpcClient,
    b1: bool,
    b2: bool,
)
    requires
        spec_spawn_step(s0, s1, b1),
        spec_spawn_step(s1, s2, b2),
    ensures
        !(b1 && b2),
        !s0.has_controller ==> b1,
{
}

/// A delivered response: the waiter token and the result forwarded to it.
pub struct Delivery {
    pub waiter: u64,
    pub result: Result<Response, RpcError>,
}

/// Whether the scripted reply at position `i` decodes to a response
/// message.
pub open spec fn spec_response_reply(t: ScriptTransport, i: int) -> bool {
    match spec_reply_at(t, i) {
        Some(b) => spec_dec_message(b) matches Some(SpecMessage::Response(_)),
        None => false,
    }
}

/// Whether the script answers each of the next `n` exchanges from `start`
/// with a reply that decodes to a response message.
pub open spec fn spec_all_responses(t: ScriptTransport, start: int, n: int) -> bool {
    forall|j: int| 0 <= j < n ==> #[trigger] spec_response_reply(t, start + j)
}

/// The response body carried by the scripted reply at position `i`.
pub open spec fn spec_response_body_at(t: ScriptTransport, i: int) -> SpecBody {
    match spec_dec_message(spec_reply_at(t, i).unwrap()) {
        Some(SpecMessage::Response(b)) => b,
        _ => SpecBody::Error(Seq::empty()),
    }
}

/// How a call's result reflects the response body: the success value is
/// returned, an error body fails the call with its text.
pub open spec fn spec_body_result(body: SpecBody, r: Result<Vec<u8>, RpcError>) -> bool {
    match body {
        SpecBody::Success(v) => r matches Ok(out) && out@ == v,
        SpecBody::Error(e) => r matches Err(err) && (err matches RpcError::CallFailed(msg)
            && msg@ == e),
    }
}

/// What one whole call on an already connected session does: one framed
/// request is written, and the result follows the scripted reply.
pub open spec fn spec_warm_call(
    sid: Seq<u8>,
    req: SpecRequest,
    t0: ScriptTransport,
    t1: ScriptTransport,
    r: Result<Vec<u8>, RpcError>,
) -> bool {
    let c0 = t0.cursor as int;
    t1.writes.deep_view() == t0.writes.deep_view().push(spec_request_frame(sid, req))
        && t1.cursor == spec_next_cursor(t0, c0) && match spec_reply_at(t0, c0) {
        None => r matches Err(e) && e is Transport,
        Some(b) => match spec_dec_message(b) {
            Some(SpecMessage::Response(body)) => spec_body_result(body, r),
            Some(_) => r matches Err(e) && e is ExpectedResponseMessage,
            None => r matches Err(e) && e is Transport,
        },
    }
}

/// What one whole call on an unconnected session does: the two handshake
/// frames are written strictly before the request frame; a handshake
/// failure surfaces without any request having been written.
pub open spec fn spec_cold_call(
    sid: Seq<u8>,
    req: SpecRequest,
    t0: ScriptTransport,
    t1: ScriptTransport,
    r: Result<Vec<u8>, RpcError>,
) -> bool {
    let c0 = t0.cursor as int;
    let w0 = t0.writes.deep_view();
    if spec_reply_at(t0, c0) == Some(seq![TAG_HANDSHAKE_2]) && spec_reply_at(t0, c0 + 1) is Some {
        t1.writes.deep_view() == w0.push(spec_hs1_frame(sid)).push(spec_hs3_frame(sid)).push(
            spec_request_frame(sid, req),
        ) && t1.cursor == spec_next_cursor(t0, c0 + 2) && match spec_reply_at(t0, c0 + 2) {
            None => r matches Err(e) && e is Transport,
            Some(b) => match spec_dec_message(b) {
                Some(SpecMessage::Response(body)) => spec_body_result(body, r),
                Some(_) => r matches Err(e) && e is ExpectedResponseMessage,
                None => r matches Err(e) && e is Transport,
            },
        }
    } else {
        // The handshake failed: no request frame was written.
        r is Err && (r matches Err(e) ==> !(e matches RpcError::CallFailed(_))) && (
        if spec_reply_at(t0, c0) == Some(seq![TAG_HANDSHAKE_2]) {
            t1.writes.deep_view() == w0.push(spec_hs1_frame(sid)).push(spec_hs3_frame(sid))
                && t1.cursor == spec_next_cursor(t0, c0 + 1)
        } else {
            t1.writes.deep_view() == w0.push(spec_hs1_frame(sid)) && t1.cursor == spec_next_cursor(
                t0,
                c0,
            )
        })
    }
}

impl RpcClient {
    /// Validity of the client state: a well-formed identifier, a queue
    /// within its bound holding only encodable requests, and a receive
    /// side present exactly while no controller was spawned.
    pub open spec fn wf(self) -> bool {
        &&& self.session_id.wf()
        &&& self.sendq.items@.len() <= SENDQ_BACKLOG
        &&& self.recvq_available == !self.has_controller
        &&& forall|i: int|
            0 <= i < self.sendq.items@.len() ==> msg_encodable(
                SpecMessage::Request(#[trigger] self.sendq.items@[i].request@),
            )
    }

    /// An unconnected client: a fresh initiator session, an empty queue,
    /// and no controller. No network activity happens until the first
    /// call.
    pub fn new(builder: Builder, session_id: SessionId) -> (r: Self)
        requires
            session_id.wf(),
        ensures
            r.wf(),
            r.builder == builder,
            r.session.state is Uninitialized,
            r.session_id == session_id,
            !r.has_controller,
            r.recvq_available,
            r.sendq.items@.len() == 0,
            r.next_waiter == 0,
    {
        let session = builder.build_initiator();
        RpcClient {
            builder,
            session,
            session_id,
            has_controller: false,
            recvq_available: true,
            sendq: SendQueue::new(),
            next_waiter: 0,
        }
    }

    /// Replace the allow-list of remote enclave identities in the
    /// retained session builder; future fresh sessions use it.
    pub fn update_enclaves(&mut self, enclaves: Option<Vec<EnclaveId>>)
        requires
            old(self).wf(),
        ensures
            final(self).wf(),
            final(self).builder.remote_enclaves == enclaves,
            final(self).builder.use_local_rak == old(self).builder.use_local_rak,
            final(self).session == old(self).session,
            final(self).session_id == old(self).session_id,
            final(self).has_controller == old(self).has_controller,
            final(self).recvq_available == old(self).recvq_available,
            final(self).sendq == old(self).sendq,
            final(self).next_waiter == old(self).next_waiter,
    {
        let use_rak = self.builder.use_local_rak;
        self.builder = Builder { remote_enclaves: enclaves, use_local_rak: use_rak };
    }

    /// Ensure the session is connected, performing the handshake through
    /// the transport if it is not. Any failure replaces the session with
    /// a fresh initiator before the error surfaces, so the next call
    /// starts a fresh handshake.
    pub fn connect(&mut self, t: &mut ScriptTransport) -> (r: Result<(), RpcError>)
        requires
            old(self).wf(),
            old(t).cursor <= old(t).replies@.len(),
            spec_script_wf(*old(t)),
        ensures
            final(self).wf(),
            final(t).cursor <= final(t).replies@.len(),
            spec_script_wf(*final(t)),
            final(t).replies == old(t).replies,
            final(self).builder == old(self).builder,
            final(self).session_id == old(self).session_id,
            final(self).has_controller == old(self).has_controller,
            final(self).recvq_available == old(self).recvq_available,
            final(self).sendq == old(self).sendq,
            final(self).next_waiter == old(self).next_waiter,
            r is Ok ==> final(self).session.state is Transport,
            r is Err ==> final(self).session.state is Uninitialized,
            r matches Err(e) ==> (e is Transport || e is SessionInvalidState),
            old(self).session.state is Transport ==> r is Ok && final(self).session == old(self).session && *final(t) == *old(t),
            !(old(self).session.state is Transport) ==> spec_connect_attempt(
                old(self).session_id.bytes@,
                *old(t),
                *final(t),
                r,
            ),
    {
        proof {
            reveal(spec_hs1_frame);
            reveal(spec_hs3_frame);
        }
        if self.session.is_connected() {
            return Ok(());
        }
        // Start from a fresh initiator: a session stuck mid-handshake or
        // closed is poisoned and is replaced here.
        match self.session.state {
            SessionState::Uninitialized => {},
            _ => {
                self.session = self.builder.build_initiator();
            },
        }
        let empty: Vec<u8> = Vec::new();
        let hs1 = match self.session.process_data(&empty) {
            Ok((out, _)) => out,
            Err(_) => {
                // Unreachable: initiation from a fresh session always
                // succeeds; reset regardless.
                self.session = self.builder.build_initiator();
                return Err(RpcError::SessionInvalidState);
            },
        };
        let hs2 = match t.write_message(&self.session_id, hs1) {
            Ok(b) => b,
            Err(e) => {
                self.session = self.builder.build_initiator();
                return Err(e);
            },
        };
        let ghost hs2_view = hs2@;
        let hs3 = match self.session.process_data(&hs2) {
            Ok((out, _)) => out,
            Err(e) => {
                self.session = self.builder.build_initiator();
                return Err(e);
            },
        };
        match t.write_message(&self.session_id, hs3) {
            Ok(_) => {},
            Err(e) => {
                self.session = self.builder.build_initiator();
                return Err(e);
            },
        }
        match self.session.complete_handshake() {
            Ok(()) => Ok(()),
            Err(e) => {
                // Unreachable: the session just processed the responder's
                // reply; reset regardless.
                self.session = self.builder.build_initiator();
                Err(e)
            },
        }
    }

    /// Flip the controller latch. The receive side of the queue is taken
    /// exactly on the one call that finds the latch unset; every later
    /// call finds it set and spawns nothing.
    pub fn ensure_controller(&mut self) -> (spawned: bool)
        requires
            old(self).wf(),
        ensures
            final(self).wf(),
            spec_spawn_step(*old(self), *final(self), spawned),
            spawned == !old(self).has_controller,
            final(self).has_controller,
            !final(self).recvq_available,
            spawned ==> old(self).recvq_available,
            final(self).builder == old(self).builder,
            final(self).session == old(self).session,
            final(self).session_id == old(self).session_id,
            final(self).sendq == old(self).sendq,
            final(self).next_waiter == old(self).next_waiter,
    {
        if self.has_controller {
            false
        } else {
            self.has_controller = true;
            self.recvq_available = false;
            true
        }
    }

    /// Write one request through the connected session and decode the
    /// reply as a response. A transport failure or an unexpected decoded
    /// message poisons the session: it is replaced with a fresh initiator
    /// before the error surfaces.
    #[verifier::rlimit(100)]
    pub fn call_raw(&mut self, t: &mut ScriptTransport, request: Request) -> (r: Result<
        Response,
        RpcError,
    >)
        requires
            old(self).wf(),
            old(t).cursor <= old(t).replies@.len(),
            spec_script_wf(*old(t)),
            msg_encodable(SpecMessage::Request(request@)),
        ensures
            final(self).wf(),
            spec_script_wf(*final(t)),
            final(t).cursor <= final(t).replies@.len(),
            final(t).replies == old(t).replies,
            final(self).builder == old(self).builder,
            final(self).session_id == old(self).session_id,
            final(self).has_controller == old(self).has_controller,
            final(self).recvq_available == old(self).recvq_available,
            final(self).sendq == old(self).sendq,
            final(self).next_waiter == old(self).next_waiter,
            !(old(self).session.state is Transport) ==> (r matches Err(e)
                && e is SessionInvalidState && *final(self) == *old(self) && *final(t) == *old(t)),
            old(self).session.state is Transport ==> spec_call_exchange(
                old(self).session_id.bytes@,
                request@,
                *old(t),
                *final(t),
                r,
            ) && (r is Ok ==> final(self).session.state is Transport) && (r is Err ==> final(self).session.state is Uninitialized),
    {
        proof {
            reveal(spec_request_frame);
        }
        let msg = Message::Request(request);
        let payload = match self.session.write_message(&msg) {
            Ok(p) => p,
            Err(_) => {
                return Err(RpcError::SessionInvalidState);
            },
        };
        let reply = match t.write_message(&self.session_id, payload) {
            Ok(b) => b,
            Err(e) => {
                self.session = self.builder.build_initiator();
                return Err(e);
            },
        };
        match self.session.process_data(&reply) {
            Ok((_, Some(Message::Response(rsp)))) => Ok(rsp),
            Ok(_) => {
                self.session = self.builder.build_initiator();
                Err(RpcError::ExpectedResponseMessage)
            },
            Err(e) => {
                self.session = self.builder.build_initiator();
                Err(e)
            },
        }
    }

    /// Gracefully close the session: write a close message, expect the
    /// decoded reply to be a close message, and mark the session closed.
    pub fn close(&mut self, t: &mut ScriptTransport) -> (r: Result<(), RpcError>)
        requires
            old(self).wf(),
            old(t).cursor <= old(t).replies@.len(),
            spec_script_wf(*old(t)),
        ensures
            final(self).wf(),
            final(t).cursor <= final(t).replies@.len(),
            spec_script_wf(*final(t)),
            final(t).replies == old(t).replies,
            final(self).builder == old(self).builder,
            final(self).session_id == old(self).session_id,
            final(self).has_controller == old(self).has_controller,
            final(self).recvq_available == old(self).recvq_available,
            final(self).sendq == old(self).sendq,
            final(self).next_waiter == old(self).next_waiter,
            !(old(self).session.state is Transport) ==> (r matches Err(e)
                && e is SessionInvalidState && *final(self) == *old(self) && *final(t) == *old(t)),
            old(self).session.state is Transport ==> spec_close_exchange(
                old(self).session_id.bytes@,
                *old(t),
                *final(t),
                r,
                final(self).session.state,
            ),
    {
        let payload = match self.session.write_message(&Message::Close) {
            Ok(p) => p,
            Err(_) => {
                return Err(RpcError::SessionInvalidState);
            },
        };
        let reply = match t.write_message(&self.session_id, payload) {
            Ok(b) => b,
            Err(e) => {
                return Err(e);
            },
        };
        match self.session.process_data(&reply) {
            Ok((_, Some(Message::Close))) => {
                self.session.close();
                Ok(())
            },
            Ok(_) => Err(RpcError::ExpectedCloseMessage),
            Err(e) => Err(e),
        }
    }

    /// Hand a request to the controller: ensure the controller exists,
    /// then enqueue the request with a fresh waiter token. `None` means
    /// the queue is at capacity and the enqueue would suspend until the
    /// controller drains an item.
    pub fn execute_call(&mut self, request: Request) -> (r: Option<u64>)
        requires
            old(self).wf(),
            old(self).next_waiter < u64::MAX,
            msg_encodable(SpecMessage::Request(request@)),
        ensures
            final(self).wf(),
            final(self).has_controller,
            !final(self).recvq_available,
            final(self).builder == old(self).builder,
            final(self).session == old(self).session,
            final(self).session_id == old(self).session_id,
            r is Some <==> old(self).sendq.items@.len() < SENDQ_BACKLOG,
            r matches Some(w) ==> w == old(self).next_waiter && final(self).sendq.items@ == old(self).sendq.items@.push(PendingCall { request, waiter: old(self).next_waiter }) && final(self).next_waiter == old(self).next_waiter + 1,
            r is None ==> final(self).sendq.items@ == old(self).sendq.items@ && final(self).next_waiter == old(self).next_waiter,
    {
        self.ensure_controller();
        let waiter = self.next_waiter;
        if self.sendq.try_enqueue(PendingCall { request, waiter }) {
            self.next_waiter = waiter + 1;
            Some(waiter)
        } else {
            None
        }
    }

    /// The controller's drain loop: process every queued call in FIFO
    /// order, handing each result to its waiter. When the session is
    /// connected and the script answers every exchange with a response,
    /// exactly one framed request is written per queued call, in queue
    /// order, and each waiter receives the body of its own reply.
    #[verifier::rlimit(100)]
    #[verifier::spinoff_prover]
    #[verifier::loop_isolation(false)]
    pub fn dispatch_pending(&mut self, t: &mut ScriptTransport) -> (out: Vec<Delivery>)
        requires
            old(self).wf(),
            old(self).has_controller,
            old(t).cursor <= old(t).replies@.len(),
            spec_script_wf(*old(t)),
        ensures
            final(self).wf(),
            final(t).cursor <= final(t).replies@.len(),
            spec_script_wf(*final(t)),
            final(t).replies == old(t).replies,
            final(self).builder == old(self).builder,
            final(self).session_id == old(self).session_id,
            final(self).has_controller == old(self).has_controller,
            final(self).recvq_available == old(self).recvq_available,
            final(self).next_waiter == old(self).next_waiter,
            final(self).sendq.items@.len() == 0,
            out@.len() == old(self).sendq.items@.len(),
            forall|i: int|
                0 <= i < out@.len() ==> #[trigger] out@[i].waiter == old(self).sendq.items@[i].waiter,
            (old(self).session.state is Transport && spec_all_responses(
                *old(t),
                old(t).cursor as int,
                old(self).sendq.items@.len() as int,
            )) ==> final(self).session.state is Transport && final(t).cursor == old(t).cursor
                + out@.len() && final(t).writes.deep_view() == old(t).writes.deep_view()
                + Seq::new(
                out@.len() as nat,
                |i: int|
                    spec_request_frame(
                        old(self).session_id.bytes@,
                        old(self).sendq.items@[i].request@,
                    ),
            ) && forall|i: int|
                0 <= i < out@.len() ==> (#[trigger] out@[i].result matches Ok(rsp) && rsp@
                    == spec_response_body_at(*old(t), old(t).cursor + i)),
    {
        let ghost items0 = old(self).sendq.items@;
        let ghost t0 = *old(t);
        let ghost c0 = old(t).cursor as int;
        let ghost w0 = old(t).writes.deep_view();
        let ghost sid = old(self).session_id.bytes@;
        let ghost happy = old(self).session.state is Transport && spec_all_responses(
            t0,
            c0,
            items0.len() as int,
        );
        let mut out: Vec<Delivery> = Vec::new();
        while self.sendq.len() > 0
            invariant
                self.wf(),
                t.cursor <= t.replies@.len(),
                spec_script_wf(*t),
                t.replies == t0.replies,
                self.builder == old(self).builder,
                self.session_id == old(self).session_id,
                self.has_controller == old(self).has_controller,
                self.recvq_available == old(self).recvq_available,
                self.next_waiter == old(self).next_waiter,
                out@.len() + self.sendq.items@.len() == items0.len(),
                self.sendq.items@ == items0.subrange(out@.len() as int, items0.len() as int),
                forall|i: int|
                    0 <= i < out@.len() ==> #[trigger] out@[i].waiter == items0[i].waiter,
                happy ==> self.session.state is Transport && t.cursor == c0 + out@.len()
                    && t.writes.deep_view() == w0 + Seq::new(
                    out@.len() as nat,
                    |i: int| spec_request_frame(sid, items0[i].request@),
                ) && forall|i: int|
                    0 <= i < out@.len() ==> (#[trigger] out@[i].result matches Ok(rsp) && rsp@
                        == spec_response_body_at(t0, c0 + i)),
            decreases self.sendq.items@.len(),
        {
            let ghost k = out@.len() as int;
            let item = self.sendq.dequeue().unwrap();
            proof {
                assert(item == items0[k]);
                assert(self.sendq.items@ =~= items0.subrange(k + 1, items0.len() as int));
            }
            let ghost t_pre = *t;
            let connect_res = self.connect(t);
            proof {
                if happy {
                    assert(*t == t_pre);
                    assert(self.session.state is Transport);
                    assert(connect_res is Ok);
                }
            }
            let result = match connect_res {
                Ok(()) => self.call_raw(t, item.request),
                Err(e) => Err(e),
            };
            proof {
                if happy {
                    assert(0 <= k < items0.len() as int);
                    assert(spec_response_reply(t0, c0 + k));
                    assert(spec_reply_at(t_pre, c0 + k) == spec_reply_at(t0, c0 + k));
                    assert(t.cursor == c0 + k + 1);
                    assert(t.writes.deep_view() == t_pre.writes.deep_view().push(
                        spec_request_frame(sid, items0[k].request@),
                    ));
                    assert(t.writes.deep_view() =~~= w0 + Seq::new(
                        (k + 1) as nat,
                        |i: int| spec_request_frame(sid, items0[i].request@),
                    ));
                }
            }
            out.push(Delivery { waiter: item.waiter, result });
        }
        proof {
            assert(self.sendq.items@ =~= items0.subrange(
                out@.len() as int,
                items0.len() as int,
            ));
        }
        out
    }

    /// One typed call through the funnel: build the request, hand it to
    /// the controller, let the controller connect and exchange it, and
    /// map the response body: a success body yields its value, an error
    /// body fails the call with that text.
    #[verifier::rlimit(100)]
    #[verifier::spinoff_prover]
    pub fn call(&mut self, t: &mut ScriptTransport, method: Vec<u8>, args: Vec<u8>) -> (r: Result<
        Vec<u8>,
        RpcError,
    >)
        requires
            old(self).wf(),
            old(self).sendq.items@.len() == 0,
            old(self).next_waiter < u64::MAX,
            old(t).cursor <= old(t).replies@.len(),
            spec_script_wf(*old(t)),
            method@.len() + args@.len() + 9 <= MAX_FIELD_LEN,
        ensures
            final(self).wf(),
            final(self).sendq.items@.len() == 0,
            final(self).has_controller,
            final(self).builder == old(self).builder,
            final(self).session_id == old(self).session_id,
            final(t).replies == old(t).replies,
            final(t).cursor <= final(t).replies@.len(),
            spec_script_wf(*final(t)),
            r is Ok ==> final(self).session.state is Transport,
            r matches Err(e) ==> (if e matches RpcError::CallFailed(_) {
                final(self).session.state is Transport
            } else {
                final(self).session.state is Uninitialized
            }),
            old(self).session.state is Transport ==> spec_warm_call(
                old(self).session_id.bytes@,
                SpecRequest { method: method@, args: args@ },
                *old(t),
                *final(t),
                r,
            ),
            !(old(self).session.state is Transport) ==> spec_cold_call(
                old(self).session_id.bytes@,
                SpecRequest { method: method@, args: args@ },
                *old(t),
                *final(t),
                r,
            ),
    {
        let request = Request { method, args };
        // Hand the request to the controller; the queue is empty, so the
        // enqueue is accepted at once.
        let waiter = self.execute_call(request);
        proof {
            assert(waiter is Some);
        }
        // The controller's turn: take the single queued item and process
        // it, connecting first if the session is not yet established.
        let item = self.sendq.dequeue().unwrap();
        let ghost t_pre = *t;
        let connect_res = self.connect(t);
        let ghost t_mid = *t;
        let result = match connect_res {
            Ok(()) => self.call_raw(t, item.request),
            Err(e) => Err(e),
        };
        proof {
            assert forall|i: int| spec_reply_at(t_mid, i) == spec_reply_at(t_pre, i) by {
                assert(t_mid.replies == t_pre.replies);
            }
        }
        match result {
            Ok(rsp) => match rsp.body {
                Body::Success(v) => Ok(v),
                Body::Error(e) => Err(RpcError::CallFailed(e)),
            },
            Err(e) => Err(e),
        }
    }
}

} // verus!
