//! Session wrapper: the lifecycle state machine of the authenticated
//! channel, and the builder that produces fresh initiator sessions.
//!
//! The session owns the lifecycle (uninitialized, the two handshake
//! phases, transport, closed) and the framing of session-internal
//! messages; a session that errs is poisoned and must be replaced with a
//! fresh initiator built from the retained builder.
use vstd::prelude::*;

use crate::codec::{
    decode_message, encode_message, msg_encodable, spec_dec_message, spec_enc_message,
    MAX_FIELD_LEN, TAG_HANDSHAKE_1, TAG_HANDSHAKE_2, TAG_HANDSHAKE_3,
};
use crate::types::{Message, RpcError, SpecMessage};

verus! {

/// An enclave identity: the measurement and the signer of an enclave,
/// used as an allow-list entry for the handshake peer.
#[derive(Clone)]
pub struct EnclaveId {
    pub mr_enclave: Vec<u8>,
    pub mr_signer: Vec<u8>,
}

/// Lifecycle of a session.
pub enum SessionState {
    /// Fresh initiator; no handshake message produced yet.
    Uninitialized,
    /// The first handshake message was emitted; the responder's reply is
    /// awaited.
    HandshakeOutbound,
    /// The responder's reply was folded in and the final handshake message
    /// was emitted; its delivery is not yet confirmed.
    HandshakeInbound,
    /// The handshake completed; application messages flow.
    Transport,
    /// Closed or poisoned; every operation errs.
    Closed,
}

/// Factory for fresh initiator sessions; retained by the client so that a
/// failed session can be replaced.
#[derive(Clone)]
pub struct Builder {
    /// Enclave identities the remote must match. `None` does not
    /// constrain; `Some` with an empty list constrains but accepts any.
    pub remote_enclaves: Option<Vec<EnclaveId>>,
    /// Whether the client's own attested identity is offered to the
    /// handshake.
    pub use_local_rak: bool,
}

impl Builder {
    /// A builder with no peer constraint and no local attestation key.
    pub fn new() -> (r: Self)
        ensures
            r.remote_enclaves is None,
            !r.use_local_rak,
    {
        Builder { remote_enclaves: None, use_local_rak: false }
    }

    /// Set the allow-list of remote enclave identities.
    pub fn remote_enclaves(self, enclaves: Option<Vec<EnclaveId>>) -> (r: Self)
        ensures
            r.remote_enclaves == enclaves,
            r.use_local_rak == self.use_local_rak,
    {
        Builder { remote_enclaves: enclaves, ..self }
    }

    /// Offer the client's own attested identity to the handshake.
    pub fn local_rak(self, use_rak: bool) -> (r: Self)
        ensures
            r.remote_enclaves == self.remote_enclaves,
            r.use_local_rak == use_rak,
    {
        Builder { use_local_rak: use_rak, ..self }
    }

    /// Produce a fresh, uninitialized initiator session.
    pub fn build_initiator(&self) -> (r: Session)
        ensures
            r.state is Uninitialized,
    {
        Session { state: SessionState::Uninitialized }
    }
}

/// The session owned by one RPC client.
pub struct Session {
    pub state: SessionState,
}

/// What a successful `process_data` yields and how it moves the state, by
/// the state the call found.
pub open spec fn spec_process_ok(
    pre: SessionState,
    post: Session,
    incoming: Seq<u8>,
    out: Seq<u8>,
    msg: Option<Message>,
) -> bool {
    match pre {
        SessionState::Uninitialized => incoming.len() == 0 && out == seq![TAG_HANDSHAKE_1]
            && msg is None && post.state is HandshakeOutbound,
        SessionState::HandshakeOutbound => incoming == seq![TAG_HANDSHAKE_2] && out == seq![
            TAG_HANDSHAKE_3,
        ] && msg is None && post.state is HandshakeInbound,
        SessionState::Transport => out.len() == 0 && msg is Some && Some(msg.unwrap()@)
            == spec_dec_message(incoming) && post.state is Transport,
        _ => false,
    }
}

/// On which inputs `process_data` errs, by the state the call found.
pub open spec fn spec_process_err(pre: SessionState, incoming: Seq<u8>) -> bool {
    match pre {
        SessionState::Uninitialized => incoming.len() != 0,
        SessionState::HandshakeOutbound => incoming != seq![TAG_HANDSHAKE_2],
        SessionState::Transport => spec_dec_message(incoming) is None,
        _ => true,
    }
}

impl Session {
    /// Whether the handshake has completed and application messages flow.
    pub fn is_connected(&self) -> (r: bool)
        ensures
            r == (self.state is Transport),
    {
        matches!(self.state, SessionState::Transport)
    }

    /// Fold inbound bytes into the session; may emit an outbound blob
    /// and/or a decoded message.
    ///
    /// In the uninitialized state only an empty input is accepted and the
    /// first handshake message is emitted. While the outbound handshake is
    /// in flight only the responder's reply is accepted, and the final
    /// handshake message is emitted. In the transport state the input must
    /// be the exact encoding of a message, which is returned with no
    /// outbound data. Any error poisons the session.
    pub fn process_data(&mut self, incoming: &Vec<u8>) -> (r: Result<
        (Vec<u8>, Option<Message>),
        RpcError,
    >)
        requires
            incoming@.len() <= MAX_FIELD_LEN,
        ensures
            match r {
                Ok((out, msg)) => spec_process_ok(old(self).state, *final(self), incoming@, out@, msg),
                Err(e) => final(self).state is Closed && spec_process_err(
                    old(self).state,
                    incoming@,
                ) && (if old(self).state is Transport {
                    e is Transport
                } else {
                    e is SessionInvalidState
                }),
            },
    {
        match self.state {
            SessionState::Uninitialized => {
                if incoming.len() == 0 {
                    self.state = SessionState::HandshakeOutbound;
                    let mut out: Vec<u8> = Vec::new();
                    out.push(TAG_HANDSHAKE_1);
                    assert(out@ =~= seq![TAG_HANDSHAKE_1]);
                    Ok((out, None))
                } else {
                    self.state = SessionState::Closed;
                    Err(RpcError::SessionInvalidState)
                }
            },
            SessionState::HandshakeOutbound => {
                if incoming.len() == 1 && incoming[0] == TAG_HANDSHAKE_2 {
                    assert(incoming@ =~= seq![TAG_HANDSHAKE_2]);
                    self.state = SessionState::HandshakeInbound;
                    let mut out: Vec<u8> = Vec::new();
                    out.push(TAG_HANDSHAKE_3);
                    assert(out@ =~= seq![TAG_HANDSHAKE_3]);
                    Ok((out, None))
                } else {
                    assert(incoming@ != seq![TAG_HANDSHAKE_2]);
                    self.state = SessionState::Closed;
                    Err(RpcError::SessionInvalidState)
                }
            },
            SessionState::Transport => {
                match decode_message(incoming) {
                    Some(msg) => Ok((Vec::new(), Some(msg))),
                    None => {
                        self.state = SessionState::Closed;
                        Err(RpcError::Transport)
                    },
                }
            },
            _ => {
                self.state = SessionState::Closed;
                Err(RpcError::SessionInvalidState)
            },
        }
    }

    /// Confirm delivery of the final handshake message; the session
    /// becomes connected only now, after the whole handshake completed.
    pub fn complete_handshake(&mut self) -> (r: Result<(), RpcError>)
        ensures
            match r {
                Ok(()) => old(self).state is HandshakeInbound && final(self).state is Transport,
                Err(_) => !(old(self).state is HandshakeInbound) && final(self).state is Closed,
            },
    {
        match self.state {
            SessionState::HandshakeInbound => {
                self.state = SessionState::Transport;
                Ok(())
            },
            _ => {
                self.state = SessionState::Closed;
                Err(RpcError::SessionInvalidState)
            },
        }
    }

    /// Encode an outbound application message into the current session.
    /// Only a connected session accepts messages; the session state is
    /// never changed.
    pub fn write_message(&mut self, msg: &Message) -> (r: Result<Vec<u8>, RpcError>)
        requires
            msg_encodable(msg@),
        ensures
            final(self).state == old(self).state,
            match r {
                Ok(out) => old(self).state is Transport && out@ == spec_enc_message(msg@),
                Err(_) => !(old(self).state is Transport),
            },
    {
        match self.state {
            SessionState::Transport => Ok(encode_message(msg)),
            _ => Err(RpcError::SessionInvalidState),
        }
    }

    /// Mark the session closed; further operations err.
    pub fn close(&mut self)
        ensures
            final(self).state is Closed,
    {
        self.state = SessionState::Closed;
    }
}

} // verus!
