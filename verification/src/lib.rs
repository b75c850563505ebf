//! Client core for authenticated, encrypted sessions to a remote enclave.
//!
//! The crate provides the framing codec for session-tagged frames, the
//! session lifecycle state machine, a serialized RPC client that funnels
//! all calls through a bounded FIFO queue and a single controller, a
//! key-manager client with two bounded caches, and the runtime attestation
//! key (RAK) binding checks.
mod client;
mod codec;
mod kmclient;
mod rak;
mod session;
mod types;

pub use client::{
    lemma_controller_spawned_once, spec_all_responses, spec_body_result, spec_call_exchange,
    spec_close_exchange, spec_cold_call, spec_connect_attempt, spec_hs1_frame, spec_hs3_frame,
    spec_next_cursor, spec_reply_at, spec_request_frame, spec_response_body_at,
    spec_response_reply, spec_script_wf, spec_spawn_step, spec_warm_call, Delivery, PendingCall,
    RpcClient, ScriptTransport, SendQueue, TransportReply, SENDQ_BACKLOG,
};

pub use codec::{
    decode_message, encode_frame, encode_message, lemma_le32_roundtrip, lemma_message_roundtrip,
    msg_encodable, opt_message_view, spec_dec_le32, spec_dec_message, spec_enc_bytes,
    spec_enc_frame, spec_enc_message, spec_le32, MAX_FIELD_LEN, TAG_CLOSE, TAG_FRAME,
    TAG_HANDSHAKE_1, TAG_HANDSHAKE_2, TAG_HANDSHAKE_3, TAG_REQUEST, TAG_RESPONSE_ERROR,
    TAG_RESPONSE_SUCCESS,
};

pub use kmclient::{
    decode_opt_signed_key, public_cache_contents, secret_cache_contents, spec_body_key_result,
    spec_body_opt_key_result, spec_body_secret_result, spec_method_get_or_create_keys,
    spec_method_get_public_key, spec_method_replicate_master_secret, spec_opt_key_of,
    spec_request_ids, spec_warm_key_call, spec_warm_pubkey_call, spec_warm_secret_call,
    ContractId, ContractKey, KmError, MasterSecret, RemoteClient, RuntimeId, SignedPublicKey,
    ID_LEN,
};

pub use rak::{
    ed25519_pk_of, ed25519_sig_of, sha512_256_of, spec_binding_ok, spec_rak_hash_context,
    spec_report_body_for_rak, AuthenticatedAvr, RakError, PRIVATE_KEY_LEN, PUBLIC_KEY_LEN, RAK,
    RAK_HASH_CONTEXT_LEN, REPORT_DATA_LEN,
};

pub use session::{Builder, EnclaveId, Session, SessionState};

pub use types::{
    Body, Message, Request, Response, RpcError, SessionId, SpecBody, SpecMessage, SpecRequest,
    SESSION_ID_LEN,
};
