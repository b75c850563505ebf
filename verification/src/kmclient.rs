//! Key-manager client: typed key-manager operations layered on the RPC
//! client, with two bounded least-recently-used caches and explicit
//! invalidation. Caches are populated only on successful remote
//! responses; a negative lookup is never cached.
use vstd::prelude::*;

use crate::client::{
    spec_next_cursor, spec_reply_at, spec_request_frame, spec_script_wf, RpcClient,
    ScriptTransport,
};
use crate::codec::spec_dec_message;
use crate::session::{Builder, EnclaveId};
use crate::types::{RpcError, SessionId, SpecBody, SpecMessage, SpecRequest};

verus! {

/// Length, in bytes, of a runtime or contract identifier.
pub const ID_LEN: usize = 32;

/// The identifier of the runtime on whose behalf keys are requested.
#[derive(Clone)]
pub struct RuntimeId {
    pub bytes: Vec<u8>,
}

impl RuntimeId {
    /// A runtime identifier holds exactly 32 bytes.
    pub open spec fn wf(self) -> bool {
        self.bytes@.len() == ID_LEN
    }
}

/// The application-level identifier keyed into the key-manager caches.
#[derive(Clone)]
pub struct ContractId {
    pub bytes: Vec<u8>,
}

impl ContractId {
    /// A contract identifier holds exactly 32 bytes.
    pub open spec fn wf(self) -> bool {
        self.bytes@.len() == ID_LEN
    }
}

/// Secret key material derived by the key manager for one contract.
#[derive(Clone)]
pub struct ContractKey {
    pub bytes: Vec<u8>,
}

/// A public key together with the key manager's signature over it.
#[derive(Clone)]
pub struct SignedPublicKey {
    pub key: Vec<u8>,
    pub signature: Vec<u8>,
}

/// The key manager's replicated master secret.
#[derive(Clone)]
pub struct MasterSecret {
    pub bytes: Vec<u8>,
}

/// Errors of the key-manager layer.
#[derive(Debug)]
pub enum KmError {
    /// The signed policy did not verify against the trusted signers.
    PolicyVerification,
}

/// The name of the remote method deriving per-contract keys.
pub open spec fn spec_method_get_or_create_keys() -> Seq<u8> {
    seq![
        103u8, 101, 116, 95, 111, 114, 95, 99, 114, 101, 97, 116, 101, 95, 107, 101, 121, 115,
    ]
}

/// The name of the remote method fetching a contract's public key.
pub open spec fn spec_method_get_public_key() -> Seq<u8> {
    seq![103u8, 101, 116, 95, 112, 117, 98, 108, 105, 99, 95, 107, 101, 121]
}

/// The name of the remote method replicating the master secret.
pub open spec fn spec_method_replicate_master_secret() -> Seq<u8> {
    seq![
        114u8, 101, 112, 108, 105, 99, 97, 116, 101, 95, 109, 97, 115, 116, 101, 114, 95, 115,
        101, 99, 114, 101, 116,
    ]
}

/// The argument bytes of a keyed request: the runtime identifier followed
/// by the contract identifier, both of fixed length.
pub open spec fn spec_request_ids(rid: Seq<u8>, cid: Seq<u8>) -> Seq<u8> {
    rid + cid
}

/// Declares lru::LruCache, the bounded least-recently-used map that
/// backs both key caches; its contents are modelled by the two content
/// maps below.
#[verifier::external_type_specification]
#[verifier::external_body]
#[verifier::reject_recursive_types(K)]
#[verifier::reject_recursive_types(V)]
#[verifier::reject_recursive_types(S)]
pub struct ExLruCache<K, V, S>(lru::LruCache<K, V, S>);

/// How a keyed call's result reflects the response body: a success body
/// carries the key bytes, an error body fails the call with its text.
pub open spec fn spec_body_key_result(body: SpecBody, r: Result<ContractKey, RpcError>) -> bool {
    match body {
        SpecBody::Success(v) => r matches Ok(k) && k.bytes@ == v,
        SpecBody::Error(e) => r matches Err(err) && (err matches RpcError::CallFailed(m) && m@
            == e),
    }
}

/// One whole keyed exchange on a connected session: the request frame is
/// written and the result follows the scripted reply, with the success
/// value carried as the contract key.
pub open spec fn spec_warm_key_call(
    sid: Seq<u8>,
    req: SpecRequest,
    t0: ScriptTransport,
    t1: ScriptTransport,
    r: Result<ContractKey, RpcError>,
) -> bool {
    let c0 = t0.cursor as int;
    t1.writes.deep_view() == t0.writes.deep_view().push(spec_request_frame(sid, req))
        && t1.cursor == spec_next_cursor(t0, c0) && match spec_reply_at(t0, c0) {
        None => r matches Err(e) && e is Transport,
        Some(b) => match spec_dec_message(b) {
            Some(SpecMessage::Response(body)) => spec_body_key_result(body, r),
            Some(_) => r matches Err(e) && e is ExpectedResponseMessage,
            None => r matches Err(e) && e is Transport,
        },
    }
}

/// The optional signed key a response value denotes: a single zero byte
/// is absent; a one byte followed by the 32 key bytes and the 64
/// signature bytes is present; anything else is malformed.
pub open spec fn spec_opt_key_of(v: Seq<u8>) -> Option<Option<(Seq<u8>, Seq<u8>)>> {
    if v == seq![0u8] {
        Some(None)
    } else if v.len() == 97 && v[0] == 1 {
        Some(Some((v.subrange(1, 33), v.subrange(33, 97))))
    } else {
        None
    }
}

/// How a public-key call's result reflects the response body.
pub open spec fn spec_body_opt_key_result(
    body: SpecBody,
    r: Result<Option<SignedPublicKey>, RpcError>,
) -> bool {
    match body {
        SpecBody::Success(v) => match spec_opt_key_of(v) {
            Some(Some(ks)) => r matches Ok(o) && (o matches Some(pk) && (pk.key@, pk.signature@)
                == ks),
            Some(None) => r matches Ok(o) && o is None,
            None => r matches Err(e) && e is Serialization,
        },
        SpecBody::Error(e) => r matches Err(err) && (err matches RpcError::CallFailed(m) && m@
            == e),
    }
}

/// One whole public-key exchange on a connected session.
pub open spec fn spec_warm_pubkey_call(
    sid: Seq<u8>,
    req: SpecRequest,
    t0: ScriptTransport,
    t1: ScriptTransport,
    r: Result<Option<SignedPublicKey>, RpcError>,
) -> bool {
    let c0 = t0.cursor as int;
    t1.writes.deep_view() == t0.writes.deep_view().push(spec_request_frame(sid, req))
        && t1.cursor == spec_next_cursor(t0, c0) && match spec_reply_at(t0, c0) {
        None => r matches Err(e) && e is Transport,
        Some(b) => match spec_dec_message(b) {
            Some(SpecMessage::Response(body)) => spec_body_opt_key_result(body, r),
            Some(_) => r matches Err(e) && e is ExpectedResponseMessage,
            None => r matches Err(e) && e is Transport,
        },
    }
}

/// How a replication call's result reflects the response body.
pub open spec fn spec_body_secret_result(
    body: SpecBody,
    r: Result<Option<MasterSecret>, RpcError>,
) -> bool {
    match body {
        SpecBody::Success(v) => r matches Ok(o) && (o matches Some(sec) && sec.bytes@ == v),
        SpecBody::Error(e) => r matches Err(err) && (err matches RpcError::CallFailed(m) && m@
            == e),
    }
}

/// One whole replication exchange on a connected session.
pub open spec fn spec_warm_secret_call(
    sid: Seq<u8>,
    req: SpecRequest,
    t0: ScriptTransport,
    t1: ScriptTransport,
    r: Result<Option<MasterSecret>, RpcError>,
) -> bool {
    let c0 = t0.cursor as int;
    t1.writes.deep_view() == t0.writes.deep_view().push(spec_request_frame(sid, req))
        && t1.cursor == spec_next_cursor(t0, c0) && match spec_reply_at(t0, c0) {
        None => r matches Err(e) && e is Transport,
        Some(b) => match spec_dec_message(b) {
            Some(SpecMessage::Response(body)) => spec_body_secret_result(body, r),
            Some(_) => r matches Err(e) && e is ExpectedResponseMessage,
            None => r matches Err(e) && e is Transport,
        },
    }
}

/// The contents of a secret-key cache, as a map from the 32 identifier
/// bytes to the key bytes.
pub uninterp spec fn secret_cache_contents(c: lru::LruCache<Vec<u8>, ContractKey, std::collections::hash_map::RandomState>) -> Map<
    Seq<u8>,
    Seq<u8>,
>;

/// The contents of a public-key cache, as a map from the 32 identifier
/// bytes to the key and signature bytes.
pub uninterp spec fn public_cache_contents(c: lru::LruCache<Vec<u8>, SignedPublicKey, std::collections::hash_map::RandomState>) -> Map<
    Seq<u8>,
    (Seq<u8>, Seq<u8>),
>;

/// Relies on lru::LruCache::new: a cache of positive capacity starts
/// empty.
#[verifier::external_body]
fn secret_cache_new(cap: usize) -> (c: lru::LruCache<Vec<u8>, ContractKey, std::collections::hash_map::RandomState>)
    requires
        cap >= 1,
    ensures
        forall|k: Seq<u8>| !(#[trigger] secret_cache_contents(c).contains_key(k)),
{
    lru::LruCache::with_hasher(
        std::num::NonZeroUsize::new(cap).unwrap(),
        std::collections::hash_map::RandomState::new(),
    )
}

/// Relies on lru::LruCache::get: returns the entry under the key, only
/// bumping its recency; the contents do not change.
#[verifier::external_body]
fn secret_cache_get(c: &mut lru::LruCache<Vec<u8>, ContractKey, std::collections::hash_map::RandomState>, k: &Vec<u8>) -> (r: Option<
    ContractKey,
>)
    ensures
        secret_cache_contents(*final(c)) == secret_cache_contents(*old(c)),
        match r {
            Some(v) => secret_cache_contents(*old(c)).contains_key(k@) && v.bytes@
                == secret_cache_contents(*old(c))[k@],
            None => !secret_cache_contents(*old(c)).contains_key(k@),
        },
{
    c.get(k).cloned()
}

/// Relies on lru::LruCache::put: the entry is inserted under the key; at
/// capacity the least recently used other entry is evicted; no entry is
/// changed otherwise.
#[verifier::external_body]
fn secret_cache_put(c: &mut lru::LruCache<Vec<u8>, ContractKey, std::collections::hash_map::RandomState>, k: Vec<u8>, v: ContractKey)
    ensures
        secret_cache_contents(*final(c)).contains_key(k@),
        secret_cache_contents(*final(c))[k@] == v.bytes@,
        forall|k2: Seq<u8>|
            k2 != k@ && #[trigger] secret_cache_contents(*final(c)).contains_key(k2)
                ==> secret_cache_contents(*old(c)).contains_key(k2) && secret_cache_contents(
                *final(c),
            )[k2] == secret_cache_contents(*old(c))[k2],
{
    c.put(k, v);
}

/// Relies on lru::LruCache::clear: every entry is removed.
#[verifier::external_body]
fn secret_cache_clear(c: &mut lru::LruCache<Vec<u8>, ContractKey, std::collections::hash_map::RandomState>)
    ensures
        forall|k: Seq<u8>| !(#[trigger] secret_cache_contents(*final(c)).contains_key(k)),
{
    c.clear();
}

/// Relies on lru::LruCache::new: a cache of positive capacity starts
/// empty.
#[verifier::external_body]
fn public_cache_new(cap: usize) -> (c: lru::LruCache<Vec<u8>, SignedPublicKey, std::collections::hash_map::RandomState>)
    requires
        cap >= 1,
    ensures
        forall|k: Seq<u8>| !(#[trigger] public_cache_contents(c).contains_key(k)),
{
    lru::LruCache::with_hasher(
        std::num::NonZeroUsize::new(cap).unwrap(),
        std::collections::hash_map::RandomState::new(),
    )
}

/// Relies on lru::LruCache::get: returns the entry under the key, only
/// bumping its recency; the contents do not change.
#[verifier::external_body]
fn public_cache_get(c: &mut lru::LruCache<Vec<u8>, SignedPublicKey, std::collections::hash_map::RandomState>, k: &Vec<u8>) -> (r: Option<
    SignedPublicKey,
>)
    ensures
        public_cache_contents(*final(c)) == public_cache_contents(*old(c)),
        match r {
            Some(v) => public_cache_contents(*old(c)).contains_key(k@) && (v.key@, v.signature@)
                == public_cache_contents(*old(c))[k@],
            None => !public_cache_contents(*old(c)).contains_key(k@),
        },
{
    c.get(k).cloned()
}

/// Relies on lru::LruCache::put: the entry is inserted under the key; at
/// capacity the least recently used other entry is evicted; no entry is
/// changed otherwise.
#[verifier::external_body]
fn public_cache_put(c: &mut lru::LruCache<Vec<u8>, SignedPublicKey, std::collections::hash_map::RandomState>, k: Vec<u8>, v: SignedPublicKey)
    ensures
        public_cache_contents(*final(c)).contains_key(k@),
        public_cache_contents(*final(c))[k@] == (v.key@, v.signature@),
        forall|k2: Seq<u8>|
            k2 != k@ && #[trigger] public_cache_contents(*final(c)).contains_key(k2)
                ==> public_cache_contents(*old(c)).contains_key(k2) && public_cache_contents(
                *final(c),
            )[k2] == public_cache_contents(*old(c))[k2],
{
    c.put(k, v);
}

/// Relies on lru::LruCache::clear: every entry is removed.
#[verifier::external_body]
fn public_cache_clear(c: &mut lru::LruCache<Vec<u8>, SignedPublicKey, std::collections::hash_map::RandomState>)
    ensures
        forall|k: Seq<u8>| !(#[trigger] public_cache_contents(*final(c)).contains_key(k)),
{
    c.clear();
}

/// A key-manager client: the RPC client plus the two bounded caches.
pub struct RemoteClient {
    /// Identifier of the runtime injected into every request.
    pub runtime_id: RuntimeId,
    /// The serialized RPC client carrying the session.
    pub rpc_client: RpcClient,
    /// Cache of derived per-contract secret keys.
    pub secret_keys_cache: lru::LruCache<Vec<u8>, ContractKey, std::collections::hash_map::RandomState>,
    /// Cache of per-contract signed public keys.
    pub public_keys_cache: lru::LruCache<Vec<u8>, SignedPublicKey, std::collections::hash_map::RandomState>,
}

impl RemoteClient {
    /// The secret-key cache as a map of identifier bytes to key bytes.
    pub open spec fn secret_cache(self) -> Map<Seq<u8>, Seq<u8>> {
        secret_cache_contents(self.secret_keys_cache)
    }

    /// The public-key cache as a map of identifier bytes to key and
    /// signature bytes.
    pub open spec fn public_cache(self) -> Map<Seq<u8>, (Seq<u8>, Seq<u8>)> {
        public_cache_contents(self.public_keys_cache)
    }

    /// Validity of the client state.
    pub open spec fn wf(self) -> bool {
        self.runtime_id.wf() && self.rpc_client.wf()
    }

    /// A client over the given RPC client, with both caches empty and
    /// bounded by the one given capacity.
    pub fn new(runtime_id: RuntimeId, rpc_client: RpcClient, keys_cache_sizes: usize) -> (r: Self)
        requires
            runtime_id.wf(),
            rpc_client.wf(),
            keys_cache_sizes >= 1,
        ensures
            r.wf(),
            r.runtime_id == runtime_id,
            r.rpc_client == rpc_client,
            r.secret_cache() == Map::<Seq<u8>, Seq<u8>>::empty(),
            r.public_cache() == Map::<Seq<u8>, (Seq<u8>, Seq<u8>)>::empty(),
    {
        let r = RemoteClient {
            runtime_id,
            rpc_client,
            secret_keys_cache: secret_cache_new(keys_cache_sizes),
            public_keys_cache: public_cache_new(keys_cache_sizes),
        };
        proof {
            assert(r.secret_cache() =~= Map::<Seq<u8>, Seq<u8>>::empty());
            assert(r.public_cache() =~= Map::<Seq<u8>, (Seq<u8>, Seq<u8>)>::empty());
        }
        r
    }

    /// A client for a runtime-internal carrier with explicit key-manager
    /// enclave identities: the peer allow-list and the use of the local
    /// attestation key are wired into the session builder; the carrier
    /// itself is attached where the transport is driven.
    pub fn new_runtime_with_enclave_identities(
        runtime_id: RuntimeId,
        enclaves: Option<Vec<EnclaveId>>,
        use_local_rak: bool,
        session_id: SessionId,
        keys_cache_sizes: usize,
    ) -> (r: Self)
        requires
            runtime_id.wf(),
            session_id.wf(),
            keys_cache_sizes >= 1,
        ensures
            r.wf(),
            r.runtime_id == runtime_id,
            r.rpc_client.builder.remote_enclaves == enclaves,
            r.rpc_client.builder.use_local_rak == use_local_rak,
            r.rpc_client.session.state is Uninitialized,
            r.rpc_client.sendq.items@.len() == 0,
            !r.rpc_client.has_controller,
            r.secret_cache() == Map::<Seq<u8>, Seq<u8>>::empty(),
            r.public_cache() == Map::<Seq<u8>, (Seq<u8>, Seq<u8>)>::empty(),
    {
        let builder = Builder::new().remote_enclaves(enclaves).local_rak(use_local_rak);
        let rpc_client = RpcClient::new(builder, session_id);
        Self::new(runtime_id, rpc_client, keys_cache_sizes)
    }

    /// Empty both caches. The two caches are cleared one after the other,
    /// never holding both write locks at once; afterwards every lookup
    /// misses until a remote call repopulates its entry.
    pub fn clear_cache(&mut self)
        ensures
            final(self).secret_cache() == Map::<Seq<u8>, Seq<u8>>::empty(),
            final(self).public_cache() == Map::<Seq<u8>, (Seq<u8>, Seq<u8>)>::empty(),
            final(self).runtime_id == old(self).runtime_id,
            final(self).rpc_client == old(self).rpc_client,
    {
        secret_cache_clear(&mut self.secret_keys_cache);
        public_cache_clear(&mut self.public_keys_cache);
        proof {
            assert(self.secret_cache() =~= Map::<Seq<u8>, Seq<u8>>::empty());
            assert(self.public_cache() =~= Map::<Seq<u8>, (Seq<u8>, Seq<u8>)>::empty());
        }
    }

    /// The argument bytes of a keyed request for this runtime.
    fn request_ids_args(&self, contract_id: &ContractId) -> (r: Vec<u8>)
        requires
            self.runtime_id.wf(),
            contract_id.wf(),
        ensures
            r@ == spec_request_ids(self.runtime_id.bytes@, contract_id.bytes@),
            r@.len() == 2 * ID_LEN,
    {
        let mut r: Vec<u8> = Vec::new();
        let mut i: usize = 0;
        while i < self.runtime_id.bytes.len()
            invariant
                i <= self.runtime_id.bytes@.len(),
                r@ == self.runtime_id.bytes@.subrange(0, i as int),
            decreases self.runtime_id.bytes@.len() - i,
        {
            r.push(self.runtime_id.bytes[i]);
            i = i + 1;
            assert(r@ =~= self.runtime_id.bytes@.subrange(0, i as int));
        }
        assert(self.runtime_id.bytes@.subrange(0, self.runtime_id.bytes@.len() as int) =~= self
            .runtime_id
            .bytes@);
        let mut j: usize = 0;
        while j < contract_id.bytes.len()
            invariant
                j <= contract_id.bytes@.len(),
                r@ == self.runtime_id.bytes@ + contract_id.bytes@.subrange(0, j as int),
            decreases contract_id.bytes@.len() - j,
        {
            r.push(contract_id.bytes[j]);
            j = j + 1;
            assert(r@ =~= self.runtime_id.bytes@ + contract_id.bytes@.subrange(0, j as int));
        }
        assert(r@ =~= spec_request_ids(self.runtime_id.bytes@, contract_id.bytes@));
        r
    }

    /// Serve per-contract secret keys: on a cache hit return the cached
    /// value with no remote activity; on a miss issue the remote request,
    /// cache the key only on success, and return it.
    pub fn get_or_create_keys(
        &mut self,
        t: &mut ScriptTransport,
        contract_id: &ContractId,
    ) -> (r: Result<ContractKey, RpcError>)
        requires
            old(self).wf(),
            contract_id.wf(),
            old(self).rpc_client.sendq.items@.len() == 0,
            old(self).rpc_client.next_waiter < u64::MAX,
            old(t).cursor <= old(t).replies@.len(),
            spec_script_wf(*old(t)),
        ensures
            final(self).wf(),
            final(self).runtime_id == old(self).runtime_id,
            final(self).rpc_client.sendq.items@.len() == 0,
            final(self).public_cache() == old(self).public_cache(),
            final(t).replies == old(t).replies,
            final(t).cursor <= final(t).replies@.len(),
            spec_script_wf(*final(t)),
            // A hit is served from the cache: no remote activity at all.
            old(self).secret_cache().contains_key(contract_id.bytes@) ==> (r matches Ok(k)
                && k.bytes@ == old(self).secret_cache()[contract_id.bytes@] && *final(t) == *old(t)
                && final(self).rpc_client == old(self).rpc_client && final(self).secret_cache()
                == old(self).secret_cache()),
            // A miss reaches the transport.
            !old(self).secret_cache().contains_key(contract_id.bytes@) ==> final(t).writes.deep_view().len() > old(t).writes.deep_view().len(),
            // A miss on a connected session is one exact exchange: the
            // keyed request frame is written, and the result follows the
            // scripted reply.
            !old(self).secret_cache().contains_key(contract_id.bytes@) && old(self).rpc_client.session.state is Transport ==> spec_warm_key_call(
                old(self).rpc_client.session_id.bytes@,
                SpecRequest {
                    method: spec_method_get_or_create_keys(),
                    args: spec_request_ids(old(self).runtime_id.bytes@, contract_id.bytes@),
                },
                *old(t),
                *final(t),
                r,
            ),
            // When the remote call succeeded, the request frame written
            // last was exactly the keyed request, and the key is cached.
            r matches Ok(k) ==> (!old(self).secret_cache().contains_key(contract_id.bytes@)
                ==> final(t).writes.deep_view().last() == spec_request_frame(
                old(self).rpc_client.session_id.bytes@,
                SpecRequest {
                    method: spec_method_get_or_create_keys(),
                    args: spec_request_ids(old(self).runtime_id.bytes@, contract_id.bytes@),
                },
            ) && final(self).secret_cache().contains_key(contract_id.bytes@) && final(self).secret_cache()[contract_id.bytes@] == k.bytes@ && forall|k2: Seq<u8>|
                k2 != contract_id.bytes@ && #[trigger] final(self).secret_cache().contains_key(k2)
                    ==> old(self).secret_cache().contains_key(k2) && final(self).secret_cache()[k2]
                    == old(self).secret_cache()[k2]),
            // A failed remote call populates nothing.
            r is Err ==> final(self).secret_cache() == old(self).secret_cache(),
    {
        if let Some(k) = secret_cache_get(&mut self.secret_keys_cache, &contract_id.bytes) {
            return Ok(k);
        }
        let args = self.request_ids_args(contract_id);
        let method: Vec<u8> = vec![
            103u8, 101, 116, 95, 111, 114, 95, 99, 114, 101, 97, 116, 101, 95, 107, 101, 121, 115,
        ];
        assert(method@ =~= spec_method_get_or_create_keys());
        match self.rpc_client.call(t, method, args) {
            Ok(v) => {
                let cached = ContractKey { bytes: v.clone() };
                secret_cache_put(&mut self.secret_keys_cache, contract_id.bytes.clone(), cached);
                Ok(ContractKey { bytes: v })
            },
            Err(e) => Err(e),
        }
    }

    /// Serve a contract's signed public key: on a cache hit return the
    /// cached value; on a miss issue the remote request. An absent remote
    /// key is returned as such and never cached, so the next invocation
    /// queries the remote again.
    pub fn get_public_key(
        &mut self,
        t: &mut ScriptTransport,
        contract_id: &ContractId,
    ) -> (r: Result<Option<SignedPublicKey>, RpcError>)
        requires
            old(self).wf(),
            contract_id.wf(),
            old(self).rpc_client.sendq.items@.len() == 0,
            old(self).rpc_client.next_waiter < u64::MAX,
            old(t).cursor <= old(t).replies@.len(),
            spec_script_wf(*old(t)),
        ensures
            final(self).wf(),
            final(self).runtime_id == old(self).runtime_id,
            final(self).rpc_client.sendq.items@.len() == 0,
            final(self).secret_cache() == old(self).secret_cache(),
            final(t).replies == old(t).replies,
            final(t).cursor <= final(t).replies@.len(),
            spec_script_wf(*final(t)),
            // A hit is served from the cache: no remote activity at all.
            old(self).public_cache().contains_key(contract_id.bytes@) ==> (r matches Ok(k)
                && k matches Some(pk) && (pk.key@, pk.signature@) == old(self).public_cache()[contract_id.bytes@] && *final(t) == *old(t) && final(self).rpc_client
                == old(self).rpc_client && final(self).public_cache() == old(self).public_cache()),
            // A miss reaches the transport.
            !old(self).public_cache().contains_key(contract_id.bytes@) ==> final(t).writes.deep_view().len() > old(t).writes.deep_view().len(),
            // A miss on a connected session is one exact exchange.
            !old(self).public_cache().contains_key(contract_id.bytes@) && old(self).rpc_client.session.state is Transport ==> spec_warm_pubkey_call(
                old(self).rpc_client.session_id.bytes@,
                SpecRequest {
                    method: spec_method_get_public_key(),
                    args: spec_request_ids(old(self).runtime_id.bytes@, contract_id.bytes@),
                },
                *old(t),
                *final(t),
                r,
            ),
            // An absent remote key is not cached: the cache is unchanged
            // and the next invocation will query the remote again.
            r matches Ok(k) && k is None ==> final(self).public_cache() == old(self).public_cache(),
            // A present remote key is cached under its identifier.
            r matches Ok(k) ==> (k matches Some(pk) ==> (!old(self).public_cache().contains_key(contract_id.bytes@) ==> (final(self).public_cache().contains_key(contract_id.bytes@) && final(self).public_cache()[contract_id.bytes@] == (pk.key@, pk.signature@) && forall|
                k2: Seq<u8>,
            |
                k2 != contract_id.bytes@ && #[trigger] final(self).public_cache().contains_key(k2)
                    ==> old(self).public_cache().contains_key(k2) && final(self).public_cache()[k2]
                    == old(self).public_cache()[k2]))),
            // A failed remote call populates nothing.
            r is Err ==> final(self).public_cache() == old(self).public_cache(),
    {
        if let Some(k) = public_cache_get(&mut self.public_keys_cache, &contract_id.bytes) {
            return Ok(Some(k));
        }
        let args = self.request_ids_args(contract_id);
        let method: Vec<u8> = vec![
            103u8, 101, 116, 95, 112, 117, 98, 108, 105, 99, 95, 107, 101, 121,
        ];
        assert(method@ =~= spec_method_get_public_key());
        match self.rpc_client.call(t, method, args) {
            Ok(v) => {
                match decode_opt_signed_key(&v) {
                    Some(Some(pk)) => {
                        let cached = SignedPublicKey {
                            key: pk.key.clone(),
                            signature: pk.signature.clone(),
                        };
                        public_cache_put(
                            &mut self.public_keys_cache,
                            contract_id.bytes.clone(),
                            cached,
                        );
                        Ok(Some(pk))
                    },
                    Some(None) => Ok(None),
                    None => Err(RpcError::Serialization),
                }
            },
            Err(e) => Err(e),
        }
    }

    /// Replicate the master secret: a plain passthrough that is never
    /// cached.
    pub fn replicate_master_secret(&mut self, t: &mut ScriptTransport) -> (r: Result<
        Option<MasterSecret>,
        RpcError,
    >)
        requires
            old(self).wf(),
            old(self).rpc_client.sendq.items@.len() == 0,
            old(self).rpc_client.next_waiter < u64::MAX,
            old(t).cursor <= old(t).replies@.len(),
            spec_script_wf(*old(t)),
        ensures
            final(self).wf(),
            final(self).runtime_id == old(self).runtime_id,
            final(self).rpc_client.sendq.items@.len() == 0,
            final(self).secret_cache() == old(self).secret_cache(),
            final(self).public_cache() == old(self).public_cache(),
            final(t).replies == old(t).replies,
            final(t).cursor <= final(t).replies@.len(),
            spec_script_wf(*final(t)),
            r matches Ok(m) ==> (m matches Some(s) && final(t).writes.deep_view().last()
                == spec_request_frame(
                old(self).rpc_client.session_id.bytes@,
                SpecRequest { method: spec_method_replicate_master_secret(), args: Seq::empty() },
            )),
            // On a connected session the call is one exact exchange.
            old(self).rpc_client.session.state is Transport ==> spec_warm_secret_call(
                old(self).rpc_client.session_id.bytes@,
                SpecRequest { method: spec_method_replicate_master_secret(), args: Seq::empty() },
                *old(t),
                *final(t),
                r,
            ),
    {
        let method: Vec<u8> = vec![
            114u8, 101, 112, 108, 105, 99, 97, 116, 101, 95, 109, 97, 115, 116, 101, 114, 95, 115,
            101, 99, 114, 101, 116,
        ];
        assert(method@ =~= spec_method_replicate_master_secret());
        let args: Vec<u8> = Vec::new();
        match self.rpc_client.call(t, method, args) {
            Ok(v) => Ok(Some(MasterSecret { bytes: v })),
            Err(e) => Err(e),
        }
    }

    /// Apply a verified policy: push the enclave identities listed in the
    /// policy to the RPC client's session builder as the peer allow-list.
    /// The decode and signature verification of the raw signed policy is
    /// the attestation collaborator's; a failed verification is handed in
    /// as `None`, changes nothing, and fails this operation.
    pub fn set_policy(&mut self, verified_enclaves: Option<Vec<EnclaveId>>) -> (r: Result<
        (),
        KmError,
    >)
        requires
            old(self).wf(),
        ensures
            final(self).wf(),
            final(self).runtime_id == old(self).runtime_id,
            final(self).secret_cache() == old(self).secret_cache(),
            final(self).public_cache() == old(self).public_cache(),
            verified_enclaves is None ==> (r matches Err(e) && e is PolicyVerification && *final(self) == *old(self)),
            verified_enclaves matches Some(es) ==> (r is Ok && final(self).rpc_client.builder.remote_enclaves == Some(es) && final(self).rpc_client.session
                == old(self).rpc_client.session && final(self).rpc_client.sendq == old(self).rpc_client.sendq),
    {
        match verified_enclaves {
            None => Err(KmError::PolicyVerification),
            Some(es) => {
                self.rpc_client.update_enclaves(Some(es));
                Ok(())
            },
        }
    }
}

/// Decode an optional signed public key from a response value: a leading
/// zero byte means absent; a leading one byte is followed by the 32-byte
/// key and the 64-byte signature. Anything else is malformed.
pub fn decode_opt_signed_key(v: &Vec<u8>) -> (r: Option<Option<SignedPublicKey>>)
    ensures
        match r {
            Some(k) => match k {
                Some(pk) => v@.len() == 97 && v@[0] == 1 && pk.key@ == v@.subrange(1, 33)
                    && pk.signature@ == v@.subrange(33, 97),
                None => v@ == seq![0u8],
            },
            None => !(v@ == seq![0u8]) && !(v@.len() == 97 && v@[0] == 1),
        },
{
    if v.len() == 1 && v[0] == 0 {
        assert(v@ =~= seq![0u8]);
        return Some(None);
    }
    if v.len() == 97 && v[0] == 1 {
        let mut key: Vec<u8> = Vec::new();
        let mut i: usize = 1;
        while i < 33
            invariant
                1 <= i <= 33,
                v@.len() == 97,
                key@ == v@.subrange(1, i as int),
            decreases 33 - i,
        {
            key.push(v[i]);
            i = i + 1;
            assert(key@ =~= v@.subrange(1, i as int));
        }
        let mut signature: Vec<u8> = Vec::new();
        let mut j: usize = 33;
        while j < 97
            invariant
                33 <= j <= 97,
                v@.len() == 97,
                signature@ == v@.subrange(33, j as int),
            decreases 97 - j,
        {
            signature.push(v[j]);
            j = j + 1;
            assert(signature@ =~= v@.subrange(33, j as int));
        }
        Some(Some(SignedPublicKey { key, signature }))
    } else {
        if v.len() == 1 {
            assert(v@[0] != 0 ==> !(v@ =~= seq![0u8]));
        }
        None
    }
}

} // verus!
