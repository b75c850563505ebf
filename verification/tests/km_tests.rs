use enclave_rpc::{
    Builder, ContractId, EnclaveId, KmError, RemoteClient, RpcClient, RuntimeId,
    ScriptTransport, SessionId, TransportReply,
};

fn le32(n: usize) -> Vec<u8> {
    vec![
        (n % 256) as u8,
        ((n / 256) % 256) as u8,
        ((n / 65536) % 256) as u8,
        ((n / 16777216) % 256) as u8,
    ]
}

fn success_reply(value: &[u8]) -> TransportReply {
    let mut p = vec![5u8];
    p.extend(le32(value.len()));
    p.extend_from_slice(value);
    TransportReply::Reply(p)
}

fn new_km_client() -> RemoteClient {
    let rpc = RpcClient::new(Builder::new(), SessionId::new(vec![5u8; 32]));
    RemoteClient::new(RuntimeId { bytes: vec![1u8; 32] }, rpc, 4)
}

#[test]
fn cached_hit_issues_exactly_one_rpc() {
    let mut km = new_km_client();
    let mut t = ScriptTransport::new(vec![
        TransportReply::Reply(vec![2]),
        TransportReply::Reply(vec![0]),
        success_reply(&[11, 22, 33]),
    ]);
    let cid = ContractId { bytes: vec![3u8; 32] };
    let first = km.get_or_create_keys(&mut t, &cid).unwrap();
    assert_eq!(first.bytes, vec![11, 22, 33]);
    assert_eq!(t.writes.len(), 3);
    // The second call is served from the cache: no further write.
    let second = km.get_or_create_keys(&mut t, &cid).unwrap();
    assert_eq!(second.bytes, vec![11, 22, 33]);
    assert_eq!(t.writes.len(), 3);
}

#[test]
fn keyed_request_carries_runtime_and_contract_ids() {
    let mut km = new_km_client();
    let mut t = ScriptTransport::new(vec![
        TransportReply::Reply(vec![2]),
        TransportReply::Reply(vec![0]),
        success_reply(&[1]),
    ]);
    let cid = ContractId { bytes: vec![3u8; 32] };
    km.get_or_create_keys(&mut t, &cid).unwrap();
    // The request frame holds the method name and the 64 identifier bytes.
    let request_frame = &t.writes[2];
    let method = b"get_or_create_keys";
    let mut payload = vec![4u8];
    payload.extend(le32(method.len()));
    payload.extend_from_slice(method);
    payload.extend(le32(64));
    payload.extend(vec![1u8; 32]);
    payload.extend(vec![3u8; 32]);
    let mut expected = vec![8u8];
    expected.extend(vec![5u8; 32]);
    expected.extend(le32(payload.len()));
    expected.extend(payload);
    assert_eq!(request_frame, &expected);
}

#[test]
fn cache_miss_after_clear_issues_second_rpc() {
    let mut km = new_km_client();
    let mut t = ScriptTransport::new(vec![
        TransportReply::Reply(vec![2]),
        TransportReply::Reply(vec![0]),
        success_reply(&[1, 2]),
        success_reply(&[1, 2]),
    ]);
    let cid = ContractId { bytes: vec![3u8; 32] };
    km.get_or_create_keys(&mut t, &cid).unwrap();
    km.get_or_create_keys(&mut t, &cid).unwrap();
    assert_eq!(t.writes.len(), 3);
    km.clear_cache();
    let third = km.get_or_create_keys(&mut t, &cid).unwrap();
    assert_eq!(third.bytes, vec![1, 2]);
    assert_eq!(t.writes.len(), 4);
}

#[test]
fn negative_public_key_lookup_is_not_cached() {
    let mut km = new_km_client();
    let mut t = ScriptTransport::new(vec![
        TransportReply::Reply(vec![2]),
        TransportReply::Reply(vec![0]),
        success_reply(&[0]),
        success_reply(&[0]),
    ]);
    let cid = ContractId { bytes: vec![3u8; 32] };
    let first = km.get_public_key(&mut t, &cid).unwrap();
    assert!(first.is_none());
    assert_eq!(t.writes.len(), 3);
    // The absent result was not cached: the next call queries again.
    let second = km.get_public_key(&mut t, &cid).unwrap();
    assert!(second.is_none());
    assert_eq!(t.writes.len(), 4);
}

#[test]
fn present_public_key_is_cached() {
    let mut km = new_km_client();
    let mut value = vec![1u8];
    value.extend(vec![8u8; 32]);
    value.extend(vec![9u8; 64]);
    let mut t = ScriptTransport::new(vec![
        TransportReply::Reply(vec![2]),
        TransportReply::Reply(vec![0]),
        success_reply(&value),
    ]);
    let cid = ContractId { bytes: vec![3u8; 32] };
    let first = km.get_public_key(&mut t, &cid).unwrap().unwrap();
    assert_eq!(first.key, vec![8u8; 32]);
    assert_eq!(first.signature, vec![9u8; 64]);
    assert_eq!(t.writes.len(), 3);
    let second = km.get_public_key(&mut t, &cid).unwrap().unwrap();
    assert_eq!(second.key, vec![8u8; 32]);
    assert_eq!(t.writes.len(), 3);
}

#[test]
fn malformed_public_key_value_is_a_serialization_error() {
    let mut km = new_km_client();
    let mut t = ScriptTransport::new(vec![
        TransportReply::Reply(vec![2]),
        TransportReply::Reply(vec![0]),
        success_reply(&[1, 2, 3]),
    ]);
    let cid = ContractId { bytes: vec![3u8; 32] };
    let r = km.get_public_key(&mut t, &cid);
    assert!(matches!(r, Err(enclave_rpc::RpcError::Serialization)));
}

#[test]
fn failed_rpc_populates_nothing() {
    let mut km = new_km_client();
    let mut t = ScriptTransport::new(vec![
        TransportReply::Failure,
        TransportReply::Reply(vec![2]),
        TransportReply::Reply(vec![0]),
        success_reply(&[4]),
    ]);
    let cid = ContractId { bytes: vec![3u8; 32] };
    assert!(km.get_or_create_keys(&mut t, &cid).is_err());
    // Nothing was cached: the retry reaches the remote.
    let retry = km.get_or_create_keys(&mut t, &cid).unwrap();
    assert_eq!(retry.bytes, vec![4]);
    assert_eq!(t.writes.len(), 4);
}

#[test]
fn replicate_master_secret_is_a_passthrough() {
    let mut km = new_km_client();
    let mut t = ScriptTransport::new(vec![
        TransportReply::Reply(vec![2]),
        TransportReply::Reply(vec![0]),
        success_reply(&[13, 14]),
    ]);
    let secret = km.replicate_master_secret(&mut t).unwrap().unwrap();
    assert_eq!(secret.bytes, vec![13, 14]);
}

#[test]
fn set_policy_updates_the_enclave_allow_list() {
    let mut km = new_km_client();
    let enclave = EnclaveId {
        mr_enclave: vec![1u8; 32],
        mr_signer: vec![2u8; 32],
    };
    assert!(km.set_policy(Some(vec![enclave])).is_ok());
    match &km.rpc_client.builder.remote_enclaves {
        Some(es) => {
            assert_eq!(es.len(), 1);
            assert_eq!(es[0].mr_enclave, vec![1u8; 32]);
            assert_eq!(es[0].mr_signer, vec![2u8; 32]);
        }
        None => panic!("the allow-list was not set"),
    }
}

#[test]
fn runtime_constructor_wires_the_session_builder() {
    let enclave = EnclaveId {
        mr_enclave: vec![4u8; 32],
        mr_signer: vec![5u8; 32],
    };
    let km = RemoteClient::new_runtime_with_enclave_identities(
        RuntimeId { bytes: vec![1u8; 32] },
        Some(vec![enclave]),
        true,
        SessionId::new(vec![6u8; 32]),
        4,
    );
    assert!(km.rpc_client.builder.use_local_rak);
    match &km.rpc_client.builder.remote_enclaves {
        Some(es) => assert_eq!(es[0].mr_enclave, vec![4u8; 32]),
        None => panic!("the allow-list was not set"),
    }
    assert!(!km.rpc_client.has_controller);
}

#[test]
fn failed_policy_verification_changes_nothing() {
    let mut km = new_km_client();
    let r = km.set_policy(None);
    assert!(matches!(r, Err(KmError::PolicyVerification)));
    assert!(km.rpc_client.builder.remote_enclaves.is_none());
}
