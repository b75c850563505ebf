use enclave_rpc::{
    Builder, RpcClient, RpcError, ScriptTransport, SessionId, TransportReply,
};

fn le32(n: usize) -> Vec<u8> {
    vec![
        (n % 256) as u8,
        ((n / 256) % 256) as u8,
        ((n / 65536) % 256) as u8,
        ((n / 16777216) % 256) as u8,
    ]
}

fn frame(sid: &[u8], payload: &[u8]) -> Vec<u8> {
    let mut f = vec![8u8];
    f.extend_from_slice(sid);
    f.extend(le32(payload.len()));
    f.extend_from_slice(payload);
    f
}

fn request_payload(method: &[u8], args: &[u8]) -> Vec<u8> {
    let mut p = vec![4u8];
    p.extend(le32(method.len()));
    p.extend_from_slice(method);
    p.extend(le32(args.len()));
    p.extend_from_slice(args);
    p
}

fn success_reply(value: &[u8]) -> TransportReply {
    let mut p = vec![5u8];
    p.extend(le32(value.len()));
    p.extend_from_slice(value);
    TransportReply::Reply(p)
}

fn error_reply(text: &[u8]) -> TransportReply {
    let mut p = vec![6u8];
    p.extend(le32(text.len()));
    p.extend_from_slice(text);
    TransportReply::Reply(p)
}

fn new_client() -> RpcClient {
    RpcClient::new(Builder::new(), SessionId::new(vec![9u8; 32]))
}

#[test]
fn happy_call_handshakes_then_exchanges() {
    let mut client = new_client();
    let mut t = ScriptTransport::new(vec![
        TransportReply::Reply(vec![2]),
        TransportReply::Reply(vec![0]),
        success_reply(&[42]),
    ]);
    let r = client.call(&mut t, b"echo".to_vec(), vec![42]);
    assert_eq!(r.unwrap(), vec![42]);
    // The handshake frames are written strictly before the call's frame.
    let sid = vec![9u8; 32];
    assert_eq!(t.writes.len(), 3);
    assert_eq!(t.writes[0], frame(&sid, &[1]));
    assert_eq!(t.writes[1], frame(&sid, &[3]));
    assert_eq!(t.writes[2], frame(&sid, &request_payload(b"echo", &[42])));
}

#[test]
fn second_call_reuses_the_session() {
    let mut client = new_client();
    let mut t = ScriptTransport::new(vec![
        TransportReply::Reply(vec![2]),
        TransportReply::Reply(vec![0]),
        success_reply(&[1]),
        success_reply(&[2]),
    ]);
    assert_eq!(client.call(&mut t, b"a".to_vec(), vec![]).unwrap(), vec![1]);
    assert_eq!(client.call(&mut t, b"b".to_vec(), vec![]).unwrap(), vec![2]);
    // One handshake, two request frames: no second handshake happened.
    assert_eq!(t.writes.len(), 4);
}

#[test]
fn handshake_failure_self_heals() {
    let mut client = new_client();
    let mut t = ScriptTransport::new(vec![
        TransportReply::Failure,
        TransportReply::Reply(vec![2]),
        TransportReply::Reply(vec![0]),
        success_reply(&[7]),
    ]);
    let first = client.call(&mut t, b"m".to_vec(), vec![]);
    assert!(matches!(first, Err(RpcError::Transport)));
    assert_eq!(t.writes.len(), 1);
    // The session was reset: the next call runs a full fresh handshake.
    let second = client.call(&mut t, b"m".to_vec(), vec![]);
    assert_eq!(second.unwrap(), vec![7]);
    assert_eq!(t.writes.len(), 4);
    let sid = vec![9u8; 32];
    assert_eq!(t.writes[1], frame(&sid, &[1]));
    assert_eq!(t.writes[2], frame(&sid, &[3]));
}

#[test]
fn remote_error_body_fails_the_call() {
    let mut client = new_client();
    let mut t = ScriptTransport::new(vec![
        TransportReply::Reply(vec![2]),
        TransportReply::Reply(vec![0]),
        error_reply(b"nope"),
    ]);
    let r = client.call(&mut t, b"m".to_vec(), vec![]);
    match r {
        Err(RpcError::CallFailed(text)) => assert_eq!(text, b"nope".to_vec()),
        _ => panic!("expected the remote error text"),
    }
}

#[test]
fn unexpected_message_poisons_and_resets() {
    let mut client = new_client();
    let mut t = ScriptTransport::new(vec![
        TransportReply::Reply(vec![2]),
        TransportReply::Reply(vec![0]),
        TransportReply::Reply(vec![7]),
        TransportReply::Reply(vec![2]),
        TransportReply::Reply(vec![0]),
        success_reply(&[1]),
    ]);
    let r = client.call(&mut t, b"m".to_vec(), vec![]);
    assert!(matches!(r, Err(RpcError::ExpectedResponseMessage)));
    // The session was reset: the next call handshakes afresh.
    let r2 = client.call(&mut t, b"m".to_vec(), vec![]);
    assert_eq!(r2.unwrap(), vec![1]);
    assert_eq!(t.writes.len(), 6);
}

#[test]
fn controller_spawns_exactly_once() {
    let mut client = new_client();
    assert!(client.ensure_controller());
    assert!(!client.ensure_controller());
    assert!(!client.ensure_controller());
}

#[test]
fn backpressure_at_capacity_ten() {
    let mut client = new_client();
    let mut tokens = Vec::new();
    for i in 0..10u8 {
        let token = client.execute_call(enclave_rpc::Request {
            method: b"m".to_vec(),
            args: vec![i],
        });
        tokens.push(token.expect("the queue accepts ten"));
    }
    // The eleventh enqueue is suspended until the controller drains one.
    let eleventh = client.execute_call(enclave_rpc::Request {
        method: b"m".to_vec(),
        args: vec![10],
    });
    assert!(eleventh.is_none());
    let mut replies = vec![TransportReply::Reply(vec![2]), TransportReply::Reply(vec![0])];
    for i in 0..10u8 {
        replies.push(success_reply(&[i]));
    }
    let mut t = ScriptTransport::new(replies);
    let out = client.dispatch_pending(&mut t);
    assert_eq!(out.len(), 10);
    let retried = client.execute_call(enclave_rpc::Request {
        method: b"m".to_vec(),
        args: vec![10],
    });
    assert!(retried.is_some());
}

#[test]
fn dispatch_preserves_fifo_order_and_matches_waiters() {
    let mut client = new_client();
    let mut tokens = Vec::new();
    for i in 0..3u8 {
        let token = client
            .execute_call(enclave_rpc::Request {
                method: vec![100 + i],
                args: vec![i],
            })
            .unwrap();
        tokens.push(token);
    }
    let mut t = ScriptTransport::new(vec![
        TransportReply::Reply(vec![2]),
        TransportReply::Reply(vec![0]),
        success_reply(&[10]),
        success_reply(&[11]),
        success_reply(&[12]),
    ]);
    let out = client.dispatch_pending(&mut t);
    assert_eq!(out.len(), 3);
    let sid = vec![9u8; 32];
    // Earlier-enqueued payloads are observed by the transport first.
    for i in 0..3u8 {
        assert_eq!(
            t.writes[2 + i as usize],
            frame(&sid, &request_payload(&[100 + i], &[i]))
        );
        assert_eq!(out[i as usize].waiter, tokens[i as usize]);
        match &out[i as usize].result {
            Ok(rsp) => match &rsp.body {
                enclave_rpc::Body::Success(v) => assert_eq!(v, &vec![10 + i]),
                _ => panic!("expected a success body"),
            },
            _ => panic!("expected a response"),
        }
    }
}

#[test]
fn close_rejects_a_non_close_reply() {
    let mut client = new_client();
    let mut t = ScriptTransport::new(vec![
        TransportReply::Reply(vec![2]),
        TransportReply::Reply(vec![0]),
        success_reply(&[1]),
        success_reply(&[2]),
    ]);
    client.call(&mut t, b"m".to_vec(), vec![]).unwrap();
    let r = client.close(&mut t);
    assert!(matches!(r, Err(RpcError::ExpectedCloseMessage)));
}

#[test]
fn close_requires_a_connected_session() {
    let mut client = new_client();
    let mut t = ScriptTransport::new(Vec::new());
    let r = client.close(&mut t);
    assert!(matches!(r, Err(RpcError::SessionInvalidState)));
    assert_eq!(t.writes.len(), 0);
}

#[test]
fn close_exchanges_close_messages() {
    let mut client = new_client();
    let mut t = ScriptTransport::new(vec![
        TransportReply::Reply(vec![2]),
        TransportReply::Reply(vec![0]),
        success_reply(&[1]),
        TransportReply::Reply(vec![7]),
    ]);
    client.call(&mut t, b"m".to_vec(), vec![]).unwrap();
    assert!(client.close(&mut t).is_ok());
    let sid = vec![9u8; 32];
    assert_eq!(t.writes[3], frame(&sid, &[7]));
}
