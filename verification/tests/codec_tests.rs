use enclave_rpc::{decode_message, encode_frame, encode_message, Body, Message, Request, Response};

fn le32(n: usize) -> Vec<u8> {
    vec![
        (n % 256) as u8,
        ((n / 256) % 256) as u8,
        ((n / 65536) % 256) as u8,
        ((n / 16777216) % 256) as u8,
    ]
}

#[test]
fn close_message_encodes_to_single_tag() {
    let bytes = encode_message(&Message::Close);
    assert_eq!(bytes, vec![7u8]);
}

#[test]
fn request_message_encodes_tag_and_fields() {
    let msg = Message::Request(Request {
        method: b"echo".to_vec(),
        args: vec![42],
    });
    let bytes = encode_message(&msg);
    let mut expected = vec![4u8];
    expected.extend(le32(4));
    expected.extend(b"echo".to_vec());
    expected.extend(le32(1));
    expected.push(42);
    assert_eq!(bytes, expected);
}

#[test]
fn success_response_round_trips() {
    let msg = Message::Response(Response {
        body: Body::Success(vec![1, 2, 3]),
    });
    let bytes = encode_message(&msg);
    assert_eq!(bytes[0], 5);
    match decode_message(&bytes) {
        Some(Message::Response(Response {
            body: Body::Success(v),
        })) => assert_eq!(v, vec![1, 2, 3]),
        _ => panic!("expected a success response"),
    }
}

#[test]
fn error_response_round_trips() {
    let msg = Message::Response(Response {
        body: Body::Error(b"boom".to_vec()),
    });
    let bytes = encode_message(&msg);
    assert_eq!(bytes[0], 6);
    match decode_message(&bytes) {
        Some(Message::Response(Response {
            body: Body::Error(e),
        })) => assert_eq!(e, b"boom".to_vec()),
        _ => panic!("expected an error response"),
    }
}

#[test]
fn request_round_trips() {
    let msg = Message::Request(Request {
        method: b"get_or_create_keys".to_vec(),
        args: vec![9; 64],
    });
    let bytes = encode_message(&msg);
    match decode_message(&bytes) {
        Some(Message::Request(r)) => {
            assert_eq!(r.method, b"get_or_create_keys".to_vec());
            assert_eq!(r.args, vec![9; 64]);
        }
        _ => panic!("expected a request"),
    }
}

#[test]
fn truncated_bytes_do_not_decode() {
    let msg = Message::Response(Response {
        body: Body::Success(vec![1, 2, 3]),
    });
    let mut bytes = encode_message(&msg);
    bytes.pop();
    assert!(decode_message(&bytes).is_none());
    assert!(decode_message(&Vec::new()).is_none());
    assert!(decode_message(&vec![99u8]).is_none());
}

#[test]
fn frame_carries_tag_session_and_payload() {
    let sid = vec![7u8; 32];
    let payload = vec![1u8, 2, 3];
    let frame = encode_frame(&sid, &payload);
    let mut expected = vec![8u8];
    expected.extend(sid);
    expected.extend(le32(3));
    expected.extend(vec![1u8, 2, 3]);
    assert_eq!(frame, expected);
}
