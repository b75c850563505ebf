//! Deterministic, tagged, self-describing binary encoding for the wire
//! frame and the session-internal messages.
//!
//! A length-delimited byte field is a 4-byte little-endian length followed
//! by the bytes. A message is a tag byte followed by its fields. A frame is
//! a tag byte, the 32-byte session identifier, and the length-delimited
//! payload.
use vstd::prelude::*;

use crate::types::{
    Body, Message, Request, Response, SpecBody, SpecMessage, SpecRequest, SESSION_ID_LEN,
};

verus! {

/// First handshake message, sent by the initiator.
pub const TAG_HANDSHAKE_1: u8 = 1;
/// Second handshake message, sent by the responder.
pub const TAG_HANDSHAKE_2: u8 = 2;
/// Third handshake message, sent by the initiator.
pub const TAG_HANDSHAKE_3: u8 = 3;
/// A request message.
pub const TAG_REQUEST: u8 = 4;
/// A response message with a success body.
pub const TAG_RESPONSE_SUCCESS: u8 = 5;
/// A response message with an error body.
pub const TAG_RESPONSE_ERROR: u8 = 6;
/// A close message.
pub const TAG_CLOSE: u8 = 7;
/// A session-tagged frame.
pub const TAG_FRAME: u8 = 8;

/// Largest byte-field length that the 4-byte length prefix can carry.
pub const MAX_FIELD_LEN: usize = 0xFFFF_FFFF;

/// The 4-byte little-endian encoding of `n`.
pub open spec fn spec_le32(n: nat) -> Seq<u8> {
    seq![
        (n % 256) as u8,
        ((n / 256) % 256) as u8,
        ((n / 65536) % 256) as u8,
        ((n / 16777216) % 256) as u8,
    ]
}

/// The value carried by 4 little-endian bytes.
pub open spec fn spec_dec_le32(s: Seq<u8>) -> int
    recommends
        s.len() == 4,
{
    s[0] + s[1] * 256 + s[2] * 65536 + s[3] * 16777216
}

/// A length-delimited byte field.
pub open spec fn spec_enc_bytes(b: Seq<u8>) -> Seq<u8> {
    spec_le32(b.len()) + b
}

/// Whether a message fits the length prefixes: each field fits, and the
/// whole encoding itself still fits one length-delimited payload.
pub open spec fn msg_encodable(m: SpecMessage) -> bool {
    match m {
        SpecMessage::Request(r) => r.method.len() + r.args.len() + 9 <= MAX_FIELD_LEN,
        SpecMessage::Response(b) => match b {
            SpecBody::Success(v) => v.len() + 5 <= MAX_FIELD_LEN,
            SpecBody::Error(e) => e.len() + 5 <= MAX_FIELD_LEN,
        },
        SpecMessage::Close => true,
    }
}

/// The encoding of a session-internal message.
pub open spec fn spec_enc_message(m: SpecMessage) -> Seq<u8> {
    match m {
        SpecMessage::Request(r) => seq![TAG_REQUEST] + spec_enc_bytes(r.method) + spec_enc_bytes(
            r.args,
        ),
        SpecMessage::Response(b) => match b {
            SpecBody::Success(v) => seq![TAG_RESPONSE_SUCCESS] + spec_enc_bytes(v),
            SpecBody::Error(e) => seq![TAG_RESPONSE_ERROR] + spec_enc_bytes(e),
        },
        SpecMessage::Close => seq![TAG_CLOSE],
    }
}

/// The encoding of a session-tagged frame around an opaque payload.
pub open spec fn spec_enc_frame(session: Seq<u8>, payload: Seq<u8>) -> Seq<u8>
    recommends
        session.len() == SESSION_ID_LEN,
{
    seq![TAG_FRAME] + session + spec_enc_bytes(payload)
}

/// The message, if any, that a byte sequence is the exact encoding of.
pub open spec fn spec_dec_message(s: Seq<u8>) -> Option<SpecMessage> {
    if s.len() == 0 {
        None
    } else if s[0] == TAG_CLOSE {
        if s.len() == 1 {
            Some(SpecMessage::Close)
        } else {
            None
        }
    } else if s[0] == TAG_RESPONSE_SUCCESS || s[0] == TAG_RESPONSE_ERROR {
        if s.len() >= 5 && s.len() - 5 == spec_dec_le32(s.subrange(1, 5)) {
            let v = s.subrange(5, s.len() as int);
            if s[0] == TAG_RESPONSE_SUCCESS {
                Some(SpecMessage::Response(SpecBody::Success(v)))
            } else {
                Some(SpecMessage::Response(SpecBody::Error(v)))
            }
        } else {
            None
        }
    } else if s[0] == TAG_REQUEST {
        if s.len() >= 9 {
            let n1 = spec_dec_le32(s.subrange(1, 5));
            if 0 <= n1 && s.len() - 9 >= n1 && spec_dec_le32(s.subrange(5 + n1, 9 + n1)) == s.len()
                - 9 - n1 {
                let method = s.subrange(5, 5 + n1);
                let args = s.subrange(9 + n1, s.len() as int);
                Some(SpecMessage::Request(SpecRequest { method, args }))
            } else {
                None
            }
        } else {
            None
        }
    } else {
        None
    }
}

/// The view of an optional decoded message.
pub open spec fn opt_message_view(r: Option<Message>) -> Option<SpecMessage> {
    match r {
        Some(m) => Some(m@),
        None => None,
    }
}

/// Round trip of the 4-byte length prefix.
pub proof fn lemma_le32_roundtrip(n: nat)
    requires
        n <= MAX_FIELD_LEN,
    ensures
        spec_le32(n).len() == 4,
        spec_dec_le32(spec_le32(n)) == n,
{
    let b0 = n % 256;
    let b1 = (n / 256) % 256;
    let b2 = (n / 65536) % 256;
    let b3 = (n / 16777216) % 256;
    assert(b0 + b1 * 256 + b2 * 65536 + b3 * 16777216 == n) by (nonlinear_arith)
        requires
            n <= 0xFFFF_FFFF,
            b0 == n % 256,
            b1 == (n / 256) % 256,
            b2 == (n / 65536) % 256,
            b3 == (n / 16777216) % 256,
    ;
}

/// Decoding inverts encoding: every encodable message is recovered exactly
/// from its own encoding.
pub proof fn lemma_message_roundtrip(m: SpecMessage)
    requires
        msg_encodable(m),
    ensures
        spec_dec_message(spec_enc_message(m)) == Some(m),
{
    let s = spec_enc_message(m);
    match m {
        SpecMessage::Close => {
            assert(s =~= seq![TAG_CLOSE]);
        },
        SpecMessage::Response(b) => {
            let v = match b {
                SpecBody::Success(v) => v,
                SpecBody::Error(e) => e,
            };
            lemma_le32_roundtrip(v.len());
            assert(s.subrange(1, 5) =~= spec_le32(v.len()));
            assert(s.subrange(5, s.len() as int) =~= v);
        },
        SpecMessage::Request(r) => {
            let method = r.method;
            let args = r.args;
            let n1 = method.len() as int;
            lemma_le32_roundtrip(method.len());
            lemma_le32_roundtrip(args.len());
            assert(s.len() == 9 + n1 + args.len());
            assert(s.subrange(1, 5) =~= spec_le32(method.len()));
            assert(spec_dec_le32(s.subrange(1, 5)) == n1);
            assert(s.subrange(5 + n1, 9 + n1) =~= spec_le32(args.len()));
            assert(s.subrange(5, 5 + n1) =~= method);
            assert(s.subrange(9 + n1, s.len() as int) =~= args);
        },
    }
}

/// Append the 4-byte little-endian encoding of `n` to `out`.
fn push_le32(out: &mut Vec<u8>, n: usize)
    requires
        n <= MAX_FIELD_LEN,
    ensures
        final(out)@ == old(out)@ + spec_le32(n as nat),
{
    let b0: u8 = (n % 256) as u8;
    let b1: u8 = ((n / 256) % 256) as u8;
    let b2: u8 = ((n / 65536) % 256) as u8;
    let b3: u8 = ((n / 16777216) % 256) as u8;
    out.push(b0);
    out.push(b1);
    out.push(b2);
    out.push(b3);
    assert(out@ =~= old(out)@ + spec_le32(n as nat));
}

/// Append a length-delimited byte field to `out`.
fn push_bytes_field(out: &mut Vec<u8>, b: &Vec<u8>)
    requires
        b@.len() <= MAX_FIELD_LEN,
    ensures
        final(out)@ == old(out)@ + spec_enc_bytes(b@),
{
    push_le32(out, b.len());
    let mut i: usize = 0;
    while i < b.len()
        invariant
            i <= b@.len(),
            b@.len() <= MAX_FIELD_LEN,
            out@ == old(out)@ + spec_le32(b@.len()) + b@.subrange(0, i as int),
        decreases b@.len() - i,
    {
        out.push(b[i]);
        i = i + 1;
        assert(out@ =~= old(out)@ + spec_le32(b@.len()) + b@.subrange(0, i as int));
    }
    assert(b@.subrange(0, b@.len() as int) =~= b@);
    assert(out@ =~= old(out)@ + spec_enc_bytes(b@));
}

/// Copy `v[start..end]` into a fresh vector.
fn copy_range(v: &Vec<u8>, start: usize, end: usize) -> (r: Vec<u8>)
    requires
        start <= end <= v@.len(),
    ensures
        r@ == v@.subrange(start as int, end as int),
{
    let mut r: Vec<u8> = Vec::new();
    let mut i: usize = start;
    while i < end
        invariant
            start <= i <= end <= v@.len(),
            r@ == v@.subrange(start as int, i as int),
        decreases end - i,
    {
        r.push(v[i]);
        i = i + 1;
        assert(r@ =~= v@.subrange(start as int, i as int));
    }
    r
}

/// Encode a session-internal message.
pub fn encode_message(m: &Message) -> (r: Vec<u8>)
    requires
        msg_encodable(m@),
    ensures
        r@ == spec_enc_message(m@),
{
    let mut out: Vec<u8> = Vec::new();
    match m {
        Message::Request(req) => {
            out.push(TAG_REQUEST);
            assert(out@ =~= seq![TAG_REQUEST]);
            push_bytes_field(&mut out, &req.method);
            push_bytes_field(&mut out, &req.args);
            assert(out@ =~= spec_enc_message(m@));
        },
        Message::Response(rsp) => {
            match &rsp.body {
                Body::Success(v) => {
                    out.push(TAG_RESPONSE_SUCCESS);
                    assert(out@ =~= seq![TAG_RESPONSE_SUCCESS]);
                    push_bytes_field(&mut out, v);
                },
                Body::Error(e) => {
                    out.push(TAG_RESPONSE_ERROR);
                    assert(out@ =~= seq![TAG_RESPONSE_ERROR]);
                    push_bytes_field(&mut out, e);
                },
            }
            assert(out@ =~= spec_enc_message(m@));
        },
        Message::Close => {
            out.push(TAG_CLOSE);
            assert(out@ =~= spec_enc_message(m@));
        },
    }
    out
}

/// Encode a session-tagged frame around an opaque payload.
pub fn encode_frame(session: &Vec<u8>, payload: &Vec<u8>) -> (r: Vec<u8>)
    requires
        session@.len() == SESSION_ID_LEN,
        payload@.len() <= MAX_FIELD_LEN,
    ensures
        r@ == spec_enc_frame(session@, payload@),
{
    let mut out: Vec<u8> = Vec::new();
    out.push(TAG_FRAME);
    assert(out@ =~= seq![TAG_FRAME]);
    let mut i: usize = 0;
    while i < session.len()
        invariant
            i <= session@.len(),
            out@ == seq![TAG_FRAME] + session@.subrange(0, i as int),
        decreases session@.len() - i,
    {
        out.push(session[i]);
        i = i + 1;
        assert(out@ =~= seq![TAG_FRAME] + session@.subrange(0, i as int));
    }
    assert(session@.subrange(0, session@.len() as int) =~= session@);
    push_bytes_field(&mut out, payload);
    assert(out@ =~= spec_enc_frame(session@, payload@));
    out
}

/// Read the 4-byte little-endian value at `v[at..at + 4]`.
fn read_le32(v: &Vec<u8>, at: usize) -> (r: usize)
    requires
        at + 4 <= v@.len(),
        v@.len() <= MAX_FIELD_LEN,
    ensures
        r == spec_dec_le32(v@.subrange(at as int, at as int + 4)),
        r <= MAX_FIELD_LEN,
{
    let b0: usize = v[at] as usize;
    let b1: usize = v[at + 1] as usize;
    let b2: usize = v[at + 2] as usize;
    let b3: usize = v[at + 3] as usize;
    b0 + b1 * 256 + b2 * 65536 + b3 * 16777216
}

/// Decode a session-internal message; `None` when the bytes are not the
/// exact encoding of any message.
pub fn decode_message(bytes: &Vec<u8>) -> (r: Option<Message>)
    requires
        bytes@.len() <= MAX_FIELD_LEN,
    ensures
        opt_message_view(r) == spec_dec_message(bytes@),
{
    if bytes.len() == 0 {
        return None;
    }
    let tag = bytes[0];
    if tag == TAG_CLOSE {
        if bytes.len() == 1 {
            Some(Message::Close)
        } else {
            None
        }
    } else if tag == TAG_RESPONSE_SUCCESS || tag == TAG_RESPONSE_ERROR {
        if bytes.len() < 5 {
            return None;
        }
        let n = read_le32(bytes, 1);
        if bytes.len() - 5 != n {
            return None;
        }
        let v = copy_range(bytes, 5, bytes.len());
        if tag == TAG_RESPONSE_SUCCESS {
            Some(Message::Response(Response { body: Body::Success(v) }))
        } else {
            Some(Message::Response(Response { body: Body::Error(v) }))
        }
    } else if tag == TAG_REQUEST {
        if bytes.len() < 9 {
            return None;
        }
        let n1 = read_le32(bytes, 1);
        if bytes.len() - 9 < n1 {
            return None;
        }
        let n2 = read_le32(bytes, 5 + n1);
        if bytes.len() - 9 - n1 != n2 {
            return None;
        }
        let method = copy_range(bytes, 5, 5 + n1);
        let args = copy_range(bytes, 9 + n1, bytes.len());
        Some(Message::Request(Request { method, args }))
    } else {
        None
    }
}

} // verus!
