use static_render::protocol::{
    decode_incoming, decode_outgoing, encode_headers_frame, encode_incoming, encode_outgoing,
    Header, IncomingMessage, OutgoingMessage, RenderData,
};

fn sample_data() -> RenderData {
    RenderData {
        method: b"GET".to_vec(),
        path: b"/index".to_vec(),
        headers: vec![
            Header { name: b"accept".to_vec(), value: b"text/html".to_vec() },
            Header { name: b"x-empty".to_vec(), value: b"".to_vec() },
        ],
    }
}

#[test]
fn headers_round_trip() {
    let frame = encode_headers_frame(&sample_data());
    match decode_outgoing(&frame) {
        Some(OutgoingMessage::Headers(d)) => {
            assert_eq!(d.method, b"GET".to_vec());
            assert_eq!(d.path, b"/index".to_vec());
            assert_eq!(d.headers.len(), 2);
            assert_eq!(d.headers[0].name, b"accept".to_vec());
            assert_eq!(d.headers[0].value, b"text/html".to_vec());
            assert_eq!(d.headers[1].name, b"x-empty".to_vec());
            assert_eq!(d.headers[1].value, b"".to_vec());
        },
        None => panic!("frame did not decode"),
    }
}

#[test]
fn headers_round_trip_no_headers() {
    let data = RenderData { method: b"".to_vec(), path: b"".to_vec(), headers: vec![] };
    let frame = encode_outgoing(&OutgoingMessage::Headers(data));
    match decode_outgoing(&frame) {
        Some(OutgoingMessage::Headers(d)) => {
            assert!(d.method.is_empty());
            assert!(d.path.is_empty());
            assert!(d.headers.is_empty());
        },
        None => panic!("frame did not decode"),
    }
}

#[test]
fn response_round_trip() {
    let m = IncomingMessage::Response {
        status_code: 200,
        content_type: b"text/html".to_vec(),
        body: b"<p>hi</p>\x00\xff arbitrary bytes".to_vec(),
    };
    let frame = encode_incoming(&m);
    match decode_incoming(&frame) {
        Some(IncomingMessage::Response { status_code, content_type, body }) => {
            assert_eq!(status_code, 200);
            assert_eq!(content_type, b"text/html".to_vec());
            assert_eq!(body, b"<p>hi</p>\x00\xff arbitrary bytes".to_vec());
        },
        _ => panic!("frame did not decode as a response"),
    }
}

#[test]
fn error_round_trip() {
    let m = IncomingMessage::Error(b"ReferenceError: x is not defined".to_vec());
    let frame = encode_incoming(&m);
    match decode_incoming(&frame) {
        Some(IncomingMessage::Error(text)) => {
            assert_eq!(text, b"ReferenceError: x is not defined".to_vec());
        },
        _ => panic!("frame did not decode as an error"),
    }
}

#[test]
fn unknown_tag_is_refused() {
    let frame = vec![1u8, 9u8, 0, 0, 0, 0, 0, 0, 0, 0];
    assert!(decode_incoming(&frame).is_none());
    assert!(decode_outgoing(&frame).is_none());
}

#[test]
fn wrong_version_is_refused() {
    let m = IncomingMessage::Error(b"x".to_vec());
    let mut frame = encode_incoming(&m);
    frame[0] = 2;
    assert!(decode_incoming(&frame).is_none());
}

#[test]
fn truncated_frame_is_refused() {
    let m = IncomingMessage::Error(b"some error text".to_vec());
    let mut frame = encode_incoming(&m);
    frame.pop();
    assert!(decode_incoming(&frame).is_none());
}

#[test]
fn trailing_bytes_are_refused() {
    let m = IncomingMessage::Error(b"some error text".to_vec());
    let mut frame = encode_incoming(&m);
    frame.push(0);
    assert!(decode_incoming(&frame).is_none());
}

#[test]
fn empty_frame_is_refused() {
    assert!(decode_incoming(&Vec::new()).is_none());
    assert!(decode_outgoing(&Vec::new()).is_none());
}

#[test]
fn wire_layout_is_stable() {
    // version, tag, little-endian status, length-prefixed fields.
    let m = IncomingMessage::Response {
        status_code: 513,
        content_type: b"a/b".to_vec(),
        body: b"xy".to_vec(),
    };
    let frame = encode_incoming(&m);
    let mut expected: Vec<u8> = vec![1, 1, 1, 2];
    expected.extend_from_slice(&[3, 0, 0, 0, 0, 0, 0, 0]);
    expected.extend_from_slice(b"a/b");
    expected.extend_from_slice(&[2, 0, 0, 0, 0, 0, 0, 0]);
    expected.extend_from_slice(b"xy");
    assert_eq!(frame, expected);
}
