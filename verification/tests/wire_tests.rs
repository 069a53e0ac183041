use contained::container::{parse_bind, serialize_bind, Bind};
use contained::engine::{classify_attach, interpret_create, interpret_start, interpret_wait,
    validate_json_body, attach_request, create_request, start_request, wait_request,
    remove_request};
use contained::error::DockerError;
use contained::frame::{demux_buffer, parse_frame_header, StreamType};
use contained::http::{parse_response, ParseStep, ResponseReader};

#[test]
fn bind_round_trip_no_options() {
    let b = Bind::new("/opt", "/opt", Vec::new());
    let s = serialize_bind(&b);
    assert_eq!(s, b"/opt:/opt".to_vec());
    let (h, d, o) = parse_bind(&s).unwrap();
    assert_eq!(h, b"/opt".to_vec());
    assert_eq!(d, b"/opt".to_vec());
    assert!(o.is_empty());
}

#[test]
fn bind_round_trip_options() {
    let b = Bind::new("/a", "/b", vec!["rw".to_string(), "exec".to_string()]);
    let s = serialize_bind(&b);
    assert_eq!(s, b"/a:/b:rw,exec".to_vec());
    let (h, d, o) = parse_bind(&s).unwrap();
    assert_eq!(h, b"/a".to_vec());
    assert_eq!(d, b"/b".to_vec());
    assert_eq!(o, vec![b"rw".to_vec(), b"exec".to_vec()]);
}

#[test]
fn request_serialization() {
    let body = b"{\"x\":1}".to_vec();
    let req = create_request(&body);
    let expected = "POST /containers/create HTTP/1.1\r\nHost: localhost\r\nContent-Type: application/json\r\nContent-Length: 7\r\nAccept: application/json\r\n\r\n{\"x\":1}";
    assert_eq!(String::from_utf8(req).unwrap(), expected);

    let req = start_request("abc");
    assert_eq!(
        String::from_utf8(req).unwrap(),
        "POST /containers/abc/start HTTP/1.1\r\nHost: localhost\r\nAccept: application/json\r\n\r\n"
    );
    let req = wait_request("abc");
    assert!(String::from_utf8(req).unwrap().starts_with(
        "POST /containers/abc/wait?condition=next-exit HTTP/1.1\r\n"
    ));
    let req = remove_request("abc");
    assert!(String::from_utf8(req).unwrap().starts_with("DELETE /containers/abc HTTP/1.1\r\n"));
    let req = attach_request("abc");
    let text = String::from_utf8(req).unwrap();
    assert!(text.starts_with(
        "POST /containers/abc/attach?stream=true&stdin=true&stdout=true&stderr=true HTTP/1.1\r\n"
    ));
    assert!(text.contains("Upgrade: tcp\r\nConnection: Upgrade\r\n"));
}

#[test]
fn content_length_response() {
    let raw = b"HTTP/1.1 201 Created\r\nContent-Type: application/json\r\nContent-Length: 12\r\n\r\n{\"Id\":\"abc\"}";
    match parse_response(raw) {
        ParseStep::Complete(resp) => {
            assert_eq!(resp.code, 201);
            assert_eq!(resp.body.as_deref(), Some(&b"{\"Id\":\"abc\"}"[..]));
            assert_eq!(resp.content_type.as_deref(), Some(&b"application/json"[..]));
        },
        _ => panic!("expected a complete response"),
    }
}

#[test]
fn chunked_response_reconstructed_across_splits() {
    let payload = b"{\"Id\":\"abcdef\"}";
    let raw = format!(
        "HTTP/1.1 200 OK\r\nContent-Type: application/json\r\nTransfer-Encoding: chunked\r\n\r\n{:x}\r\n{}",
        payload.len(),
        String::from_utf8(payload.to_vec()).unwrap()
    );
    let raw = raw.as_bytes();
    // every two-part split
    for cut in 0..=raw.len() {
        let mut reader = ResponseReader::new();
        let first = reader.feed(&raw[..cut]);
        if cut < raw.len() {
            assert!(!matches!(first, ParseStep::Failed(_)));
        }
        match reader.feed(&raw[cut..]) {
            ParseStep::Complete(resp) => {
                assert_eq!(resp.code, 200);
                assert_eq!(resp.body.as_deref(), Some(&payload[..]));
            },
            _ => panic!("expected a complete response at cut {}", cut),
        }
    }
    // pathological single-byte reads
    let mut reader = ResponseReader::new();
    let mut last = ParseStep::Incomplete;
    for b in raw {
        last = reader.feed(std::slice::from_ref(b));
    }
    match last {
        ParseStep::Complete(resp) => assert_eq!(resp.body.as_deref(), Some(&payload[..])),
        _ => panic!("expected a complete response from single-byte reads"),
    }
}

#[test]
fn malformed_framing_fails_loudly() {
    assert!(matches!(
        parse_response(b"HTTP/2 200\r\n\r\n"),
        ParseStep::Failed(DockerError::HttpError(_))
    ));
    assert!(matches!(
        parse_response(b"HTTP/1.1 200 OK\r\nContent-Length: zzz\r\n\r\n"),
        ParseStep::Failed(DockerError::HttpError(_))
    ));
    assert!(matches!(
        parse_response(b"HTTP/1.1 200 OK\r\nTransfer-Encoding: chunked\r\n\r\nzz\r\nhello"),
        ParseStep::Failed(DockerError::HttpError(_))
    ));
    assert!(matches!(parse_response(b"HTTP/1.1 200"), ParseStep::Incomplete));
}

#[test]
fn multiplex_frames_routed_in_order() {
    let mut raw: Vec<u8> = Vec::new();
    raw.extend_from_slice(&[1, 0, 0, 0, 0, 0, 0, 5]);
    raw.extend_from_slice(b"hello");
    raw.extend_from_slice(&[2, 0, 0, 0, 0, 0, 0, 3]);
    raw.extend_from_slice(b"err");
    raw.extend_from_slice(&[1, 0, 0, 0, 0, 0, 0, 1]);
    raw.extend_from_slice(b"!");
    let frames = demux_buffer(&raw).unwrap();
    assert_eq!(frames.len(), 3);
    assert_eq!(frames[0].stream, StreamType::Stdout);
    assert_eq!(frames[0].data, b"hello".to_vec());
    assert_eq!(frames[1].stream, StreamType::Stderr);
    assert_eq!(frames[1].data, b"err".to_vec());
    assert_eq!(frames[2].stream, StreamType::Stdout);
    assert_eq!(frames[2].data, b"!".to_vec());
}

#[test]
fn multiplex_bad_selector_and_truncation() {
    assert!(matches!(
        demux_buffer(&[7, 0, 0, 0, 0, 0, 0, 0]),
        Err(DockerError::InvalidStream(7))
    ));
    assert!(matches!(
        demux_buffer(&[1, 0, 0, 0, 0, 0, 0, 9, 104, 105]),
        Err(DockerError::NetworkError(_))
    ));
    // a stream that ends inside a header looks like a closed connection
    assert!(demux_buffer(&[1, 0, 0]).unwrap().is_empty());
    let (t, n) = parse_frame_header(&[0, 0, 0, 0, 0, 1, 2, 3]).unwrap();
    assert_eq!(t, StreamType::Stdin);
    assert_eq!(n, 0x010203);
}

#[test]
fn wait_status_codes() {
    let body = b"{\"StatusCode\": 137}".to_vec();
    assert_eq!(interpret_wait(200, Some(&body)).unwrap(), 137);
    let body = b"{\"StatusCode\": 256}".to_vec();
    match interpret_wait(200, Some(&body)) {
        Err(DockerError::InvalidResponse(200, m)) => {
            assert_eq!(m, "container status code >255: 256");
        },
        other => panic!("expected an invalid-response failure, got {:?}", other),
    }
    let body = b"{\"message\": \"gone\"}".to_vec();
    match interpret_wait(404, Some(&body)) {
        Err(DockerError::ErrorResponse(404, m)) => assert_eq!(m, "gone"),
        other => panic!("expected an engine error, got {:?}", other),
    }
}

#[test]
fn create_interpretation() {
    let body = b"{\"Id\":\"abc\"}".to_vec();
    assert_eq!(interpret_create(201, Some(&body)).unwrap(), "abc");
    let body = b"{\"NotId\":\"abc\"}".to_vec();
    assert!(matches!(
        interpret_create(201, Some(&body)),
        Err(DockerError::InvalidResponse(201, _))
    ));
    let body = b"{}".to_vec();
    match interpret_create(500, Some(&body)) {
        Err(DockerError::ErrorResponse(500, m)) => {
            assert_eq!(m, "Container creation failed");
        },
        other => panic!("expected an engine error, got {:?}", other),
    }
    assert!(matches!(
        interpret_create(201, None),
        Err(DockerError::InvalidResponse(201, _))
    ));
    assert!(interpret_start(204, None).is_ok());
    assert!(interpret_start(500, None).is_err());
}

#[test]
fn body_validation() {
    let ct = b"application/json".to_vec();
    let ok = validate_json_body(200, Some(&ct), Some(b"{\"a\":1}".to_vec()));
    assert_eq!(ok.unwrap().unwrap(), b"{\"a\":1}".to_vec());
    assert!(matches!(
        validate_json_body(200, Some(&ct), Some(b"not json".to_vec())),
        Err(DockerError::InvalidJson(200, _))
    ));
    let html = b"text/html".to_vec();
    assert!(matches!(
        validate_json_body(200, Some(&html), Some(b"<p>".to_vec())),
        Err(DockerError::InvalidResponse(200, _))
    ));
    assert!(validate_json_body(200, None, None).unwrap().is_none());
}

#[test]
fn attach_classification() {
    let reason = Vec::new();
    let mult = b"application/vnd.docker.multiplexed-stream".to_vec();
    let raw = b"application/vnd.docker.raw-stream".to_vec();
    let html = b"text/html".to_vec();
    assert_eq!(classify_attach(101, &reason, Some(&mult)).unwrap(), true);
    assert_eq!(classify_attach(101, &reason, Some(&raw)).unwrap(), false);
    match classify_attach(101, &reason, Some(&html)) {
        Err(DockerError::InvalidResponse(101, m)) => {
            assert_eq!(m, "Unrecognized content-type from attach: text/html");
        },
        other => panic!("expected a protocol failure, got {:?}", other),
    }
    assert!(matches!(
        classify_attach(200, &reason, Some(&mult)),
        Err(DockerError::InvalidResponse(200, _))
    ));
}

#[test]
fn error_messages() {
    assert_eq!(
        DockerError::ErrorResponse(500, "boom".to_string()).message(),
        "Error from docker daemon: [500] boom"
    );
    assert_eq!(DockerError::InvalidStream(9).message(), "Invalid stream: 9");
}
