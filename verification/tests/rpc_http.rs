use std::io::Read;
use tensor_vm::error::TvmError;
use tensor_vm::hash::hex;
use tensor_vm::rpc::http::{
    http_read_step, parse_http_request_line, split_path_and_auth_token, try_parse_http_request,
    HttpRequestLineError, ParsedHttpRequest,
};
use tensor_vm::rpc::parse::{parse_address, parse_hash};
use tensor_vm::types::hash_bytes;

/// Reads a request the way the server does: in chunks of 1024 bytes,
/// deciding after each chunk, and refusing a peer that stops early.
fn read_http_request_from<R: Read>(
    reader: &mut R,
    max_body_bytes: usize,
) -> std::io::Result<ParsedHttpRequest> {
    let mut bytes = Vec::new();
    let mut buf = [0_u8; 1024];
    loop {
        let read = reader.read(&mut buf)?;
        if read == 0 {
            return Ok(ParsedHttpRequest::BadRequest);
        }
        bytes.extend_from_slice(&buf[..read]);
        if let Some(parsed) = http_read_step(&bytes, max_body_bytes) {
            return Ok(parsed);
        }
    }
}

#[test]
fn rpc_http_reader_handles_in_memory_requests_and_limits() {
    let mut get = std::io::Cursor::new(b"GET /chain/head HTTP/1.1\r\n\r\n");
    assert!(matches!(
        read_http_request_from(&mut get, 16).unwrap(),
        ParsedHttpRequest::Request {
            request,
            auth_token: None,
        } if request.method == "GET" && request.path == "/chain/head" && request.body.is_empty()
    ));

    let mut post = std::io::Cursor::new(b"POST /tx HTTP/1.1\r\ncontent-length: 4\r\n\r\nbody");
    assert!(matches!(
        read_http_request_from(&mut post, 16).unwrap(),
        ParsedHttpRequest::Request { request, .. } if request.body == b"body"
    ));

    let mut empty = std::io::Cursor::new(Vec::<u8>::new());
    assert!(matches!(
        read_http_request_from(&mut empty, 16).unwrap(),
        ParsedHttpRequest::BadRequest
    ));

    let too_large = vec![b'x'; 8 * 1024 + 17];
    let mut too_large = std::io::Cursor::new(too_large);
    assert!(matches!(
        read_http_request_from(&mut too_large, 16).unwrap(),
        ParsedHttpRequest::TooLarge
    ));
}

#[test]
fn rpc_http_parser_rejects_bad_headers_and_waits_for_complete_bodies() {
    let uppercase_hash = hex(&hash_bytes(b"test", &[b"rpc-uppercase"])).to_uppercase();
    assert!(parse_hash(&uppercase_hash).is_ok());
    assert!(parse_hash(&"g".repeat(64)).is_err());
    assert!(parse_hash(&format!("0x{uppercase_hash}")).is_err());

    assert!(matches!(
        try_parse_http_request(b"GET /chain/head HTTP/1.1\r\n\r\n", 16),
        Some(ParsedHttpRequest::Request {
            auth_token: None,
            ..
        })
    ));
    assert!(matches!(
        try_parse_http_request(
            b"POST /tx HTTP/1.1\r\nauthorization: Bearer secret\r\ncontent-length: 4\r\n\r\nbody",
            16,
        ),
        Some(ParsedHttpRequest::Request {
            auth_token: Some(token),
            ..
        }) if token == "secret"
    ));
    assert!(matches!(
        try_parse_http_request(
            b"POST /tx HTTP/1.1\r\nx-tensorchain-auth: local\r\ncontent-length: 4\r\n\r\nbody",
            16,
        ),
        Some(ParsedHttpRequest::Request {
            auth_token: Some(token),
            ..
        }) if token == "local"
    ));
    assert!(matches!(
        try_parse_http_request(
            b"GET /explorer/ws?token=local HTTP/1.1\r\nupgrade: websocket\r\nsec-websocket-key: dGhlIHNhbXBsZSBub25jZQ==\r\n\r\n",
            16,
        ),
        Some(ParsedHttpRequest::WebSocketUpgrade {
            path,
            auth_token: Some(token),
            websocket_key,
        }) if path == "/explorer/ws" && token == "local" && websocket_key == "dGhlIHNhbXBsZSBub25jZQ=="
    ));
    assert!(matches!(
        try_parse_http_request(b"GET /\xff HTTP/1.1\r\n\r\n", 16),
        Some(ParsedHttpRequest::BadRequest)
    ));
    assert!(matches!(
        try_parse_http_request(b"GET\r\n\r\n", 16),
        Some(ParsedHttpRequest::BadRequest)
    ));
    assert!(matches!(
        try_parse_http_request(b"\r\n\r\n", 16),
        Some(ParsedHttpRequest::BadRequest)
    ));
    assert!(matches!(
        try_parse_http_request(b"GET /chain/head HTTP/1.1\r\nhost\r\n\r\n", 16),
        Some(ParsedHttpRequest::Request { .. })
    ));
    assert!(matches!(
        try_parse_http_request(b"POST /tx HTTP/1.1\r\ncontent-length: nope\r\n\r\n", 16),
        Some(ParsedHttpRequest::BadRequest)
    ));
    assert!(matches!(
        try_parse_http_request(b"POST /tx HTTP/1.1\r\ncontent-length: 17\r\n\r\n", 16),
        Some(ParsedHttpRequest::TooLarge)
    ));
    assert!(
        try_parse_http_request(b"POST /tx HTTP/1.1\r\ncontent-length: 4\r\n\r\nbo", 16,).is_none()
    );
    assert!(try_parse_http_request(b"GET /chain/head HTTP/1.1\r\n", 16).is_none());
    assert!(matches!(
        try_parse_http_request(
            b"GET /explorer/ws HTTP/1.1\r\nupgrade: websocket\r\n\r\n",
            16,
        ),
        Some(ParsedHttpRequest::BadRequest)
    ));
}

#[test]
fn request_line_errors_name_the_missing_part() {
    assert_eq!(parse_http_request_line("   ").err(), Some(HttpRequestLineError::MissingMethod));
    assert_eq!(parse_http_request_line("GET").err(), Some(HttpRequestLineError::MissingPath));
    let line = parse_http_request_line("  POST\t/tx  HTTP/1.1 extra").ok().unwrap();
    assert_eq!((line.method, line.path), ("POST", "/tx"));
}

#[test]
fn query_token_is_percent_decoded_and_first_wins() {
    assert_eq!(split_path_and_auth_token("/chain/head"), ("/chain/head".to_owned(), None));
    assert_eq!(
        split_path_and_auth_token("/ws?x=1&token=a%20b+c%zz&token=second"),
        ("/ws".to_owned(), Some("a b c%zz".to_owned()))
    );
    assert_eq!(split_path_and_auth_token("/ws?tokenx&token"), ("/ws".to_owned(), None));
    assert_eq!(split_path_and_auth_token("/ws?token=%ff"), ("/ws".to_owned(), Some("\u{fffd}".to_owned())));
    assert_eq!(split_path_and_auth_token("/a?b?token=t"), ("/a".to_owned(), None));
}

#[test]
fn header_names_ignore_case_and_later_headers_override() {
    let parsed = try_parse_http_request(
        b"PUT /x HTTP/1.1\r\nContent-Length: 2\r\nAUTHORIZATION:   Bearer   tok  \r\nCONTENT-LENGTH: +3\r\n\r\nabcdef",
        16,
    );
    match parsed {
        Some(ParsedHttpRequest::Request { request, auth_token }) => {
            assert_eq!(request.method, "PUT");
            assert_eq!(request.path, "/x");
            assert_eq!(request.body, b"abc");
            assert_eq!(auth_token.as_deref(), Some("tok"));
        }
        other => panic!("unexpected parse: {other:?}"),
    }
    let header_token_wins = try_parse_http_request(
        b"GET /p?token=query HTTP/1.1\r\nx-tensorchain-auth: header\r\n\r\n",
        0,
    );
    assert!(matches!(header_token_wins, Some(ParsedHttpRequest::Request { auth_token: Some(t), .. }) if t == "header"));
    let bad_after_good = try_parse_http_request(
        b"GET / HTTP/1.1\r\ncontent-length: 1\r\ncontent-length: -1\r\n\r\nx",
        16,
    );
    assert_eq!(bad_after_good, Some(ParsedHttpRequest::BadRequest));
}

#[test]
fn read_step_refuses_more_than_header_room_plus_body_limit() {
    let at_limit = vec![b'x'; 8192 + 4];
    assert_eq!(http_read_step(&at_limit, 4), None);
    let over = vec![b'x'; 8192 + 5];
    assert_eq!(http_read_step(&over, 4), Some(ParsedHttpRequest::TooLarge));
    assert_eq!(http_read_step(b"\r\n\r\n", usize::MAX), Some(ParsedHttpRequest::BadRequest));
}

#[test]
fn route_digests_need_exactly_sixty_four_hex_digits() {
    let h = hash_bytes(b"test", &[b"route"]);
    assert_eq!(parse_hash(&hex(&h)), Ok(h));
    assert_eq!(parse_address(&hex(&h)), Ok(h));
    assert_eq!(parse_hash("abc"), Err(TvmError::InvalidReceipt("invalid hash length")));
    assert_eq!(parse_hash(&"g".repeat(64)), Err(TvmError::InvalidReceipt("invalid hex")));
    assert_eq!(
        parse_hash(&format!("0x{}", &hex(&h)[2..])),
        Err(TvmError::InvalidReceipt("invalid hex"))
    );
}
