use tensor_vm::rpc::{http_response_text, DynamicRoutePath, RpcPolicy, RpcResponse};

fn http_status_line(response: &str) -> &str {
    response.lines().next().expect("HTTP response must include status line")
}

fn http_body(response: &str) -> &str {
    response
        .split_once("\r\n\r\n")
        .map(|(_, body)| body)
        .expect("HTTP response must include header/body separator")
}

fn http_header<'a>(response: &'a str, header: &str) -> &'a str {
    response
        .lines()
        .skip(1)
        .take_while(|line| !line.is_empty())
        .find_map(|line| {
            let (name, value) = line.split_once(':')?;
            if name.eq_ignore_ascii_case(header) {
                Some(value.trim())
            } else {
                None
            }
        })
        .unwrap_or_else(|| panic!("HTTP response must include {header} header"))
}

#[test]
fn rpc_formats_http_response() {
    let response = RpcResponse {
        status: 202,
        body: "{\"accepted\":true}".to_owned(),
    };
    let text = http_response_text(&response);
    assert_eq!(http_status_line(&text), "HTTP/1.1 202 Accepted");
    assert_eq!(http_body(&text), "{\"accepted\":true}");
    let conflict = http_response_text(&RpcResponse {
        status: 409,
        body: "{\"error\":\"duplicate transaction\"}".to_owned(),
    });
    assert_eq!(http_status_line(&conflict), "HTTP/1.1 409 Conflict");
    let limited = http_response_text(&RpcResponse {
        status: 429,
        body: "{\"error\":\"rate limit exceeded\"}".to_owned(),
    });
    assert_eq!(http_status_line(&limited), "HTTP/1.1 429 Too Many Requests");
    let html = http_response_text(&RpcResponse {
        status: 200,
        body: "<!doctype html><html></html>".to_owned(),
    });
    assert_eq!(
        http_header(&html, "content-type"),
        "text/html; charset=utf-8"
    );
}

#[test]
fn http_response_text_counts_body_bytes() {
    let text = http_response_text(&RpcResponse { status: 503, body: "é".to_owned() });
    assert_eq!(
        text,
        "HTTP/1.1 503 Unknown\r\ncontent-type: application/json\r\ncontent-length: 2\r\n\r\né"
    );
    let empty = http_response_text(&RpcResponse { status: 0, body: String::new() });
    assert_eq!(empty, "HTTP/1.1 0 Unknown\r\ncontent-type: application/json\r\ncontent-length: 0\r\n\r\n");
}

#[test]
fn dynamic_route_path_preserves_current_segment_rules() {
    assert_eq!(
        DynamicRoutePath::parse("/chain/block/0/").segments(),
        &["chain", "block", "0"]
    );
    assert_eq!(
        DynamicRoutePath::parse("chain//block").segments(),
        &["chain", "", "block"]
    );
    assert_eq!(DynamicRoutePath::parse("/").segments(), &[""]);
    assert!(DynamicRoutePath::parse("/a/b/c/d/e").segments().is_empty());
}

#[test]
fn rpc_policy_defaults() {
    let policy = RpcPolicy::default();
    assert_eq!(policy.auth_token, None);
    assert_eq!(policy.max_body_bytes, 1024 * 1024);
    assert_eq!(policy.max_requests_per_client, 1_000);
    assert_eq!(DynamicRoutePath::parse("///").segments(), &[""]);
    assert_eq!(DynamicRoutePath::parse("a/b/c/d").segments(), &["a", "b", "c", "d"]);
}
