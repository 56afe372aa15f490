use tensor_vm::rpc::gateway::{error_response, RpcGateway, RpcHandler};
use tensor_vm::rpc::{RpcPolicy, RpcRequest, RpcResponse};

/// A node that answers every admitted request with `200` and counts them.
struct CountingNode {
    handled: usize,
}

impl RpcHandler for CountingNode {
    fn response_to(&self, _request: RpcRequest) -> RpcResponse {
        RpcResponse { status: 200, body: "{}".to_owned() }
    }

    fn handle_mut(&mut self, request: &RpcRequest) -> RpcResponse {
        let out = self.response_to(request.clone());
        self.handled += 1;
        out
    }
}

#[test]
fn rpc_gateway_enforces_auth_body_limits_and_rate_limits() {
    let mut gateway = RpcGateway::new(
        CountingNode { handled: 0 },
        RpcPolicy {
            auth_token: Some("secret".to_owned()),
            max_body_bytes: 8,
            max_requests_per_client: 1,
        },
    );
    let request = RpcRequest {
        method: "GET".to_owned(),
        path: "/chain/head".to_owned(),
        body: Vec::new(),
    };

    assert_eq!(gateway.handle("client", None, &request).status, 401);
    assert_eq!(gateway.request_count("client"), 0);

    let oversized = RpcRequest {
        method: "POST".to_owned(),
        path: "/tx".to_owned(),
        body: b"too many bytes".to_vec(),
    };
    assert_eq!(gateway.handle("client", Some("secret"), &oversized).status, 413);
    assert_eq!(gateway.request_count("client"), 0);

    assert_eq!(gateway.handle("client", Some("secret"), &request).status, 200);
    assert_eq!(gateway.handle("client", Some("secret"), &request).status, 429);
    assert_eq!(gateway.node.handled, 1);
}

#[test]
fn error_responses_carry_a_json_error_body() {
    let r = error_response(401, "unauthorized");
    assert_eq!(r.status, 401);
    assert_eq!(r.body, "{\"error\":\"unauthorized\"}");
    assert_eq!(error_response(400, "bad \"quote\"").body, "{\"error\":\"bad \\\"quote\\\"\"}");
}

#[test]
fn budgets_are_kept_per_client_and_open_without_a_token() {
    let mut gateway = RpcGateway::new(
        CountingNode { handled: 0 },
        RpcPolicy { auth_token: None, max_body_bytes: 0, max_requests_per_client: 2 },
    );
    let request = RpcRequest { method: "GET".to_owned(), path: "/".to_owned(), body: Vec::new() };
    assert_eq!(gateway.handle("a", None, &request).status, 200);
    assert_eq!(gateway.handle("b", Some("ignored"), &request).status, 200);
    assert_eq!(gateway.handle("a", None, &request).status, 200);
    assert_eq!(gateway.handle("a", None, &request).status, 429);
    assert_eq!(gateway.request_count("a"), 2);
    assert_eq!(gateway.request_count("b"), 1);
    assert_eq!(gateway.request_count("c"), 0);
    let mut closed = RpcGateway::new(
        CountingNode { handled: 0 },
        RpcPolicy { auth_token: None, max_body_bytes: 0, max_requests_per_client: 0 },
    );
    assert_eq!(closed.handle("a", None, &request).status, 429);
    assert_eq!(closed.request_count("a"), 0);
}
