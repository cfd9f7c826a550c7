use chico::balance::{
    proxied_uri, proxy_failure_response, upstream_host_header, Balancer, Node, ProxyFailure,
    ReverseProxyHandler, RoundRobinBalancer, SingleUpstream, RESET_THRESHOLD,
};
use chico::respond::RespondHandler;

fn three_nodes() -> Vec<Node> {
    vec![
        Node::new("127.0.0.1:80".to_string()),
        Node::new("1.0.0.1:9090".to_string()),
        Node::new("1.0.0.2:8080".to_string()),
    ]
}

const TEST_RESET_THRESHOLD: usize = 10000;

#[test]
fn test_round_robin_balancer() {
    let mut balancer = RoundRobinBalancer::with_reset_threshold(three_nodes(), TEST_RESET_THRESHOLD);

    for _ in 0..=TEST_RESET_THRESHOLD + 1 {
        assert_eq!(balancer.get_node(), Some(Node::new("127.0.0.1:80".to_string())));
        assert_eq!(balancer.get_node(), Some(Node::new("1.0.0.1:9090".to_string())));
        assert_eq!(balancer.get_node(), Some(Node::new("1.0.0.2:8080".to_string())));
    }
}

#[test]
fn test_round_robin_order_across_restarts() {
    for threshold in [0, 1, 2, 3, 4, 7] {
        let nodes = three_nodes();
        let mut balancer = RoundRobinBalancer::with_reset_threshold(three_nodes(), threshold);
        for i in 0..50 {
            assert_eq!(balancer.get_node(), Some(nodes[i % 3].clone()), "threshold {} call {}", threshold, i);
        }
    }
}

#[test]
fn test_empty_nodes() {
    let mut balancer = RoundRobinBalancer::new(vec![]);
    assert!(balancer.get_node().is_none());
}

#[test]
fn test_single_node() {
    let node = Node::new("127.0.0.1:80".to_string());
    let mut balancer = RoundRobinBalancer::new(vec![node]);
    for _ in 0..100 {
        assert_eq!(
            balancer.get_node().unwrap(),
            Node::new("127.0.0.1:80".to_string())
        );
    }
}

#[test]
fn test_counter_reset() {
    let mut balancer = RoundRobinBalancer::with_reset_threshold(three_nodes(), TEST_RESET_THRESHOLD);

    // Bring the counter close to the threshold
    for _ in 0..TEST_RESET_THRESHOLD - 1 {
        let _ = balancer.get_node();
    }
    assert_eq!(balancer.counter(), TEST_RESET_THRESHOLD - 1);

    // Trigger get_node() enough to cross threshold and reset
    for _ in 0..5 {
        let _ = balancer.get_node();
    }

    let val_after_reset = balancer.counter();
    assert!(
        val_after_reset < TEST_RESET_THRESHOLD,
        "Counter did not reset properly: {}",
        val_after_reset
    );
}

#[test]
fn test_default_reset_threshold() {
    assert_eq!(RESET_THRESHOLD, usize::MAX / 2);
    let mut balancer = RoundRobinBalancer::new(three_nodes());
    assert_eq!(balancer.counter(), 0);
    let _ = balancer.next();
    assert_eq!(balancer.counter(), 1);
}

#[test]
fn test_single_upstream() {
    let s = SingleUpstream::new(Node::new("10.0.0.1:3000".to_string()));
    for _ in 0..3 {
        assert_eq!(s.get_node(), Some(Node::new("10.0.0.1:3000".to_string())));
    }
}

#[test]
fn test_reverse_proxy_handler_defaults() {
    let h = ReverseProxyHandler::new(Balancer::Single(SingleUpstream::new(Node::new(
        "127.0.0.1:8080".to_string(),
    ))));
    assert_eq!(h.request_timeout, 30);
    assert_eq!(h.connection_timeout, 10);
}

#[test]
fn test_reverse_proxy_handler_with_timeouts() {
    let mut h = ReverseProxyHandler::with_timeouts(
        Balancer::RoundRobin(RoundRobinBalancer::new(three_nodes())),
        Some(20),
        None,
    );
    assert_eq!(h.request_timeout, 20);
    assert_eq!(h.connection_timeout, 10);
    assert_eq!(h.get_node(), Some(Node::new("127.0.0.1:80".to_string())));
    assert_eq!(h.get_node(), Some(Node::new("1.0.0.1:9090".to_string())));
}

#[test]
fn test_proxy_failure_responses() {
    assert_eq!(
        proxy_failure_response(ProxyFailure::Connect),
        RespondHandler::bad_gateway_with_body(
            "502 Bad Gateway - could not connect to upstream server.".to_string()
        )
    );
    assert_eq!(
        proxy_failure_response(ProxyFailure::ConnectTimeout).body_text(),
        RespondHandler::bad_gateway_with_body(
            "502 Bad Gateway - connection timeout to upstream server.".to_string()
        )
        .body_text()
    );
    let send = proxy_failure_response(ProxyFailure::Send);
    assert_eq!(send.status(), 502);
    assert_eq!(send.body_text(), "502 Bad Gateway - error sending request.");
    assert!(send.headers().is_empty());
    let timeout = proxy_failure_response(ProxyFailure::SendTimeout);
    assert_eq!(timeout.status(), 504);
    assert_eq!(
        timeout.body_text(),
        "504 Gateway Timeout - upstream did not respond in time."
    );
    assert_eq!(proxy_failure_response(ProxyFailure::Handshake).status(), 502);
}

#[test]
fn test_proxied_uri_and_host_header() {
    let uri = proxied_uri("127.0.0.1:8080", Some("/api/x?q=1"));
    assert_eq!(uri, "http://127.0.0.1:8080/api/x?q=1");
    assert_eq!(proxied_uri("127.0.0.1:8080", None), "http://127.0.0.1:8080/");
    assert_eq!(upstream_host_header(&uri), Some("127.0.0.1:8080".to_string()));
    assert_eq!(upstream_host_header("http://localhost/"), None);
}
