use fproxy::message::{Header, Method, Response};
use fproxy::pipeline::{
    forwarded_reply, plan_request, split_host_port, tunnel_ack_bytes, tunnel_step,
    ConnectionPlan, ForwardError, HeadReader, TunnelAction, TunnelEvent, TunnelState,
};

#[test]
fn head_reader_collects_until_blank_line() {
    let mut r = HeadReader::new();
    assert!(!r.push_line(b"GET / HTTP/1.1\r\n"));
    assert!(!r.push_line(b"Host: example.test\r\n"));
    assert!(r.push_line(b"\r\n"));
    assert_eq!(r.into_head(), b"GET / HTTP/1.1\r\nHost: example.test\r\n\r\n".to_vec());
}

#[test]
fn plan_forwards_get_with_empty_body() {
    let plan = plan_request(b"GET http://example.test/ HTTP/1.1\r\nHost: example.test\r\n\r\n");
    match plan {
        ConnectionPlan::Forward(req) => {
            assert_eq!(req.method, Method::Get);
            assert_eq!(req.target, b"http://example.test/".to_vec());
            assert_eq!(req.body, Vec::<u8>::new());
        },
        _ => panic!("a GET must be forwarded"),
    }
}

#[test]
fn forwarded_reply_carries_upstream_body_length() {
    let upstream = Response {
        status_code: 200,
        headers: vec![Header { name: b"X-Up".to_vec(), value: b"yes".to_vec() }],
        body: b"hello world".to_vec(),
    };
    let wire = forwarded_reply(Ok(upstream));
    let text = String::from_utf8_lossy(&wire).to_string();
    assert!(text.starts_with("HTTP/1.1 200 OK\r\nContent-Length: 11\r\n"));
    assert!(text.ends_with("hello world\r\n\r\n"));
}

#[test]
fn forwarded_reply_maps_failures_to_bad_gateway() {
    for e in [ForwardError::Refused, ForwardError::Timeout, ForwardError::Unresponsive] {
        let wire = forwarded_reply(Err(e));
        assert_eq!(wire, b"HTTP/1.1 502 Bad Gateway\r\nContent-Length: 0\r\n\r\n\r\n\r\n".to_vec());
    }
    let unknown = Response { status_code: 306, headers: vec![], body: vec![] };
    let wire = forwarded_reply(Ok(unknown));
    assert!(wire.starts_with(b"HTTP/1.1 502 Bad Gateway\r\n"));
}

#[test]
fn plan_tunnels_connect() {
    let plan = plan_request(b"CONNECT example.test:443 HTTP/1.1\r\n\r\n");
    match plan {
        ConnectionPlan::Tunnel { host, port } => {
            assert_eq!(host, b"example.test".to_vec());
            assert_eq!(port, 443);
        },
        _ => panic!("CONNECT must open a tunnel"),
    }
}

#[test]
fn tunnel_ack_is_the_literal_acknowledgment() {
    assert_eq!(tunnel_ack_bytes(), b"HTTP/1.1 200 Connection Established\r\n\r\n".to_vec());
}

#[test]
fn tunnel_acknowledges_before_any_tls_step() {
    let (s1, a1) = tunnel_step(TunnelState::AwaitTunnelRequest, TunnelEvent::ConnectRequested);
    assert_eq!(s1, TunnelState::AcknowledgeTunnel);
    assert_eq!(a1, TunnelAction::WriteAck);
    let (s2, a2) = tunnel_step(s1, TunnelEvent::AckWritten);
    assert_eq!(s2, TunnelState::TlsHandshakeWithClient);
    assert_eq!(a2, TunnelAction::MintAndHandshake);
    let (s3, a3) = tunnel_step(s2, TunnelEvent::ClientHandshakeDone);
    assert_eq!(s3, TunnelState::ConnectUpstream);
    assert_eq!(a3, TunnelAction::DialUpstream);
    let (s4, a4) = tunnel_step(s3, TunnelEvent::UpstreamConnected);
    assert_eq!(s4, TunnelState::Relay);
    assert_eq!(a4, TunnelAction::RelayBytes);
    let (s5, a5) = tunnel_step(s4, TunnelEvent::RelayEnded);
    assert_eq!(s5, TunnelState::Closed);
    assert_eq!(a5, TunnelAction::CloseBoth);
}

#[test]
fn tunnel_failure_closes_both_legs() {
    for s in [
        TunnelState::AwaitTunnelRequest,
        TunnelState::AcknowledgeTunnel,
        TunnelState::TlsHandshakeWithClient,
        TunnelState::ConnectUpstream,
    ] {
        let (next, action) = tunnel_step(s, TunnelEvent::StepFailed);
        assert_eq!(next, TunnelState::Failed);
        assert_eq!(action, TunnelAction::CloseBoth);
    }
    let (next, action) = tunnel_step(TunnelState::Relay, TunnelEvent::StepFailed);
    assert_eq!(next, TunnelState::Closed);
    assert_eq!(action, TunnelAction::CloseBoth);
}

#[test]
fn plan_rejects_patch_with_405_and_keeps_serving() {
    let plan = plan_request(b"PATCH / HTTP/1.1\r\nHost: example.test\r\n\r\n");
    match plan {
        ConnectionPlan::Reply(wire) => {
            assert!(wire.starts_with(b"HTTP/1.1 405 Method Not Allowed\r\n"));
        },
        _ => panic!("an unsupported method earns an error reply, not a crash"),
    }
    // the next connection is served as usual
    match plan_request(b"GET / HTTP/1.1\r\n\r\n") {
        ConnectionPlan::Forward(req) => assert_eq!(req.method, Method::Get),
        _ => panic!("later requests must still be served"),
    }
}

#[test]
fn plan_rejects_malformed_with_400() {
    match plan_request(b"nonsense\r\n\r\n") {
        ConnectionPlan::Reply(wire) => {
            assert!(wire.starts_with(b"HTTP/1.1 400 Bad Request\r\n"));
        },
        _ => panic!("malformed bytes earn a 400 reply"),
    }
}

#[test]
fn plan_closes_on_incomplete_head() {
    match plan_request(b"GET / HT") {
        ConnectionPlan::Close => {},
        _ => panic!("an incomplete head aborts the connection"),
    }
}

#[test]
fn plan_rejects_connect_without_port() {
    match plan_request(b"CONNECT example.test HTTP/1.1\r\n\r\n") {
        ConnectionPlan::Reply(wire) => {
            assert!(wire.starts_with(b"HTTP/1.1 400 Bad Request\r\n"));
        },
        _ => panic!("a CONNECT target without a port earns a 400 reply"),
    }
}

#[test]
fn host_port_splitting() {
    assert_eq!(
        split_host_port(b"example.test:443"),
        Some((b"example.test".to_vec(), 443))
    );
    assert_eq!(split_host_port(b"h:0"), Some((b"h".to_vec(), 0)));
    assert_eq!(split_host_port(b"h:65535"), Some((b"h".to_vec(), 65535)));
    assert_eq!(split_host_port(b"h:65536"), None);
    assert_eq!(split_host_port(b"h:123456"), None);
    assert_eq!(split_host_port(b"noport"), None);
    assert_eq!(split_host_port(b":443"), None);
    assert_eq!(split_host_port(b"h:"), None);
    assert_eq!(split_host_port(b"h:4x3"), None);
}
