//! The end-to-end dance, on the model: a node joins, a rule binds, an
//! inbound client's bytes cross the tunnel to the node's local dial, and
//! the response crosses back.

use hbproxy::client::{conn_addr, NodeClient, NodeClientCfg};
use hbproxy::codec::{decode_frame, encode_frame, Message};
use hbproxy::entity::{ProxyGoto, RegNodeReq, RuleConfReq, RuleConfGoto};
use hbproxy::node::{WaitPoll, WAIT_CONN_TIMEOUT_MS};
use hbproxy::proxyer::{Proxyer, ProxyerCfg};
use hbproxy::server_case::{NodeRegOutcome, ServerCase};

#[test]
fn tunnel_round_trip() {
    let mut case = ServerCase::new(None, None, false);
    let now = 1_000_000;

    // The node "edge1" joins; the server issues it a token and a session.
    let join = RegNodeReq {
        name: "edge1".to_string(),
        token: None,
        version: Some("0.3.0".to_string()),
    };
    let token = match case.node_reg(&join, 101, Some("198.51.100.7:40000".to_string()), now) {
        NodeRegOutcome::Registered { token, closed } => {
            assert!(closed.is_none());
            token
        },
        _ => panic!("registration refused"),
    };
    assert_eq!(token.len(), 32);
    let mut agent = NodeClient::new(
        NodeClientCfg {
            name: "edge1".to_string(),
            token: Some(token),
            remote_version: "0.3.0".to_string(),
        },
        "localhost".to_string(),
        now,
    );

    // The rule "r1" binds 0.0.0.0:9000 and forwards to edge1:80.
    let add = RuleConfReq {
        name: Some("r1".to_string()),
        bind_host: "0.0.0.0".to_string(),
        bind_port: 9000,
        goto: vec![RuleConfGoto { proxy_host: "edge1".to_string(), proxy_port: 80, limit: None }],
    };
    assert_eq!(case.proxy_add(&add), Ok("r1".to_string()));

    // A client connects to port 9000: the rule tries its first candidate,
    // which asks edge1 for a data connection.
    let goto: &ProxyGoto = &case.proxy.proxys[0].cfg.goto[0];
    let target = goto.proxy_host.clone();
    let port = goto.proxy_port;
    let ni = case.node.find_node(&target, now).expect("edge1 is online");
    let mut session = case.node.nodes.remove(ni);
    let xid = session
        .wait_conn_prepare(&goto.localhost, port, now)
        .expect("request placed");
    let deadline = now + WAIT_CONN_TIMEOUT_MS;

    // The notice crosses the control channel as one frame.
    let notice = session.pop_msg().expect("notice queued");
    let wire = encode_frame(&notice);
    let received = decode_frame(&wire).expect("frame intact");
    let req = agent.on_msg(received, now + 5).expect("notice understood");

    // The node dials its local port 80 and calls back with the new
    // connection; the server's handler resolves the waiting request.
    assert_eq!(conn_addr(&agent.connhost, &req).as_deref(), Some("localhost:80"));
    let xids = String::from_utf8(req.xids.clone()).expect("ascii id");
    assert_eq!(xids, xid);
    let dialed: u64 = 202;
    session.put_conn(&xids, Some(dialed)).expect("request pending");
    let conn = match session.wait_poll(&xid, now + 20, deadline) {
        WaitPoll::Ready(c) => c,
        other => panic!("wait ended with {:?}", other),
    };
    assert_eq!(conn, dialed);

    // The relay bridges the client connection and the dialed one: the
    // request bytes appear on edge1's local dial, the response comes back.
    let mut relay = Proxyer::new(ProxyerCfg { ids: format!("{}:{}", target, port), limit: None });
    relay.read1(b"GET /".to_vec());
    let mut seen = Vec::new();
    while let Some(chunk) = relay.write2() {
        seen.extend_from_slice(&chunk);
    }
    assert_eq!(seen, b"GET /".to_vec());
    relay.read2(b"HTTP/1.1 200 OK\r\n\r\nhello".to_vec());
    let mut back = Vec::new();
    loop {
        match relay.write1() {
            (Some(chunk), _) => back.extend_from_slice(&chunk),
            (None, _) => break,
        }
    }
    assert_eq!(back, b"HTTP/1.1 200 OK\r\n\r\nhello".to_vec());
}
