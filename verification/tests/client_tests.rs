use hbproxy::client::{conn_addr, is_old_remote, NodeClient, NodeClientCfg, HEART_INTERVAL_MS};
use hbproxy::codec::{ConnReq, Message};
use hbproxy::node::HEARTBEAT_TIMEOUT_MS;

fn client(version: &str, now: u64) -> NodeClient {
    NodeClient::new(
        NodeClientCfg {
            name: "edge1".to_string(),
            token: Some("tok".to_string()),
            remote_version: version.to_string(),
        },
        "localhost".to_string(),
        now,
    )
}

#[test]
fn old_remote_detection() {
    assert!(is_old_remote(&"0.2.3".to_string()));
    assert!(is_old_remote(&"0.2.0".to_string()));
    assert!(!is_old_remote(&"0.2.4".to_string()));
    assert!(!is_old_remote(&"0.3.0".to_string()));
    // An unparsable version counts as current.
    assert!(!is_old_remote(&"dev".to_string()));
    assert!(client("0.2.3", 0).isoldconn);
    assert!(!client("0.3.0", 0).isoldconn);
}

#[test]
fn heartbeats_and_silence() {
    let now = 5_000;
    let mut c = client("0.3.0", now);
    // Not yet due: nothing queued.
    assert!(!c.run_check(now + 1));
    assert!(c.pop_msg().is_none());
    // Due: one heartbeat at the front of the queue, the next scheduled.
    let t1 = now + HEART_INTERVAL_MS;
    assert!(!c.run_check(t1));
    let m = c.pop_msg().expect("heartbeat queued");
    assert_eq!(m.control, 0);
    assert_eq!(m.cmds.as_deref(), Some(&b"heart"[..]));
    // A heartbeat reply pushes the silence deadline out.
    c.on_msg(Message { control: 0, cmds: None, heads: None, bodys: None }, t1);
    assert!(!c.run_check(t1 + HEARTBEAT_TIMEOUT_MS - 1));
    // Unbroken silence past the window stops the client.
    assert!(c.run_check(t1 + HEARTBEAT_TIMEOUT_MS));
    assert!(c.stopping);
}

#[test]
fn notice_handling() {
    let now = 5_000;
    let mut c = client("0.3.0", now);
    let req = ConnReq {
        name: b"edge1".to_vec(),
        xids: b"req-1".to_vec(),
        host: None,
        port: 80,
    };
    let body = hbproxy::codec::encode_conn_req(&req);
    let got = c
        .on_msg(Message { control: 1, cmds: None, heads: None, bodys: Some(body) }, now)
        .expect("notice decoded");
    assert_eq!(got.xids, b"req-1".to_vec());
    // The dial address falls back to the client's default host.
    assert_eq!(conn_addr(&c.connhost, &got).as_deref(), Some("localhost:80"));
    // An override wins.
    let with_host = ConnReq { host: Some(b"10.1.1.1".to_vec()), ..got };
    assert_eq!(conn_addr(&c.connhost, &with_host).as_deref(), Some("10.1.1.1:80"));
    // A mangled body is dropped.
    assert!(c
        .on_msg(Message { control: 1, cmds: None, heads: None, bodys: Some(vec![1, 2]) }, now)
        .is_none());
    assert!(c
        .on_msg(Message { control: 9, cmds: None, heads: None, bodys: None }, now)
        .is_none());
}
