use hbproxy::codec::decode_conn_req;
use hbproxy::entity::RegNodeReq;
use hbproxy::node::{NodeServerCfg, WaitPoll, HEARTBEAT_TIMEOUT_MS, STALE_REMOVE_MS,
    WAIT_CONN_TIMEOUT_MS};
use hbproxy::nodes::{FindError, NodeEngine, RegCheck};

fn reg(engine: &mut NodeEngine, name: &str, token: &str, conn: u64, now: u64) -> Option<u64> {
    let cfg = NodeServerCfg {
        id: String::new(),
        name: name.to_string(),
        version: Some("0.1.2".to_string()),
        token: token.to_string(),
    };
    engine.register(cfg, conn, Some("10.0.0.7:55220".to_string()), now).expect("register")
}

#[test]
fn register_then_find() {
    let mut engine = NodeEngine::new();
    let now = 1_000_000;
    let closed = reg(&mut engine, "edge1", "tok", 11, now);
    assert!(closed.is_none());
    // The fresh session is found while online.
    let i = engine.find_node(&"edge1".to_string(), now + 5).expect("online");
    assert_eq!(engine.nodes[i].cfg.name, "edge1");
    assert_eq!(engine.nodes[i].conn, 11);
    assert_eq!(engine.nodes[i].cfg.id.len(), 20);
    // Nobody else is.
    assert_eq!(engine.find_node(&"edge2".to_string(), now), Err(FindError::NotFound));
    // Past the heartbeat window the session is no longer found.
    let late = now + HEARTBEAT_TIMEOUT_MS + 1;
    assert_eq!(engine.find_node(&"edge1".to_string(), late), Err(FindError::NotFound));
}

#[test]
fn register_rejects_empty_name() {
    let mut engine = NodeEngine::new();
    let cfg = NodeServerCfg {
        id: String::new(),
        name: String::new(),
        version: None,
        token: "t".to_string(),
    };
    assert!(engine.register(cfg, 1, None, 0).is_err());
}

#[test]
fn reregistration_tokens() {
    let mut engine = NodeEngine::new();
    let now = 50_000;
    reg(&mut engine, "edge1", "secret", 11, now);
    let wrong = RegNodeReq {
        name: "edge1".to_string(),
        token: Some("guess".to_string()),
        version: None,
    };
    assert_eq!(engine.reg_check(&wrong, now + 10), RegCheck::Conflict);
    let none = RegNodeReq { name: "edge1".to_string(), token: None, version: None };
    assert_eq!(engine.reg_check(&none, now + 10), RegCheck::Conflict);
    let right = RegNodeReq {
        name: "edge1".to_string(),
        token: Some("secret".to_string()),
        version: None,
    };
    assert_eq!(engine.reg_check(&right, now + 10), RegCheck::ReplaceOk);
    let fresh = RegNodeReq { name: "other".to_string(), token: None, version: None };
    assert_eq!(engine.reg_check(&fresh, now + 10), RegCheck::Fresh);
    // Offline sessions may be replaced without the token.
    let late = now + HEARTBEAT_TIMEOUT_MS + 1;
    assert_eq!(engine.reg_check(&wrong, late), RegCheck::ReplaceOk);
    // Replacing hands the old control connection back for closing.
    let closed = reg(&mut engine, "edge1", "secret2", 12, now + 10);
    assert_eq!(closed, Some(11));
    assert_eq!(engine.nodes.len(), 1);
}

#[test]
fn liveness_and_reap() {
    let mut engine = NodeEngine::new();
    let now = 10_000;
    reg(&mut engine, "edge1", "tok", 11, now);
    let it = engine.get_info(&"edge1".to_string(), now + 1000).expect("listed");
    assert!(it.online);
    assert_eq!(it.online_times, 1);
    assert!(it.outline_times.is_none());
    assert_eq!(it.addrs.as_deref(), Some("10.0.0.7:55220"));
    // Silence past the window: the check closes the session; it stays in
    // the table and the listing reports it offline.
    let t1 = now + HEARTBEAT_TIMEOUT_MS + 5;
    let mut e = engine.nodes.remove(0);
    assert!(!e.run_check(t1));
    engine.nodes.insert(0, e);
    let it = engine.get_info(&"edge1".to_string(), t1 + 2000).expect("still listed");
    assert!(!it.online);
    assert_eq!(it.outline_times, Some(2));
    assert!(it.addrs.is_none());
    // Heartbeats keep a live session alive, and each is echoed back.
    let mut fresh = NodeEngine::new();
    reg(&mut fresh, "edge2", "tok2", 21, now);
    let mut live = fresh.nodes.remove(0);
    live.on_msg(0, t1);
    assert!(live.online(t1 + 1));
    let reply = live.pop_msg().expect("heartbeat reply queued");
    assert_eq!(reply.control, 0);
    assert_eq!(reply.cmds.as_deref(), Some(&b"heart"[..]));
    // Only past the stale threshold does the check ask for removal.
    let mut e = engine.nodes.remove(0);
    assert!(!e.run_check(t1 + STALE_REMOVE_MS));
    assert!(e.run_check(t1 + STALE_REMOVE_MS + 1));
    let id = e.cfg.id.clone();
    engine.nodes.insert(0, e);
    // Removal guards on the session id.
    assert_eq!(engine.remove(&"edge1".to_string(), &"someother".to_string()), None);
    assert_eq!(engine.nodes.len(), 1);
    assert_eq!(engine.remove(&"edge1".to_string(), &id), Some(11));
    assert_eq!(engine.nodes.len(), 0);
}

#[test]
fn rendezvous_fulfilled() {
    let mut engine = NodeEngine::new();
    let now = 77_000;
    reg(&mut engine, "edge1", "tok", 11, now);
    let i = engine.find_node(&"edge1".to_string(), now).expect("online");
    let mut e = engine.nodes.remove(i);
    let xid = e
        .wait_conn_prepare(&Some("127.0.0.1".to_string()), 80, now)
        .expect("request placed");
    // The control-code-1 notice carries the request.
    let m = e.pop_msg().expect("notice queued");
    assert_eq!(m.control, 1);
    let req = decode_conn_req(&m.bodys.expect("body")).expect("body parses");
    assert_eq!(req.name, b"edge1".to_vec());
    assert_eq!(req.xids, xid.as_bytes().to_vec());
    assert_eq!(req.host, Some(b"127.0.0.1".to_vec()));
    assert_eq!(req.port, 80);
    // Nothing yet: the wait goes on.
    let deadline = now + WAIT_CONN_TIMEOUT_MS;
    assert_eq!(e.wait_poll(&xid, now + 10, deadline), WaitPoll::Waiting);
    // The node calls back with a connection: the next poll hands exactly
    // that connection over.
    e.put_conn(&xid, Some(42)).expect("request pending");
    assert_eq!(e.wait_poll(&xid, now + 20, deadline), WaitPoll::Ready(42));
    // The request is gone: a second delivery has expired.
    assert!(e.put_conn(&xid, Some(43)).is_err());
}

#[test]
fn rendezvous_local_error() {
    let mut engine = NodeEngine::new();
    let now = 77_000;
    reg(&mut engine, "edge1", "tok", 11, now);
    let mut e = engine.nodes.remove(0);
    let xid = e.wait_conn_prepare(&None, 8080, now).expect("request placed");
    e.put_conn(&xid, None).expect("request pending");
    let deadline = now + WAIT_CONN_TIMEOUT_MS;
    // A reported dial failure is a local-connection error, not a timeout.
    assert_eq!(e.wait_poll(&xid, now + 20, deadline), WaitPoll::LocalErr);
}

#[test]
fn rendezvous_timeout() {
    let mut engine = NodeEngine::new();
    let now = 77_000;
    reg(&mut engine, "edge1", "tok", 11, now);
    let mut e = engine.nodes.remove(0);
    let xid = e.wait_conn_prepare(&None, 8080, now).expect("request placed");
    let deadline = now + WAIT_CONN_TIMEOUT_MS;
    assert_eq!(e.wait_poll(&xid, deadline, deadline), WaitPoll::TimedOut);
    // The late callback finds nothing; its connection is dropped.
    assert!(e.put_conn(&xid, Some(42)).is_err());
    assert_eq!(e.waits.len(), 0);
}

#[test]
fn rendezvous_rejections() {
    let mut engine = NodeEngine::new();
    let now = 77_000;
    reg(&mut engine, "edge1", "tok", 11, now);
    let mut e = engine.nodes.remove(0);
    assert!(e.wait_conn_prepare(&None, 0, now).is_err());
    e.close(now);
    assert!(e.wait_conn_prepare(&None, 80, now).is_err());
    e.stop(now);
    assert!(e.wait_conn_prepare(&None, 80, now).is_err());
}

#[test]
fn put_conn_unknown_node_is_swallowed() {
    let mut engine = NodeEngine::new();
    assert!(engine.put_conn(&"ghost".to_string(), &"x".to_string(), Some(5)).is_ok());
}

#[test]
fn register_rejects_oversized_name() {
    let mut engine = NodeEngine::new();
    let cfg = NodeServerCfg {
        id: String::new(),
        name: "x".repeat(0x10000),
        version: None,
        token: "t".to_string(),
    };
    assert!(engine.register(cfg, 1, None, 0).is_err());
}

#[test]
fn rendezvous_rejects_oversized_host() {
    let mut engine = NodeEngine::new();
    let now = 5_000;
    reg(&mut engine, "edge1", "tok", 11, now);
    let mut e = engine.nodes.remove(0);
    let long = Some("h".repeat(0x10000));
    assert!(e.wait_conn_prepare(&long, 80, now).is_err());
    assert_eq!(e.waits.len(), 0);
}
