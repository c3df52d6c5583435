use hbproxy::auth::{authed, parse_rfc3339_secs, sign_text, AuthError};
use hbproxy::entity::{RegNodeReq, RuleConfGoto, RuleConfReq};
use hbproxy::server_case::{conn_params_ok, NodeRegOutcome, ProxyAddError, ServerCase, ServerConf};

#[test]
fn signature_matches_direct_digest() {
    // The signature is md5(command + times + random + key), in hex; check
    // against the digest computed directly.
    let cmd = "NodeList";
    let times = "2024-05-01T10:00:00Z";
    let rands = "abcdefghij0123456789";
    let key = "k0-server-secret";
    let sign = sign_text(cmd, times, rands, key);
    let joined = format!("{}{}{}{}", cmd, times, rands, key);
    let expect = hex::encode(md5::compute(joined.as_bytes()).0);
    assert_eq!(sign, expect);
    // A different key signs differently.
    assert_ne!(sign_text(cmd, times, rands, "other"), expect);
}

#[test]
fn timestamp_parse() {
    let t = parse_rfc3339_secs("2020-01-01T00:00:00Z").expect("parses");
    assert_eq!(t, 1577836800);
    let t = parse_rfc3339_secs("2020-01-01T01:00:00+01:00").expect("parses");
    assert_eq!(t, 1577836800);
    assert!(parse_rfc3339_secs("yesterday").is_none());
    assert!(parse_rfc3339_secs("").is_none());
}

fn call(
    key: Option<&str>,
    times: Option<&str>,
    rands: Option<&str>,
    signs: Option<&str>,
    now: i64,
    check: bool,
) -> Option<AuthError> {
    authed(
        &key.map(str::to_string),
        "NodeList",
        &times.map(str::to_string),
        &rands.map(str::to_string),
        &signs.map(str::to_string),
        now,
        check,
    )
}

#[test]
fn auth_outcomes() {
    let times = "2020-01-01T00:00:00Z";
    let now = 1577836800 + 30;
    let rands = "abcdefghij0123456789";
    let sign = sign_text("NodeList", times, rands, "k1");
    // No secret, or an empty one: everything passes.
    assert_eq!(call(None, None, None, None, now, true), None);
    assert_eq!(call(Some(""), None, None, None, now, true), None);
    // Missing arguments.
    assert_eq!(call(Some("k1"), None, None, None, now, true), Some(AuthError::TimesMissing));
    assert_eq!(
        call(Some("k1"), Some(times), None, None, now, true),
        Some(AuthError::RandomMissing)
    );
    assert_eq!(
        call(Some("k1"), Some(times), Some(rands), None, now, true),
        Some(AuthError::SignMissing)
    );
    // A nonce under twenty bytes.
    assert_eq!(
        call(Some("k1"), Some(times), Some("short"), Some(&sign), now, true),
        Some(AuthError::ParamsEmpty)
    );
    // A timestamp that does not parse always rejects.
    assert_eq!(
        call(Some("k1"), Some("junk"), Some(rands), Some(&sign), now, false),
        Some(AuthError::TimesParse)
    );
    // Clock distance rejects only with the check on.
    let old_now = 1577836800 + 300;
    assert_eq!(
        call(Some("k1"), Some(times), Some(rands), Some(&sign), old_now, true),
        Some(AuthError::TimesOld)
    );
    assert_eq!(call(Some("k1"), Some(times), Some(rands), Some(&sign), old_now, false), None);
    let early_now = 1577836800 - 10;
    assert_eq!(
        call(Some("k1"), Some(times), Some(rands), Some(&sign), early_now, true),
        Some(AuthError::TimesFuture)
    );
    // The right signature passes; a wrong one is turned away.
    assert_eq!(call(Some("k1"), Some(times), Some(rands), Some(&sign), now, true), None);
    assert_eq!(
        call(Some("k1"), Some(times), Some(rands), Some("bogus-but-nonempty"), now, true),
        Some(AuthError::SignMismatch)
    );
}

#[test]
fn server_case_gates() {
    let case = ServerCase::new(Some("k1".to_string()), None, false);
    let times = "2020-01-01T00:00:00Z";
    let rands = "abcdefghij0123456789";
    let sign = sign_text("NodeList", times, rands, "k1");
    let r = case.authed_server(
        "NodeList",
        &Some(times.to_string()),
        &Some(rands.to_string()),
        &Some(sign),
        1577836800,
    );
    assert_eq!(r, None);
    // The API side has no secret configured: it admits everyone.
    assert_eq!(case.authed_api("NodeList", &None, &None, &None, 0), None);
}

#[test]
fn node_key_gate() {
    let open = ServerConf { node_key: String::new() };
    assert!(open.authed(&None));
    let keyed = ServerConf { node_key: "k".to_string() };
    assert!(!keyed.authed(&None));
    assert!(!keyed.authed(&Some("wrong".to_string())));
    assert!(keyed.authed(&Some("k".to_string())));
}

#[test]
fn conn_params() {
    assert!(conn_params_ok(&"edge1".to_string(), &"x1".to_string()));
    assert!(!conn_params_ok(&"".to_string(), &"x1".to_string()));
    assert!(!conn_params_ok(&"edge1".to_string(), &"".to_string()));
}

#[test]
fn node_reg_flow() {
    let mut case = ServerCase::new(None, None, false);
    let now = 9_000;
    let req = RegNodeReq { name: "edge1".to_string(), token: None, version: None };
    let first = match case.node_reg(&req, 7, None, now) {
        NodeRegOutcome::Registered { token, closed } => {
            assert!(closed.is_none());
            token
        },
        _ => panic!("fresh name refused"),
    };
    // While the session is online, a tokenless rejoin is a conflict...
    match case.node_reg(&req, 8, None, now + 10) {
        NodeRegOutcome::TokenErr => {},
        _ => panic!("conflict expected"),
    }
    // ... and the issued token allows the resumption, closing the old
    // control connection.
    let resume = RegNodeReq { name: "edge1".to_string(), token: Some(first), version: None };
    match case.node_reg(&resume, 8, None, now + 20) {
        NodeRegOutcome::Registered { closed, .. } => assert_eq!(closed, Some(7)),
        _ => panic!("resumption refused"),
    }
    // An empty name never registers.
    let empty = RegNodeReq { name: String::new(), token: None, version: None };
    match case.node_reg(&empty, 9, None, now + 30) {
        NodeRegOutcome::NameErr => {},
        _ => panic!("empty name accepted"),
    }
}

#[test]
fn proxy_add_flow() {
    let mut case = ServerCase::new(None, None, false);
    let goto = |h: &str, p: i32| RuleConfGoto {
        proxy_host: h.to_string(),
        proxy_port: p,
        limit: None,
    };
    let mut req = RuleConfReq {
        name: Some("r1".to_string()),
        bind_host: "0.0.0.0".to_string(),
        bind_port: 9000,
        goto: vec![goto("edge1", 80)],
    };
    assert_eq!(case.proxy_add(&req), Ok("r1".to_string()));
    // The same name again, while running: taken.
    assert_eq!(case.proxy_add(&req), Err(ProxyAddError::NameExist));
    // The same port under another name: taken.
    req.name = Some("r2".to_string());
    assert_eq!(case.proxy_add(&req), Err(ProxyAddError::PortExist));
    // Field validations.
    req.bind_port = 9001;
    req.bind_host = String::new();
    assert_eq!(case.proxy_add(&req), Err(ProxyAddError::BindHost));
    req.bind_host = "0.0.0.0".to_string();
    req.bind_port = 0;
    assert_eq!(case.proxy_add(&req), Err(ProxyAddError::BindPort));
    req.bind_port = 9001;
    req.goto = vec![goto("", 80)];
    assert_eq!(case.proxy_add(&req), Err(ProxyAddError::GotoHost));
    req.goto = vec![goto("edge1", 0)];
    assert_eq!(case.proxy_add(&req), Err(ProxyAddError::GotoPort));
    req.goto = vec![goto("edge1", 81)];
    req.name = Some(String::new());
    assert_eq!(case.proxy_add(&req), Err(ProxyAddError::EmptyName));
    // A nameless request gets a generated name from the port.
    req.name = None;
    let name = case.proxy_add(&req).expect("generated name");
    assert!(name.starts_with("b9001"));
}
