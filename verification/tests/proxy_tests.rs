use hbproxy::entity::{ProxyInfoConf, ProxyInfoGoto, ProxyLimit};
use hbproxy::proxy::{AddCheck, EngineError, LoadError, ProxyEngine};
use hbproxy::rule::{RuleCfg, RuleProxy, RULE_ERROR, RULE_LISTENING, RULE_STARTING};
use hbproxy::util::AddrError;

fn cfg(name: &str, port: i32) -> RuleCfg {
    RuleCfg {
        name: name.to_string(),
        bind_host: "0.0.0.0".to_string(),
        bind_port: port,
        goto: Vec::new(),
    }
}

#[test]
fn add_check_conflicts() {
    let mut engine = ProxyEngine::new();
    engine.add_proxy(cfg("r1", 9000), false).expect("added");
    // The same name while not stopped: a name conflict.
    assert_eq!(engine.add_check(&cfg("r1", 9100)), AddCheck::NameConflict);
    // A different name on the same port while not stopped: a port
    // conflict, whatever the name.
    assert_eq!(engine.add_check(&cfg("r2", 9000)), AddCheck::PortConflict);
    // Neither: accepted.
    assert_eq!(engine.add_check(&cfg("r2", 9100)), AddCheck::Accept);
    // A stopped rule conflicts with nothing.
    engine.stop(&"r1".to_string()).expect("stopped");
    assert_eq!(engine.add_check(&cfg("r1", 9100)), AddCheck::Accept);
    assert_eq!(engine.add_check(&cfg("r2", 9000)), AddCheck::Accept);
}

#[test]
fn add_replaces_same_name() {
    let mut engine = ProxyEngine::new();
    engine.add_proxy(cfg("r1", 9000), true).expect("added stopped");
    assert!(!engine.proxys[0].running);
    engine.add_proxy(cfg("r1", 9001), false).expect("replaced");
    assert_eq!(engine.proxys.len(), 1);
    assert_eq!(engine.proxys[0].cfg.bind_port, 9001);
    assert!(engine.proxys[0].running);
    assert!(engine.add_proxy(cfg("", 1), false).is_err());
}

#[test]
fn start_stop_remove() {
    let mut engine = ProxyEngine::new();
    assert_eq!(engine.start(&"nope".to_string()), Err(EngineError::NotFound));
    assert_eq!(engine.stop(&"nope".to_string()), Err(EngineError::NotFound));
    engine.add_proxy(cfg("r1", 9000), false).expect("added");
    // Starting a rule already live is refused.
    assert_eq!(engine.start(&"r1".to_string()), Err(EngineError::Starting));
    engine.stop(&"r1".to_string()).expect("stopped");
    assert!(!engine.proxys[0].running);
    engine.start(&"r1".to_string()).expect("restarted");
    assert!(engine.proxys[0].running);
    engine.remove(&"r1".to_string()).expect("removed");
    assert_eq!(engine.proxys.len(), 0);
    // Removing an absent rule reports not-found.
    assert_eq!(engine.remove(&"r1".to_string()), Err(EngineError::NotFound));
}

#[test]
fn drain_and_clear() {
    let mut engine = ProxyEngine::new();
    engine.add_proxy(cfg("r1", 9000), false).expect("added");
    engine.add_proxy(cfg("r2", 9001), false).expect("added");
    assert!(!engine.all_stopd());
    engine.stop_all();
    assert!(engine.all_stopd());
    engine.clear();
    assert_eq!(engine.proxys.len(), 0);
}

#[test]
fn rule_lifecycle() {
    let mut r = RuleProxy::new(cfg("r1", 9000));
    assert!(r.stopd());
    assert_eq!(r.status(), RULE_STARTING);
    assert_eq!(r.msg().as_deref(), Some("wait start..."));
    r.start().expect("starts");
    assert!(r.msg().is_none());
    assert!(r.start().is_err());
    r.on_bind_ok();
    assert_eq!(r.status(), RULE_LISTENING);
    let mut bad = RuleProxy::new(cfg("r2", 9000));
    bad.start().expect("starts");
    bad.on_bind_err("address in use".to_string());
    assert_eq!(bad.status(), RULE_ERROR);
    assert_eq!(bad.msg().as_deref(), Some("bind err:address in use"));
}

fn info(bind: &str, proxy: &str) -> ProxyInfoConf {
    ProxyInfoConf {
        name: None,
        stop: None,
        bind: bind.to_string(),
        proxys: vec![ProxyInfoGoto {
            proxy: proxy.to_string(),
            localhost: None,
            limit: Some(ProxyLimit { up: 100, down: 200 }),
        }],
    }
}

#[test]
fn load_conf_definitions() {
    let mut engine = ProxyEngine::new();
    let name = engine.load_conf(&info(":9000", "edge1:80")).expect("loaded");
    assert!(name.starts_with("b9000"));
    assert_eq!(name.len(), "b9000".len() + 5);
    let p = &engine.proxys[0];
    assert_eq!(p.cfg.bind_host, "0.0.0.0");
    assert_eq!(p.cfg.bind_port, 9000);
    assert_eq!(p.cfg.goto.len(), 1);
    assert_eq!(p.cfg.goto[0].proxy_host, "edge1");
    assert_eq!(p.cfg.goto[0].proxy_port, 80);
    assert_eq!(p.cfg.goto[0].limit, Some(ProxyLimit { up: 100, down: 200 }));
    assert!(p.running);
    // An empty destination host defaults to localhost.
    let mut e2 = ProxyEngine::new();
    e2.load_conf(&info("1.2.3.4:9000", ":80")).expect("loaded");
    assert_eq!(e2.proxys[0].cfg.goto[0].proxy_host, "localhost");
    assert_eq!(e2.proxys[0].cfg.bind_host, "1.2.3.4");
    // A named definition keeps its name; `stop: true` keeps it stopped.
    let mut named = info(":9001", "h:80");
    named.name = Some("r9".to_string());
    named.stop = Some(true);
    let mut e3 = ProxyEngine::new();
    assert_eq!(e3.load_conf(&named), Ok("r9".to_string()));
    assert!(!e3.proxys[0].running);
}

#[test]
fn load_conf_rejections() {
    let mut engine = ProxyEngine::new();
    assert_eq!(engine.load_conf(&info("9000", "h:80")), Err(LoadError::BindPieces));
    assert_eq!(engine.load_conf(&info(":x", "h:80")), Err(LoadError::BindPort));
    assert_eq!(engine.load_conf(&info(":0", "h:80")), Err(LoadError::BindPortZero));
    assert_eq!(
        engine.load_conf(&info(":9000", "h80")),
        Err(LoadError::Goto(AddrError::Pieces))
    );
    assert_eq!(
        engine.load_conf(&info(":9000", "h:0")),
        Err(LoadError::Goto(AddrError::PortZero))
    );
    engine.load_conf(&info(":9000", "h:80")).expect("loaded");
    let mut named = info(":9000", "h:80");
    named.name = Some("clash".to_string());
    assert_eq!(engine.load_conf(&named), Err(LoadError::PortExist));
    let taken = engine.proxys[0].cfg.name.clone();
    let mut dup = info(":9005", "h:80");
    dup.name = Some(taken);
    assert_eq!(engine.load_conf(&dup), Err(LoadError::NameExist));
    assert_eq!(engine.proxys.len(), 1);
}

#[test]
fn listing_rows() {
    let mut engine = ProxyEngine::new();
    let mut c = cfg("r1", 9000);
    c.goto.push(hbproxy::entity::ProxyGoto {
        proxy_host: "edge1".to_string(),
        proxy_port: 80,
        localhost: Some("127.0.0.1".to_string()),
        limit: None,
    });
    c.goto.push(hbproxy::entity::ProxyGoto {
        proxy_host: "edge2".to_string(),
        proxy_port: 81,
        localhost: None,
        limit: None,
    });
    engine.add_proxy(c, true).expect("added");
    let rep = engine.show_list();
    assert_eq!(rep.list.len(), 1);
    let it = &rep.list[0];
    assert_eq!(it.name, "r1");
    assert_eq!(it.remote, "0.0.0.0:9000");
    assert_eq!(it.status, RULE_STARTING);
    assert_eq!(it.proxystr(), "edge1(127.0.0.1):80,edge2:81");
    let single = engine.get_info(&"r1".to_string()).expect("found");
    assert_eq!(single.goto.len(), 2);
    assert!(engine.get_info(&"zz".to_string()).is_none());
}
