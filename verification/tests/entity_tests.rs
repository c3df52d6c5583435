use hbproxy::entity::{ProxyInfoConf, ProxyInfoGoto, ServerConf};
use hbproxy::util::AddrError;

#[test]
fn default_conf_is_empty() {
    let c = ServerConf::default();
    assert!(c.server.host.is_none());
    assert!(c.server.key.is_none());
    assert!(c.server.log_path.is_none());
    assert!(c.server.proxys_path.is_none());
    assert!(c.server.key_time_check.is_none());
    assert!(c.api_server.is_none());
}

fn goto(text: &str) -> ProxyInfoGoto {
    ProxyInfoGoto { proxy: text.to_string(), localhost: Some("127.0.0.1".to_string()), limit: None }
}

#[test]
fn goto_conversion() {
    let g = goto("edge1:80").conv_proxy_goto().expect("converts");
    assert_eq!(g.proxy_host, "edge1");
    assert_eq!(g.proxy_port, 80);
    assert_eq!(g.localhost.as_deref(), Some("127.0.0.1"));
    let g = goto(":80").conv_proxy_goto().expect("converts");
    assert_eq!(g.proxy_host, "localhost");
    assert_eq!(goto("edge1").conv_proxy_goto().unwrap_err(), AddrError::Pieces);
    assert_eq!(goto("e:x").conv_proxy_goto().unwrap_err(), AddrError::Port);
    assert_eq!(goto("e:0").conv_proxy_goto().unwrap_err(), AddrError::PortZero);
}

#[test]
fn goto_list_conversion_stops_at_first_bad() {
    let conf = ProxyInfoConf {
        name: None,
        stop: None,
        bind: ":9000".to_string(),
        proxys: vec![goto("a:1"), goto("bad"), goto("b:2")],
    };
    assert_eq!(conf.convs_proxy_goto().unwrap_err(), AddrError::Pieces);
    let good = ProxyInfoConf { proxys: vec![goto("a:1"), goto("b:2")], ..conf };
    let ls = good.convs_proxy_goto().expect("converts");
    assert_eq!(ls.len(), 2);
    assert_eq!(ls[0].proxy_host, "a");
    assert_eq!(ls[1].proxy_port, 2);
}
