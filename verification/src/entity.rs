//! Plain data carried across the management surface: registration bodies,
//! node listings, proxy-rule definitions, and the configuration file shapes.
//! The embedding binary serializes copies of these; here they are bare
//! values with verified conversions.

use vstd::prelude::*;

use crate::util::{
    dec_digits_i32, dec_val, fmt_i32, is_dec_i32, parse_addr, split_seq, AddrError,
};

verus! {

// ---------------------------------------------------------------------------
// Server configuration
// ---------------------------------------------------------------------------

/// The whole configuration file.
pub struct ServerConf {
    pub server: ServerInfoConf,
    pub api_server: Option<ApiServerInfoConf>,
}

/// The node-facing server's section.
pub struct ServerInfoConf {
    pub host: Option<String>,
    pub key: Option<String>,
    pub log_path: Option<String>,
    pub proxys_path: Option<String>,
    pub key_time_check: Option<bool>,
}

/// The management API's section.
pub struct ApiServerInfoConf {
    pub host: Option<String>,
    pub key: Option<String>,
}

impl Default for ServerConf {
    /// An empty configuration: no hosts, no keys, no paths.
    fn default() -> (r: Self)
        ensures
            r.server.host is None,
            r.server.key is None,
            r.server.log_path is None,
            r.server.proxys_path is None,
            r.server.key_time_check is None,
            r.api_server is None,
    {
        ServerConf {
            server: ServerInfoConf {
                host: None,
                key: None,
                log_path: None,
                proxys_path: None,
                key_time_check: None,
            },
            api_server: None,
        }
    }
}

// ---------------------------------------------------------------------------
// Registration and node listings
// ---------------------------------------------------------------------------

/// A node's registration request.
pub struct RegNodeReq {
    pub name: String,
    pub token: Option<String>,
    pub version: Option<String>,
}

/// The registration reply: the token that resumes this session.
pub struct RegNodeRep {
    pub token: String,
}

/// One row of the node listing.
pub struct NodeListIt {
    pub name: String,
    pub version: Option<String>,
    pub addrs: Option<String>,
    pub online: bool,
    pub online_times: u64,
    pub outline_times: Option<u64>,
}

/// The node listing.
pub struct NodeListRep {
    pub list: Vec<NodeListIt>,
}

/// The rendezvous request as the management surface carries it.
pub struct NodeConnMsg {
    pub name: String,
    pub xids: String,
    pub host: Option<String>,
    pub port: i32,
}

// ---------------------------------------------------------------------------
// Proxy targets and rule definitions
// ---------------------------------------------------------------------------

/// A per-direction rate limit, in KB/s.
#[derive(Clone, Copy, Debug, PartialEq, Eq, Structural)]
pub struct ProxyLimit {
    pub up: usize,
    pub down: usize,
}

/// One forwarding destination: a host (a node name, or a literal host for a
/// direct dial), a port, an optional host override for the node's local
/// dial, and an optional rate limit.
#[derive(Debug)]
pub struct ProxyGoto {
    pub proxy_host: String,
    pub proxy_port: i32,
    pub localhost: Option<String>,
    pub limit: Option<ProxyLimit>,
}

/// A request to relay through the first reachable of several destinations.
pub struct ProxyGotoReq {
    pub proxys: Vec<ProxyGoto>,
    pub origin_addr: Option<String>,
    pub name: Option<String>,
}

/// The body of a rule-add request.
pub struct RuleConfReq {
    pub name: Option<String>,
    pub bind_host: String,
    pub bind_port: i32,
    pub goto: Vec<RuleConfGoto>,
}

/// One destination within a rule-add request.
pub struct RuleConfGoto {
    pub proxy_host: String,
    pub proxy_port: i32,
    pub limit: Option<ProxyLimit>,
}

/// One row of the rule listing.
pub struct ProxyListIt {
    pub name: String,
    pub remote: String,
    pub goto: Vec<ProxyGoto>,
    pub status: i32,
    pub msg: Option<String>,
}

/// The rule listing.
pub struct ProxyListRep {
    pub list: Vec<ProxyListIt>,
}

// ---------------------------------------------------------------------------
// Small cloned views
// ---------------------------------------------------------------------------

/// The view of an optional string.
pub open spec fn opt_str_view(o: Option<String>) -> Option<Seq<char>> {
    match o {
        None => None,
        Some(s) => Some(s@),
    }
}

/// Clones an optional string, keeping its text.
pub fn clone_opt_string(o: &Option<String>) -> (r: Option<String>)
    ensures
        opt_str_view(r) == opt_str_view(*o),
{
    match o {
        None => None,
        Some(s) => Some(s.clone()),
    }
}

/// Clones an optional limit, keeping both rates.
pub fn clone_opt_limit(o: &Option<ProxyLimit>) -> (r: Option<ProxyLimit>)
    ensures
        r == *o,
{
    match o {
        None => None,
        Some(l) => Some(*l),
    }
}

/// Clones one destination, keeping every field.
pub fn clone_goto(g: &ProxyGoto) -> (r: ProxyGoto)
    ensures
        r.proxy_host@ == g.proxy_host@,
        r.proxy_port == g.proxy_port,
        opt_str_view(r.localhost) == opt_str_view(g.localhost),
        r.limit == g.limit,
{
    ProxyGoto {
        proxy_host: g.proxy_host.clone(),
        proxy_port: g.proxy_port,
        localhost: clone_opt_string(&g.localhost),
        limit: clone_opt_limit(&g.limit),
    }
}

// ---------------------------------------------------------------------------
// Configuration file shapes
// ---------------------------------------------------------------------------

/// One rule definition from the proxy configuration directory.
pub struct ProxyInfoConf {
    pub name: Option<String>,
    pub stop: Option<bool>,
    pub bind: String,
    pub proxys: Vec<ProxyInfoGoto>,
}

/// One destination within a rule definition: `host:port` text plus options.
pub struct ProxyInfoGoto {
    pub proxy: String,
    pub localhost: Option<String>,
    pub limit: Option<ProxyLimit>,
}

/// The host a destination dials when its `host:port` text leaves the host
/// empty.
pub open spec fn default_goto_host() -> Seq<char> {
    seq!['l', 'o', 'c', 'a', 'l', 'h', 'o', 's', 't']
}

/// Whether a destination's `host:port` text is acceptable: exactly one
/// colon, and a positive decimal port.
pub open spec fn goto_text_ok(p: Seq<char>) -> bool {
    let ps = split_seq(p, ':');
    ps.len() == 2 && is_dec_i32(ps[1]) && dec_val(ps[1]) > 0
}

/// The host named by a destination's text, with the empty host defaulted.
pub open spec fn goto_text_host(p: Seq<char>) -> Seq<char> {
    let ps = split_seq(p, ':');
    if ps[0].len() == 0 {
        default_goto_host()
    } else {
        ps[0]
    }
}

/// The port named by a destination's text.
pub open spec fn goto_text_port(p: Seq<char>) -> int {
    dec_val(split_seq(p, ':')[1])
}

impl ProxyInfoGoto {
    /// Turns this definition into a destination, defaulting an empty host to
    /// `localhost`.  Rejects text without exactly one colon, a port that is
    /// not plain decimal, and port zero.
    pub fn conv_proxy_goto(&self) -> (r: Result<ProxyGoto, AddrError>)
        ensures
            match r {
                Ok(g) => goto_text_ok(self.proxy@) && g.proxy_host@ == goto_text_host(self.proxy@)
                    && g.proxy_port as int == goto_text_port(self.proxy@) && opt_str_view(
                    g.localhost,
                ) == opt_str_view(self.localhost) && g.limit == self.limit,
                Err(e) => !goto_text_ok(self.proxy@) && e == goto_text_err(self.proxy@),
            },
    {
        let (host, port) = match parse_addr(self.proxy.as_str()) {
            Err(e) => {
                return Err(e);
            },
            Ok(v) => v,
        };
        let hosts = if host.as_str().unicode_len() == 0 {
            proof {
                reveal_strlit("localhost");
                assert("localhost"@ =~= default_goto_host());
            }
            "localhost".to_owned()
        } else {
            host
        };
        Ok(
            ProxyGoto {
                proxy_host: hosts,
                proxy_port: port,
                localhost: clone_opt_string(&self.localhost),
                limit: clone_opt_limit(&self.limit),
            },
        )
    }
}

/// Which error a destination's text draws.
pub open spec fn goto_text_err(p: Seq<char>) -> AddrError {
    let ps = split_seq(p, ':');
    if ps.len() != 2 {
        AddrError::Pieces
    } else if !is_dec_i32(ps[1]) {
        AddrError::Port
    } else {
        AddrError::PortZero
    }
}

/// The first definition in the list whose text is unacceptable, if any.
pub open spec fn first_bad_goto(gs: Seq<ProxyInfoGoto>) -> Option<int> {
    if exists|i: int| 0 <= i < gs.len() && !goto_text_ok(gs[i].proxy@) {
        Some(choose|i: int| 0 <= i < gs.len() && !goto_text_ok(#[trigger] gs[i].proxy@) && forall|
            j: int,
        | 0 <= j < i ==> goto_text_ok(#[trigger] gs[j].proxy@))
    } else {
        None
    }
}

/// The list's first unacceptable index is the one with acceptable text
/// everywhere before it.
pub proof fn lemma_first_bad_goto_at(gs: Seq<ProxyInfoGoto>, i: int)
    requires
        0 <= i < gs.len(),
        !goto_text_ok(gs[i].proxy@),
        forall|j: int| 0 <= j < i ==> goto_text_ok((#[trigger] gs[j]).proxy@),
    ensures
        first_bad_goto(gs) == Some(i),
{
    assert(exists|k: int| 0 <= k < gs.len() && !goto_text_ok(gs[k].proxy@));
    let c = choose|k: int|
        0 <= k < gs.len() && !goto_text_ok(#[trigger] gs[k].proxy@) && forall|j: int|
            0 <= j < k ==> goto_text_ok(#[trigger] gs[j].proxy@);
    assert(0 <= i < gs.len() && !goto_text_ok(#[trigger] gs[i].proxy@) && forall|j: int|
        0 <= j < i ==> goto_text_ok(#[trigger] gs[j].proxy@));
    assert(0 <= c < gs.len() && !goto_text_ok(gs[c].proxy@) && forall|j: int|
        0 <= j < c ==> goto_text_ok(#[trigger] gs[j].proxy@));
    if c < i {
        assert(goto_text_ok(gs[c].proxy@));
    }
    if c > i {
        assert(goto_text_ok(gs[i].proxy@));
    }
    assert(c == i);
}

impl ProxyInfoConf {
    /// Turns every destination of this definition into a `ProxyGoto`, in
    /// order.  The first unacceptable destination rejects the whole
    /// definition with its own error.
    pub fn convs_proxy_goto(&self) -> (r: Result<Vec<ProxyGoto>, AddrError>)
        ensures
            match r {
                Ok(ls) => {
                    &&& first_bad_goto(self.proxys@) is None
                    &&& ls@.len() == self.proxys@.len()
                    &&& forall|i: int|
                        0 <= i < ls@.len() ==> {
                            let p = (#[trigger] self.proxys@[i]).proxy@;
                            goto_text_ok(p) && ls@[i].proxy_host@ == goto_text_host(p)
                                && ls@[i].proxy_port as int == goto_text_port(p) && opt_str_view(
                                ls@[i].localhost,
                            ) == opt_str_view(self.proxys@[i].localhost) && ls@[i].limit
                                == self.proxys@[i].limit
                        }
                },
                Err(e) => {
                    &&& first_bad_goto(self.proxys@) matches Some(k)
                    &&& e == goto_text_err(
                        self.proxys@[first_bad_goto(self.proxys@)->0].proxy@,
                    )
                },
            },
    {
        let mut ls: Vec<ProxyGoto> = Vec::new();
        let mut i: usize = 0;
        while i < self.proxys.len()
            invariant
                0 <= i <= self.proxys@.len(),
                ls@.len() == i,
                forall|k: int|
                    0 <= k < i ==> {
                        let p = (#[trigger] self.proxys@[k]).proxy@;
                        goto_text_ok(p) && ls@[k].proxy_host@ == goto_text_host(p)
                            && ls@[k].proxy_port as int == goto_text_port(p) && opt_str_view(
                            ls@[k].localhost,
                        ) == opt_str_view(self.proxys@[k].localhost) && ls@[k].limit
                            == self.proxys@[k].limit
                    },
            decreases self.proxys@.len() - i,
        {
            match self.proxys[i].conv_proxy_goto() {
                Err(e) => {
                    proof {
                        lemma_first_bad_goto_at(self.proxys@, i as int);
                    }
                    return Err(e);
                },
                Ok(g) => {
                    ls.push(g);
                },
            }
            i = i + 1;
        }
        proof {
            if first_bad_goto(self.proxys@) is Some {
                let w = choose|k: int|
                    0 <= k < self.proxys@.len() && !goto_text_ok(
                        (#[trigger] self.proxys@[k]).proxy@,
                    );
                assert(goto_text_ok(self.proxys@[w].proxy@));
            }
        }
        Ok(ls)
    }
}

// ---------------------------------------------------------------------------
// Rule listing text
// ---------------------------------------------------------------------------

/// The text of one destination in a listing: `host(localhost):port`, the
/// parenthesis only when an override is set.
pub open spec fn goto_str_view(g: ProxyGoto) -> Seq<char> {
    g.proxy_host@ + (match g.localhost {
        None => Seq::<char>::empty(),
        Some(l) => seq!['('] + l@ + seq![')'],
    }) + seq![':'] + dec_digits_i32(g.proxy_port as int)
}

/// The listing text of a whole destination list, comma separated.
pub open spec fn proxystr_view(gs: Seq<ProxyGoto>) -> Seq<char>
    decreases gs.len(),
{
    if gs.len() == 0 {
        Seq::empty()
    } else if gs.len() == 1 {
        goto_str_view(gs[0])
    } else {
        goto_str_view(gs[0]) + seq![','] + proxystr_view(gs.drop_first())
    }
}

proof fn lemma_proxystr_push(gs: Seq<ProxyGoto>, g: ProxyGoto)
    ensures
        gs.len() == 0 ==> proxystr_view(gs.push(g)) == goto_str_view(g),
        gs.len() > 0 ==> proxystr_view(gs.push(g)) == proxystr_view(gs) + seq![',']
            + goto_str_view(g),
    decreases gs.len(),
{
    let whole = gs.push(g);
    if gs.len() == 0 {
        assert(whole.len() == 1);
        assert(whole[0] == g);
    } else {
        lemma_proxystr_push(gs.drop_first(), g);
        assert(whole.drop_first() =~= gs.drop_first().push(g));
        if gs.len() == 1 {
            assert(proxystr_view(whole) == goto_str_view(whole[0]) + seq![','] + proxystr_view(
                whole.drop_first(),
            ));
            assert(whole[0] == gs[0]);
        } else {
            assert(proxystr_view(whole) == goto_str_view(gs[0]) + seq![','] + proxystr_view(
                whole.drop_first(),
            ));
            assert(proxystr_view(gs) + seq![','] + goto_str_view(g) =~= goto_str_view(gs[0])
                + seq![','] + (proxystr_view(gs.drop_first()) + seq![','] + goto_str_view(g)));
        }
    }
}

impl ProxyListIt {
    /// Renders the destination list as comma-separated `host:port` entries,
    /// with any local override in parentheses.
    pub fn proxystr(&self) -> (r: String)
        ensures
            r@ == proxystr_view(self.goto@),
    {
        let mut out = String::new();
        let mut i: usize = 0;
        while i < self.goto.len()
            invariant
                0 <= i <= self.goto@.len(),
                out@ == proxystr_view(self.goto@.take(i as int)),
            decreases self.goto@.len() - i,
        {
            proof {
                reveal_strlit(",");
                reveal_strlit("(");
                reveal_strlit(")");
                reveal_strlit(":");
                assert(","@ =~= seq![',']);
                assert("("@ =~= seq!['(']);
                assert(")"@ =~= seq![')']);
                assert(":"@ =~= seq![':']);
            }
            if i > 0 {
                out.append(",");
            }
            let g = &self.goto[i];
            out.append(g.proxy_host.as_str());
            match &g.localhost {
                None => {},
                Some(l) => {
                    out.append("(");
                    out.append(l.as_str());
                    out.append(")");
                },
            }
            out.append(":");
            out.append(fmt_i32(g.proxy_port).as_str());
            proof {
                let done = self.goto@.take(i as int);
                lemma_proxystr_push(done, self.goto@[i as int]);
                assert(done.push(self.goto@[i as int]) =~= self.goto@.take(i + 1));
                assert(out@ =~= proxystr_view(self.goto@.take(i + 1)));
            }
            i = i + 1;
        }
        proof {
            assert(self.goto@.take(self.goto@.len() as int) =~= self.goto@);
        }
        out
    }
}

} // verus!
