//! The management surface's decisions: registration of nodes with token
//! checks, the rule-add validation, and the shared-secret gates.  The RPC
//! transport itself (argument extraction, response codes, connection
//! handover) stays with the embedding binary, which hands plain values in
//! and carries plain values out.

use vstd::prelude::*;

use vstd::utf8::encode_utf8;

use crate::auth::{auth_view, authed, AuthError};
use crate::entity::{
    clone_opt_string, opt_str_view, ProxyGoto, RegNodeReq, RuleConfReq,
};
use crate::ids::random_token;
use crate::node::{time_ok, HEARTBEAT_TIMEOUT_MS};
use crate::nodes::{has_node, node_at, reg_check_view, NodeEngine, RegCheck};
use crate::proxy::{name_conflicts, port_conflicts, remove_rule, AddCheck, ProxyEngine};
use crate::rule::{RuleCfg, RULE_STARTING};
use crate::util::fmt_u64;

verus! {

/// The early server's standalone configuration: one shared node key.
pub struct ServerConf {
    pub node_key: String,
}

impl ServerConf {
    /// The simple gate: an empty key admits everyone, otherwise the
    /// caller's `node_key` argument must match.
    pub fn authed(&self, key_arg: &Option<String>) -> (r: bool)
        ensures
            r == (self.node_key@.len() == 0 || (opt_str_view(*key_arg) == Some(
                self.node_key@,
            ))),
    {
        if self.node_key.as_str().is_empty() {
            return true;
        }
        match key_arg {
            None => false,
            Some(k) => *k == self.node_key,
        }
    }
}

/// What a registration call comes to.
pub enum NodeRegOutcome {
    /// The name is empty or does not fit the wire.
    NameErr,
    /// Another live session owns the name and the token does not match.
    TokenErr,
    /// Registered: the token issued to the node, and the replaced
    /// session's control connection handle, to be shut down.
    Registered { token: String, closed: Option<u64> },
}

/// Why a rule-add request was rejected.
#[derive(Clone, Copy, Debug, PartialEq, Eq, Structural)]
pub enum ProxyAddError {
    /// The bind host is empty.
    BindHost,
    /// The bind port is not positive.
    BindPort,
    /// A destination's host is empty.
    GotoHost,
    /// A destination's port is not positive.
    GotoPort,
    /// A rule that is not stopped already carries the name.
    NameExist,
    /// A rule that is not stopped already binds the port.
    PortExist,
    /// The request names the rule with an empty string.
    EmptyName,
}

/// Whether every destination of a rule-add request is acceptable.
pub open spec fn goto_reqs_ok(data: RuleConfReq) -> bool {
    forall|i: int|
        0 <= i < data.goto@.len() ==> (#[trigger] data.goto@[i]).proxy_host@.len() > 0
            && data.goto@[i].proxy_port > 0
}

/// Both engines, the secrets of the two listening surfaces, and the clock
/// check switch.
pub struct ServerCase {
    pub proxy: ProxyEngine,
    pub node: NodeEngine,
    pub keys: Option<String>,
    pub apikeys: Option<String>,
    pub time_check: bool,
}

impl ServerCase {
    /// Both engines sound.
    pub open spec fn wf(self) -> bool {
        self.node.wf() && self.proxy.wf()
    }

    /// A fresh server: empty registries, the given secrets.
    pub fn new(keys: Option<String>, apikeys: Option<String>, time_check: bool) -> (r: ServerCase)
        ensures
            r.wf(),
            r.node.nodes@.len() == 0,
            r.proxy.proxys@.len() == 0,
            opt_str_view(r.keys) == opt_str_view(keys),
            opt_str_view(r.apikeys) == opt_str_view(apikeys),
            r.time_check == time_check,
    {
        ServerCase {
            proxy: ProxyEngine::new(),
            node: NodeEngine::new(),
            keys,
            apikeys,
            time_check,
        }
    }

    /// The node surface's shared-secret gate.
    pub fn authed_server(
        &self,
        cmd: &str,
        times: &Option<String>,
        rands: &Option<String>,
        signs: &Option<String>,
        now_secs: i64,
    ) -> (r: Option<AuthError>)
        ensures
            r == auth_view(
                opt_str_view(self.keys),
                cmd@,
                opt_str_view(*times),
                opt_str_view(*rands),
                opt_str_view(*signs),
                now_secs as int,
                self.time_check,
            ),
    {
        authed(&self.keys, cmd, times, rands, signs, now_secs, self.time_check)
    }

    /// The management surface's shared-secret gate.
    pub fn authed_api(
        &self,
        cmd: &str,
        times: &Option<String>,
        rands: &Option<String>,
        signs: &Option<String>,
        now_secs: i64,
    ) -> (r: Option<AuthError>)
        ensures
            r == auth_view(
                opt_str_view(self.apikeys),
                cmd@,
                opt_str_view(*times),
                opt_str_view(*rands),
                opt_str_view(*signs),
                now_secs as int,
                self.time_check,
            ),
    {
        authed(&self.apikeys, cmd, times, rands, signs, now_secs, self.time_check)
    }

    /// One registration call: an empty (or oversized) name is turned away;
    /// a live session under the name with a different token keeps it; any
    /// other case issues a fresh 32-character token and registers the
    /// session, handing back the handle of any replaced control
    /// connection so the embedding binary shuts it.
    pub fn node_reg(
        &mut self,
        data: &RegNodeReq,
        conn: u64,
        peer: Option<String>,
        now: u64,
    ) -> (r: NodeRegOutcome)
        requires
            old(self).wf(),
            time_ok(now),
        ensures
            final(self).wf(),
            final(self).proxy == old(self).proxy,
            ({
                let name_bad = data.name@.len() == 0 || encode_utf8(data.name@).len() > 0xffff;
                let check = reg_check_view(
                    old(self).node.nodes@,
                    data.name@,
                    opt_str_view(data.token),
                    now,
                );
                match r {
                    NodeRegOutcome::NameErr => name_bad && final(self).node == old(self).node,
                    NodeRegOutcome::TokenErr => {
                        &&& !name_bad
                        &&& check == RegCheck::Conflict
                        &&& final(self).node == old(self).node
                    },
                    NodeRegOutcome::Registered { token, closed } => {
                        &&& !name_bad
                        &&& check != RegCheck::Conflict
                        &&& token@.len() == 32
                        &&& closed == (if has_node(old(self).node.nodes@, data.name@) {
                            Some(
                                old(self).node.nodes@[node_at(
                                    old(self).node.nodes@,
                                    data.name@,
                                )].conn,
                            )
                        } else {
                            None::<u64>
                        })
                        &&& final(self).node.nodes@.len() >= 1
                        &&& final(self).node.nodes@.drop_last() == crate::nodes::remove_node(
                            old(self).node.nodes@,
                            data.name@,
                        )
                        &&& ({
                            let e = final(self).node.nodes@.last();
                            &&& e.cfg.name@ == data.name@
                            &&& e.cfg.token@ == token@
                            &&& opt_str_view(e.cfg.version) == opt_str_view(data.version)
                            &&& e.conn == conn
                            &&& !e.shuted
                            &&& e.deadline_ms == now + HEARTBEAT_TIMEOUT_MS
                            &&& e.oln_time_ms == now
                        })
                    },
                }
            }),
    {
        if data.name.as_str().is_empty() {
            return NodeRegOutcome::NameErr;
        }
        if data.name.as_str().as_bytes().len() > 0xffff {
            proof {
                assert(encode_utf8(data.name@).len() > 0xffff);
            }
            return NodeRegOutcome::NameErr;
        }
        match self.node.reg_check(data, now) {
            RegCheck::Conflict => {
                return NodeRegOutcome::TokenErr;
            },
            _ => {},
        }
        let token = random_token(32);
        let cfg = crate::node::NodeServerCfg {
            id: String::new(),
            name: data.name.clone(),
            version: clone_opt_string(&data.version),
            token: token.clone(),
        };
        match self.node.register(cfg, conn, peer, now) {
            Ok(closed) => NodeRegOutcome::Registered { token, closed },
            Err(_) => {
                proof {
                    assert(false);
                }
                NodeRegOutcome::NameErr
            },
        }
    }

    /// One rule-add call: the bind address and every destination must name
    /// a host and a positive port; a missing rule name is generated from
    /// the bind port and five random characters; conflicts are checked and
    /// the rule starts at once.  Returns the rule's name.
    pub fn proxy_add(&mut self, data: &RuleConfReq) -> (r: Result<String, ProxyAddError>)
        requires
            old(self).wf(),
        ensures
            final(self).wf(),
            final(self).node == old(self).node,
            match r {
                Ok(rname) => {
                    &&& data.bind_host@.len() > 0
                    &&& data.bind_port > 0
                    &&& goto_reqs_ok(*data)
                    &&& rname@.len() > 0
                    &&& (match opt_str_view(data.name) {
                        Some(n) => rname@ == n,
                        None => rname@.len() >= 6 && rname@[0] == 'b',
                    })
                    &&& !name_conflicts(old(self).proxy.proxys@, rname@)
                    &&& !port_conflicts(old(self).proxy.proxys@, data.bind_port)
                    &&& final(self).proxy.proxys@.drop_last() == remove_rule(
                        old(self).proxy.proxys@,
                        rname@,
                    )
                    &&& ({
                        let p = final(self).proxy.proxys@.last();
                        &&& p.cfg.name@ == rname@
                        &&& p.cfg.bind_host@ == data.bind_host@
                        &&& p.cfg.bind_port == data.bind_port
                        &&& p.cfg.goto@.len() == data.goto@.len()
                        &&& forall|i: int|
                            0 <= i < data.goto@.len() ==> {
                                let g = #[trigger] p.cfg.goto@[i];
                                &&& g.proxy_host@ == data.goto@[i].proxy_host@
                                &&& g.proxy_port == data.goto@[i].proxy_port
                                &&& g.localhost is None
                                &&& g.limit == data.goto@[i].limit
                            }
                        &&& p.running
                        &&& p.stat == RULE_STARTING
                    })
                },
                Err(ProxyAddError::BindHost) => data.bind_host@.len() == 0 && *final(self)
                    == *old(self),
                Err(ProxyAddError::BindPort) => {
                    &&& data.bind_host@.len() > 0
                    &&& data.bind_port <= 0
                    &&& *final(self) == *old(self)
                },
                Err(ProxyAddError::GotoHost) => {
                    &&& !goto_reqs_ok(*data)
                    &&& *final(self) == *old(self)
                },
                Err(ProxyAddError::GotoPort) => {
                    &&& !goto_reqs_ok(*data)
                    &&& *final(self) == *old(self)
                },
                Err(ProxyAddError::NameExist) => {
                    &&& data.bind_host@.len() > 0
                    &&& data.bind_port > 0
                    &&& goto_reqs_ok(*data)
                    &&& (match opt_str_view(data.name) {
                        Some(n) => n.len() > 0 && name_conflicts(old(self).proxy.proxys@, n),
                        None => exists|i: int|
                            0 <= i < old(self).proxy.proxys@.len() && (#[trigger] old(
                                self,
                            ).proxy.proxys@[i]).running,
                    })
                    &&& *final(self) == *old(self)
                },
                Err(ProxyAddError::PortExist) => {
                    &&& port_conflicts(old(self).proxy.proxys@, data.bind_port)
                    &&& *final(self) == *old(self)
                },
                Err(ProxyAddError::EmptyName) => {
                    &&& opt_str_view(data.name) == Some(Seq::<char>::empty())
                    &&& *final(self) == *old(self)
                },
            },
            ({
                &&& data.bind_host@.len() > 0
                &&& data.bind_port > 0
                &&& goto_reqs_ok(*data)
                &&& opt_str_view(data.name) matches Some(n)
                &&& opt_str_view(data.name)->0.len() > 0
                &&& name_conflicts(old(self).proxy.proxys@, opt_str_view(data.name)->0)
            }) ==> r == Err::<String, ProxyAddError>(ProxyAddError::NameExist),
    {
        if data.bind_host.as_str().is_empty() {
            return Err(ProxyAddError::BindHost);
        }
        if data.bind_port <= 0 {
            return Err(ProxyAddError::BindPort);
        }
        let mut gotols: Vec<ProxyGoto> = Vec::new();
        let mut i: usize = 0;
        while i < data.goto.len()
            invariant
                *self == *old(self),
                self.wf(),
                0 <= i <= data.goto@.len(),
                gotols@.len() == i,
                forall|k: int|
                    0 <= k < i ==> {
                        let g = #[trigger] gotols@[k];
                        &&& g.proxy_host@ == data.goto@[k].proxy_host@
                        &&& g.proxy_port == data.goto@[k].proxy_port
                        &&& g.localhost is None
                        &&& g.limit == data.goto@[k].limit
                    },
                forall|k: int|
                    0 <= k < i ==> (#[trigger] data.goto@[k]).proxy_host@.len() > 0
                        && data.goto@[k].proxy_port > 0,
            decreases data.goto@.len() - i,
        {
            let gov = &data.goto[i];
            if gov.proxy_host.as_str().is_empty() {
                return Err(ProxyAddError::GotoHost);
            }
            if gov.proxy_port <= 0 {
                return Err(ProxyAddError::GotoPort);
            }
            gotols.push(
                ProxyGoto {
                    proxy_host: gov.proxy_host.clone(),
                    proxy_port: gov.proxy_port,
                    localhost: None,
                    limit: crate::entity::clone_opt_limit(&gov.limit),
                },
            );
            i = i + 1;
        }
        let name = match &data.name {
            Some(n) => n.clone(),
            None => {
                proof {
                    reveal_strlit("b");
                    assert("b"@ =~= seq!['b']);
                    crate::util::lemma_dec_digits_nonempty(data.bind_port as nat);
                }
                let mut s = "b".to_owned();
                s.append(fmt_u64(data.bind_port as u64).as_str());
                s.append(random_token(5).as_str());
                s
            },
        };
        if name.as_str().is_empty() {
            return Err(ProxyAddError::EmptyName);
        }
        let cfg = RuleCfg {
            name: name.clone(),
            bind_host: data.bind_host.clone(),
            bind_port: data.bind_port,
            goto: gotols,
        };
        match self.proxy.add_check(&cfg) {
            AddCheck::NameConflict => {
                return Err(ProxyAddError::NameExist);
            },
            AddCheck::PortConflict => {
                return Err(ProxyAddError::PortExist);
            },
            AddCheck::Accept => {},
        }
        match self.proxy.add_proxy(cfg, false) {
            Ok(()) => Ok(name),
            Err(_) => {
                proof {
                    assert(false);
                }
                Err(ProxyAddError::EmptyName)
            },
        }
    }
}

/// Whether a rendezvous callback carries usable parameters.
pub fn conn_params_ok(name: &String, xids: &String) -> (r: bool)
    ensures
        r == (name@.len() > 0 && xids@.len() > 0),
{
    !name.as_str().is_empty() && !xids.as_str().is_empty()
}

} // verus!
