//! The proxy-rule engine: a name-keyed table of rules.  It checks new
//! rules for name and port conflicts, adds and replaces them, starts and
//! stops them by name, renders the listing, and turns configuration-file
//! definitions into rules.

use vstd::prelude::*;

use crate::entity::{
    clone_goto, first_bad_goto, goto_text_err, goto_text_host, goto_text_ok, goto_text_port,
    opt_str_view, ProxyGoto, ProxyInfoConf, ProxyListIt, ProxyListRep,
};
use crate::ids::random_token;
use crate::rule::{RuleCfg, RuleError, RuleProxy, RULE_STARTING};
use crate::util::{
    dec_digits_i32, dec_val, fmt_i32, fmt_u64, is_dec_i32, parse_addr, split_seq, AddrError,
};

verus! {

/// What the conflict check says of a prospective rule.
#[derive(Clone, Copy, Debug, PartialEq, Eq, Structural)]
pub enum AddCheck {
    /// No conflict: the rule may be added.
    Accept,
    /// A rule that is not stopped already carries this name.
    NameConflict,
    /// A rule that is not stopped already binds this port.
    PortConflict,
}

/// Why an engine operation failed.
#[derive(Clone, Copy, Debug, PartialEq, Eq, Structural)]
pub enum EngineError {
    /// No rule under this name.
    NotFound,
    /// A rule must carry a name.
    EmptyName,
    /// The rule is already starting or running.
    Starting,
}

/// Whether the table holds a rule under this name.
pub open spec fn has_rule(rs: Seq<RuleProxy>, name: Seq<char>) -> bool {
    exists|i: int| 0 <= i < rs.len() && (#[trigger] rs[i]).cfg.name@ == name
}

/// The index of the rule under this name (unique under `rule_names_unique`).
pub open spec fn rule_at(rs: Seq<RuleProxy>, name: Seq<char>) -> int {
    choose|i: int| 0 <= i < rs.len() && (#[trigger] rs[i]).cfg.name@ == name
}

/// No two rules share a name, stopped or not.
pub open spec fn rule_names_unique(rs: Seq<RuleProxy>) -> bool {
    forall|i: int, j: int|
        0 <= i < j < rs.len() ==> (#[trigger] rs[i]).cfg.name@ != (#[trigger] rs[j]).cfg.name@
}

/// The table without the rule under this name; unchanged when absent.
pub open spec fn remove_rule(rs: Seq<RuleProxy>, name: Seq<char>) -> Seq<RuleProxy> {
    if has_rule(rs, name) {
        rs.remove(rule_at(rs, name))
    } else {
        rs
    }
}

/// Whether some rule that is not stopped carries this name.
pub open spec fn name_conflicts(rs: Seq<RuleProxy>, name: Seq<char>) -> bool {
    exists|i: int| 0 <= i < rs.len() && (#[trigger] rs[i]).running && rs[i].cfg.name@ == name
}

/// Whether some rule that is not stopped binds this port.
pub open spec fn port_conflicts(rs: Seq<RuleProxy>, port: i32) -> bool {
    exists|i: int| 0 <= i < rs.len() && (#[trigger] rs[i]).running && rs[i].cfg.bind_port == port
}

/// The conflict check: the name check comes first, then the port check.
pub open spec fn add_check_view(rs: Seq<RuleProxy>, name: Seq<char>, port: i32) -> AddCheck {
    if name_conflicts(rs, name) {
        AddCheck::NameConflict
    } else if port_conflicts(rs, port) {
        AddCheck::PortConflict
    } else {
        AddCheck::Accept
    }
}

/// Removing the rule under any name keeps the rest unique and in order.
proof fn lemma_remove_rule_gone(rs: Seq<RuleProxy>, name: Seq<char>)
    requires
        rule_names_unique(rs),
    ensures
        !has_rule(remove_rule(rs, name), name),
        rule_names_unique(remove_rule(rs, name)),
{
    if has_rule(rs, name) {
        let k = rule_at(rs, name);
        let rem = rs.remove(k);
        assert forall|i: int| 0 <= i < rem.len() implies (#[trigger] rem[i]).cfg.name@ != name by {
            let a0 = if i < k {
                i
            } else {
                i + 1
            };
            assert(rem[i] == rs[a0]);
            if a0 < k {
                assert(rs[a0].cfg.name@ != rs[k].cfg.name@);
            } else {
                assert(rs[k].cfg.name@ != rs[a0].cfg.name@);
            }
        }
        assert forall|a: int, b: int| 0 <= a < b < rem.len() implies (#[trigger] rem[a]).cfg.name@
            != (#[trigger] rem[b]).cfg.name@ by {
            let a0 = if a < k {
                a
            } else {
                a + 1
            };
            let b0 = if b < k {
                b
            } else {
                b + 1
            };
            assert(rem[a] == rs[a0] && rem[b] == rs[b0]);
            assert(rs[a0].cfg.name@ != rs[b0].cfg.name@);
        }
    }
}

/// The name-keyed table of proxy rules.
pub struct ProxyEngine {
    pub proxys: Vec<RuleProxy>,
}

impl ProxyEngine {
    /// One rule per name.
    pub open spec fn wf(self) -> bool {
        rule_names_unique(self.proxys@)
    }

    /// An empty engine.
    pub fn new() -> (r: ProxyEngine)
        ensures
            r.wf(),
            r.proxys@.len() == 0,
    {
        ProxyEngine { proxys: Vec::new() }
    }

    /// Looks a rule up by name.
    fn find_index(&self, name: &String) -> (r: Option<usize>)
        requires
            self.wf(),
        ensures
            match r {
                Some(i) => i < self.proxys@.len() && self.proxys@[i as int].cfg.name@ == name@
                    && has_rule(self.proxys@, name@) && i == rule_at(self.proxys@, name@),
                None => !has_rule(self.proxys@, name@),
            },
    {
        let mut i: usize = 0;
        while i < self.proxys.len()
            invariant
                self.wf(),
                0 <= i <= self.proxys@.len(),
                forall|k: int| 0 <= k < i ==> (#[trigger] self.proxys@[k]).cfg.name@ != name@,
            decreases self.proxys@.len() - i,
        {
            if self.proxys[i].cfg.name == *name {
                proof {
                    let w = rule_at(self.proxys@, name@);
                    assert(0 <= w < self.proxys@.len() && self.proxys@[w].cfg.name@ == name@);
                    assert(w == i as int);
                }
                return Some(i);
            }
            i = i + 1;
        }
        None
    }

    /// The conflict check on a prospective rule: a rule that is not
    /// stopped and shares the name conflicts; otherwise a rule that is not
    /// stopped and binds the same port conflicts, whatever its name.
    pub fn add_check(&self, cfg: &RuleCfg) -> (r: AddCheck)
        requires
            self.wf(),
        ensures
            r == add_check_view(self.proxys@, cfg.name@, cfg.bind_port),
    {
        let mut found_port = false;
        let mut i: usize = 0;
        while i < self.proxys.len()
            invariant
                self.wf(),
                0 <= i <= self.proxys@.len(),
                !name_conflicts(self.proxys@.take(i as int), cfg.name@),
                found_port == port_conflicts(self.proxys@.take(i as int), cfg.bind_port),
            decreases self.proxys@.len() - i,
        {
            let p = &self.proxys[i];
            if p.running {
                if p.cfg.name == cfg.name {
                    proof {
                        assert(name_conflicts(self.proxys@, cfg.name@));
                    }
                    return AddCheck::NameConflict;
                }
                if p.cfg.bind_port == cfg.bind_port {
                    found_port = true;
                }
            }
            proof {
                let t1 = self.proxys@.take(i + 1);
                assert forall|k: int|
                    0 <= k < t1.len() && (#[trigger] t1[k]).running && t1[k].cfg.name@
                        == cfg.name@ implies false by {
                    assert(t1[k] == self.proxys@[k]);
                    if k < i {
                        assert(!name_conflicts(self.proxys@.take(i as int), cfg.name@));
                        assert(self.proxys@.take(i as int)[k] == self.proxys@[k]);
                    }
                }
                if port_conflicts(self.proxys@.take(i as int), cfg.bind_port) {
                    let w = choose|k: int|
                        0 <= k < i && (#[trigger] self.proxys@.take(i as int)[k]).running
                            && self.proxys@.take(i as int)[k].cfg.bind_port == cfg.bind_port;
                    assert(t1[w].running && t1[w].cfg.bind_port == cfg.bind_port);
                }
                if self.proxys@[i as int].running && self.proxys@[i as int].cfg.bind_port
                    == cfg.bind_port {
                    assert(t1[i as int].running && t1[i as int].cfg.bind_port == cfg.bind_port);
                }
                if port_conflicts(t1, cfg.bind_port) {
                    let w = choose|k: int|
                        0 <= k < t1.len() && (#[trigger] t1[k]).running && t1[k].cfg.bind_port
                            == cfg.bind_port;
                    assert(t1[w] == self.proxys@[w]);
                    if w < i {
                        assert(self.proxys@.take(i as int)[w] == self.proxys@[w]);
                        assert(port_conflicts(self.proxys@.take(i as int), cfg.bind_port));
                    }
                }
            }
            i = i + 1;
        }
        proof {
            assert(self.proxys@.take(self.proxys@.len() as int) =~= self.proxys@);
        }
        if found_port {
            AddCheck::PortConflict
        } else {
            AddCheck::Accept
        }
    }

    /// Adds a rule, replacing and discarding any prior rule under the same
    /// name; the new rule starts at once unless asked to stay stopped.  A
    /// nameless rule is refused.
    pub fn add_proxy(&mut self, cfg: RuleCfg, stopd: bool) -> (r: Result<(), EngineError>)
        requires
            old(self).wf(),
        ensures
            final(self).wf(),
            match r {
                Ok(()) => {
                    &&& cfg.name@.len() > 0
                    &&& final(self).proxys@.len() >= 1
                    &&& final(self).proxys@.drop_last() == remove_rule(
                        old(self).proxys@,
                        cfg.name@,
                    )
                    &&& ({
                        let p = final(self).proxys@.last();
                        &&& p.cfg == cfg
                        &&& p.running == !stopd
                        &&& p.stat == RULE_STARTING
                        &&& !p.bound
                    })
                },
                Err(e) => cfg.name@.len() == 0 && e == EngineError::EmptyName && *final(self)
                    == *old(self),
            },
    {
        if cfg.name.as_str().is_empty() {
            return Err(EngineError::EmptyName);
        }
        match self.find_index(&cfg.name) {
            None => {},
            Some(i) => {
                proof {
                    lemma_remove_rule_gone(self.proxys@, cfg.name@);
                }
                self.proxys.remove(i);
            },
        }
        let ghost mid = self.proxys@;
        let mut rule = RuleProxy::new(cfg);
        if !stopd {
            let started = rule.start();
            proof {
                assert(started is Ok);
            }
        }
        proof {
            assert forall|a: int, b: int|
                0 <= a < b < mid.push(rule).len() implies (#[trigger] mid.push(rule)[a]).cfg.name@
                != (#[trigger] mid.push(rule)[b]).cfg.name@ by {
                if b < mid.len() {
                    assert(mid[a].cfg.name@ != mid[b].cfg.name@);
                } else {
                    assert(!has_rule(mid, rule.cfg.name@));
                    assert(mid.push(rule)[a] == mid[a]);
                }
            }
        }
        self.proxys.push(rule);
        proof {
            assert(self.proxys@.drop_last() =~= mid);
        }
        Ok(())
    }

    /// Starts the rule under this name.
    pub fn start(&mut self, name: &String) -> (r: Result<(), EngineError>)
        requires
            old(self).wf(),
        ensures
            final(self).wf(),
            !has_rule(old(self).proxys@, name@) ==> r == Err::<(), EngineError>(
                EngineError::NotFound,
            ) && *final(self) == *old(self),
            has_rule(old(self).proxys@, name@) ==> {
                let k = rule_at(old(self).proxys@, name@);
                let p = old(self).proxys@[k];
                if p.running {
                    r == Err::<(), EngineError>(EngineError::Starting) && final(self).proxys@
                        == old(self).proxys@
                } else {
                    r is Ok && final(self).proxys@ == old(self).proxys@.update(
                        k,
                        (RuleProxy { running: true, stat: RULE_STARTING, msgs: None, ..p }),
                    )
                }
            },
    {
        let i = match self.find_index(name) {
            None => {
                return Err(EngineError::NotFound);
            },
            Some(i) => i,
        };
        let mut p = self.proxys.remove(i);
        let res = p.start();
        self.proxys.insert(i, p);
        proof {
            assert(self.proxys@ =~= old(self).proxys@.update(i as int, self.proxys@[i as int]));
            assert forall|a: int, b: int|
                0 <= a < b < self.proxys@.len() implies (#[trigger] self.proxys@[a]).cfg.name@ != (
            #[trigger] self.proxys@[b]).cfg.name@ by {
                assert(old(self).proxys@[a].cfg.name@ != old(self).proxys@[b].cfg.name@);
            }
            if !old(self).proxys@[i as int].running {
                assert(self.proxys@ =~= old(self).proxys@.update(
                    i as int,
                    (RuleProxy {
                        running: true,
                        stat: RULE_STARTING,
                        msgs: None,
                        ..old(self).proxys@[i as int]
                    }),
                ));
            }
        }
        match res {
            Ok(()) => {
                proof {
                    assert(!old(self).proxys@[rule_at(old(self).proxys@, name@)].running);
                }
                Ok(())
            },
            Err(RuleError::Starting) => {
                proof {
                    assert(self.proxys@ =~= old(self).proxys@);
                }
                Err(EngineError::Starting)
            },
        }
    }

    /// Stops the rule under this name; relays in flight drain on their
    /// own.
    pub fn stop(&mut self, name: &String) -> (r: Result<(), EngineError>)
        requires
            old(self).wf(),
        ensures
            final(self).wf(),
            !has_rule(old(self).proxys@, name@) ==> r == Err::<(), EngineError>(
                EngineError::NotFound,
            ) && *final(self) == *old(self),
            has_rule(old(self).proxys@, name@) ==> {
                let k = rule_at(old(self).proxys@, name@);
                r is Ok && final(self).proxys@ == old(self).proxys@.update(
                    k,
                    (RuleProxy { running: false, ..old(self).proxys@[k] }),
                )
            },
    {
        let i = match self.find_index(name) {
            None => {
                return Err(EngineError::NotFound);
            },
            Some(i) => i,
        };
        let mut p = self.proxys.remove(i);
        p.stop();
        self.proxys.insert(i, p);
        proof {
            assert(self.proxys@ =~= old(self).proxys@.update(
                i as int,
                (RuleProxy { running: false, ..old(self).proxys@[i as int] }),
            ));
            assert forall|a: int, b: int|
                0 <= a < b < self.proxys@.len() implies (#[trigger] self.proxys@[a]).cfg.name@ != (
            #[trigger] self.proxys@[b]).cfg.name@ by {
                assert(old(self).proxys@[a].cfg.name@ != old(self).proxys@[b].cfg.name@);
            }
        }
        Ok(())
    }

    /// Drops the rule under this name, stopping it on the way out; an
    /// absent name fails with not-found.
    pub fn remove(&mut self, name: &String) -> (r: Result<(), EngineError>)
        requires
            old(self).wf(),
        ensures
            final(self).wf(),
            if has_rule(old(self).proxys@, name@) {
                r is Ok && final(self).proxys@ == remove_rule(old(self).proxys@, name@)
            } else {
                r == Err::<(), EngineError>(EngineError::NotFound) && *final(self) == *old(self)
            },
    {
        match self.find_index(name) {
            None => Err(EngineError::NotFound),
            Some(i) => {
                proof {
                    lemma_remove_rule_gone(self.proxys@, name@);
                }
                let mut p = self.proxys.remove(i);
                p.stop();
                Ok(())
            },
        }
    }

    /// Whether every rule has stopped; the reload drain polls this.
    pub fn all_stopd(&self) -> (r: bool)
        ensures
            r == (forall|i: int|
                0 <= i < self.proxys@.len() ==> !(#[trigger] self.proxys@[i]).running),
    {
        let mut i: usize = 0;
        while i < self.proxys.len()
            invariant
                0 <= i <= self.proxys@.len(),
                forall|k: int| 0 <= k < i ==> !(#[trigger] self.proxys@[k]).running,
            decreases self.proxys@.len() - i,
        {
            if self.proxys[i].running {
                return false;
            }
            i = i + 1;
        }
        true
    }

    /// Tells every rule to stop; the drain then waits for `all_stopd`.
    pub fn stop_all(&mut self)
        requires
            old(self).wf(),
        ensures
            final(self).wf(),
            final(self).proxys@.len() == old(self).proxys@.len(),
            forall|i: int|
                0 <= i < old(self).proxys@.len() ==> #[trigger] final(self).proxys@[i] == (
                RuleProxy { running: false, ..old(self).proxys@[i] }),
    {
        let n = self.proxys.len();
        let mut i: usize = 0;
        while i < n
            invariant
                n == self.proxys@.len() == old(self).proxys@.len(),
                0 <= i <= n,
                forall|k: int|
                    0 <= k < i ==> #[trigger] self.proxys@[k] == (RuleProxy {
                        running: false,
                        ..old(self).proxys@[k]
                    }),
                forall|k: int| i <= k < n ==> #[trigger] self.proxys@[k] == old(self).proxys@[k],
            decreases n - i,
        {
            let mut p = self.proxys.remove(i);
            p.stop();
            self.proxys.insert(i, p);
            proof {
                assert forall|k: int|
                    0 <= k < i + 1 implies #[trigger] self.proxys@[k] == (RuleProxy {
                    running: false,
                    ..old(self).proxys@[k]
                }) by {}
            }
            i = i + 1;
        }
        proof {
            assert forall|a: int, b: int|
                0 <= a < b < self.proxys@.len() implies (#[trigger] self.proxys@[a]).cfg.name@ != (
            #[trigger] self.proxys@[b]).cfg.name@ by {
                assert(old(self).proxys@[a].cfg.name@ != old(self).proxys@[b].cfg.name@);
            }
        }
    }

    /// Empties the table once the drain saw every rule stopped.
    pub fn clear(&mut self)
        ensures
            final(self).wf(),
            final(self).proxys@.len() == 0,
    {
        self.proxys.clear();
    }
}

/// The `host:port` text a listing shows for a rule's bind address.
pub open spec fn remote_view(cfg: RuleCfg) -> Seq<char> {
    cfg.bind_host@ + seq![':'] + dec_digits_i32(cfg.bind_port as int)
}

/// Whether one listing row reports this rule.
pub open spec fn rule_row_matches(p: RuleProxy, it: ProxyListIt) -> bool {
    &&& it.name@ == p.cfg.name@
    &&& it.remote@ == remote_view(p.cfg)
    &&& it.goto@.len() == p.cfg.goto@.len()
    &&& forall|j: int|
        0 <= j < p.cfg.goto@.len() ==> {
            let g = #[trigger] it.goto@[j];
            &&& g.proxy_host@ == p.cfg.goto@[j].proxy_host@
            &&& g.proxy_port == p.cfg.goto@[j].proxy_port
            &&& opt_str_view(g.localhost) == opt_str_view(p.cfg.goto@[j].localhost)
            &&& g.limit == p.cfg.goto@[j].limit
        }
    &&& it.status == p.stat
    &&& opt_str_view(it.msg) == opt_str_view(p.msgs)
}

/// Why a configuration-file definition was rejected.
#[derive(Clone, Copy, Debug, PartialEq, Eq, Structural)]
pub enum LoadError {
    /// The bind text does not split into exactly `host:port`.
    BindPieces,
    /// The bind port is not a plain decimal number in range.
    BindPort,
    /// The bind port parsed as zero.
    BindPortZero,
    /// A destination's text was rejected.
    Goto(AddrError),
    /// A rule that is not stopped already carries the name.
    NameExist,
    /// A rule that is not stopped already binds the port.
    PortExist,
    /// The definition names the rule with an empty string.
    EmptyName,
}

impl ProxyEngine {
    /// One listing row for the rule at index `i`.
    fn rule_row(&self, i: usize) -> (it: ProxyListIt)
        requires
            i < self.proxys@.len(),
        ensures
            rule_row_matches(self.proxys@[i as int], it),
    {
        proof {
            reveal_strlit(":");
            assert(":"@ =~= seq![':']);
        }
        let p = &self.proxys[i];
        let mut remote = p.cfg.bind_host.clone();
        remote.append(":");
        remote.append(fmt_i32(p.cfg.bind_port).as_str());
        let mut gs: Vec<ProxyGoto> = Vec::new();
        let mut j: usize = 0;
        while j < p.cfg.goto.len()
            invariant
                p == &self.proxys@[i as int],
                i < self.proxys@.len(),
                0 <= j <= p.cfg.goto@.len(),
                gs@.len() == j,
                forall|k: int|
                    0 <= k < j ==> {
                        let g = #[trigger] gs@[k];
                        &&& g.proxy_host@ == p.cfg.goto@[k].proxy_host@
                        &&& g.proxy_port == p.cfg.goto@[k].proxy_port
                        &&& opt_str_view(g.localhost) == opt_str_view(p.cfg.goto@[k].localhost)
                        &&& g.limit == p.cfg.goto@[k].limit
                    },
            decreases p.cfg.goto@.len() - j,
        {
            let g = clone_goto(&p.cfg.goto[j]);
            gs.push(g);
            j = j + 1;
        }
        ProxyListIt {
            name: p.cfg.name.clone(),
            remote,
            goto: gs,
            status: p.status(),
            msg: p.msg(),
        }
    }

    /// One listing row for the rule under this name, if any.
    pub fn get_info(&self, name: &String) -> (r: Option<ProxyListIt>)
        requires
            self.wf(),
        ensures
            match r {
                Some(it) => has_rule(self.proxys@, name@) && rule_row_matches(
                    self.proxys@[rule_at(self.proxys@, name@)],
                    it,
                ),
                None => !has_rule(self.proxys@, name@),
            },
    {
        let i = match self.find_index(name) {
            None => {
                return None;
            },
            Some(i) => i,
        };
        Some(self.rule_row(i))
    }

    /// The whole listing, one row per rule, in table order.
    pub fn show_list(&self) -> (r: ProxyListRep)
        requires
            self.wf(),
        ensures
            r.list@.len() == self.proxys@.len(),
            forall|i: int|
                0 <= i < self.proxys@.len() ==> rule_row_matches(
                    self.proxys@[i],
                    #[trigger] r.list@[i],
                ),
    {
        let mut list: Vec<ProxyListIt> = Vec::new();
        let mut i: usize = 0;
        while i < self.proxys.len()
            invariant
                0 <= i <= self.proxys@.len(),
                list@.len() == i,
                forall|k: int|
                    0 <= k < i ==> rule_row_matches(self.proxys@[k], #[trigger] list@[k]),
            decreases self.proxys@.len() - i,
        {
            let row = self.rule_row(i);
            list.push(row);
            i = i + 1;
        }
        ProxyListRep { list }
    }

    /// Turns one configuration-file definition into a rule and adds it: an
    /// empty bind host defaults to every interface, the destinations are
    /// parsed in order, a missing name is generated from the port and five
    /// random characters, conflicts are checked, and the rule starts
    /// unless the definition says to stay stopped.
    pub fn load_conf(&mut self, cfg: &ProxyInfoConf) -> (r: Result<String, LoadError>)
        requires
            old(self).wf(),
        ensures
            final(self).wf(),
            ({
                let ps = split_seq(cfg.bind@, ':');
                let bind_ok = ps.len() == 2 && is_dec_i32(ps[1]) && dec_val(ps[1]) > 0;
                let gotos_ok = forall|i: int|
                    0 <= i < cfg.proxys@.len() ==> goto_text_ok(
                        (#[trigger] cfg.proxys@[i]).proxy@,
                    );
                match r {
                    Ok(rname) => {
                        &&& bind_ok
                        &&& gotos_ok
                        &&& rname@.len() > 0
                        &&& (match opt_str_view(cfg.name) {
                            Some(n) => rname@ == n,
                            None => rname@.len() >= 6 && rname@[0] == 'b',
                        })
                        &&& !name_conflicts(old(self).proxys@, rname@)
                        &&& !port_conflicts(old(self).proxys@, dec_val(ps[1]) as i32)
                        &&& final(self).proxys@.drop_last() == remove_rule(
                            old(self).proxys@,
                            rname@,
                        )
                        &&& ({
                            let p = final(self).proxys@.last();
                            &&& p.cfg.name@ == rname@
                            &&& p.cfg.bind_host@ == (if ps[0].len() == 0 {
                                "0.0.0.0"@
                            } else {
                                ps[0]
                            })
                            &&& p.cfg.bind_port as int == dec_val(ps[1])
                            &&& p.cfg.goto@.len() == cfg.proxys@.len()
                            &&& forall|i: int|
                                0 <= i < cfg.proxys@.len() ==> {
                                    let g = #[trigger] p.cfg.goto@[i];
                                    let t = cfg.proxys@[i].proxy@;
                                    &&& g.proxy_host@ == goto_text_host(t)
                                    &&& g.proxy_port as int == goto_text_port(t)
                                    &&& opt_str_view(g.localhost) == opt_str_view(
                                        cfg.proxys@[i].localhost,
                                    )
                                    &&& g.limit == cfg.proxys@[i].limit
                                }
                            &&& p.running == !(cfg.stop == Some(true))
                            &&& p.stat == RULE_STARTING
                        })
                    },
                    Err(LoadError::BindPieces) => ps.len() != 2 && *final(self) == *old(self),
                    Err(LoadError::BindPort) => {
                        &&& ps.len() == 2
                        &&& !is_dec_i32(ps[1])
                        &&& *final(self) == *old(self)
                    },
                    Err(LoadError::BindPortZero) => {
                        &&& ps.len() == 2
                        &&& is_dec_i32(ps[1])
                        &&& dec_val(ps[1]) == 0
                        &&& *final(self) == *old(self)
                    },
                    Err(LoadError::Goto(e)) => {
                        &&& bind_ok
                        &&& first_bad_goto(cfg.proxys@) matches Some(k)
                        &&& e == goto_text_err(
                            cfg.proxys@[first_bad_goto(cfg.proxys@)->0].proxy@,
                        )
                        &&& *final(self) == *old(self)
                    },
                    Err(LoadError::NameExist) => {
                        &&& bind_ok
                        &&& gotos_ok
                        &&& (match opt_str_view(cfg.name) {
                            Some(n) => n.len() > 0 && name_conflicts(old(self).proxys@, n),
                            None => exists|i: int|
                                0 <= i < old(self).proxys@.len() && (#[trigger] old(
                                    self,
                                ).proxys@[i]).running,
                        })
                        &&& *final(self) == *old(self)
                    },
                    Err(LoadError::PortExist) => bind_ok && gotos_ok && port_conflicts(
                        old(self).proxys@,
                        dec_val(ps[1]) as i32,
                    ) && *final(self) == *old(self),
                    Err(LoadError::EmptyName) => bind_ok && gotos_ok && opt_str_view(cfg.name)
                        == Some(Seq::<char>::empty()) && *final(self) == *old(self),
                }
            }),
            ({
                let ps = split_seq(cfg.bind@, ':');
                let bind_ok = ps.len() == 2 && is_dec_i32(ps[1]) && dec_val(ps[1]) > 0;
                let gotos_ok = forall|i: int|
                    0 <= i < cfg.proxys@.len() ==> goto_text_ok(
                        (#[trigger] cfg.proxys@[i]).proxy@,
                    );
                ({
                    &&& bind_ok
                    &&& gotos_ok
                    &&& opt_str_view(cfg.name) matches Some(n)
                    &&& opt_str_view(cfg.name)->0.len() > 0
                    &&& name_conflicts(old(self).proxys@, opt_str_view(cfg.name)->0)
                }) ==> r == Err::<String, LoadError>(LoadError::NameExist)
            }),
    {
        let (bhost_raw, bport) = match parse_addr(cfg.bind.as_str()) {
            Err(AddrError::Pieces) => {
                return Err(LoadError::BindPieces);
            },
            Err(AddrError::Port) => {
                return Err(LoadError::BindPort);
            },
            Err(AddrError::PortZero) => {
                return Err(LoadError::BindPortZero);
            },
            Ok(v) => v,
        };
        let gotos = match cfg.convs_proxy_goto() {
            Err(e) => {
                return Err(LoadError::Goto(e));
            },
            Ok(v) => v,
        };
        let bind_host = if bhost_raw.as_str().is_empty() {
            proof {
                reveal_strlit("0.0.0.0");
            }
            "0.0.0.0".to_owned()
        } else {
            bhost_raw
        };
        let name = match &cfg.name {
            Some(n) => n.clone(),
            None => {
                proof {
                    reveal_strlit("b");
                    assert("b"@ =~= seq!['b']);
                }
                let mut s = "b".to_owned();
                s.append(fmt_u64(bport as u64).as_str());
                s.append(random_token(5).as_str());
                proof {
                    crate::util::lemma_dec_digits_nonempty(bport as nat);
                }
                s
            },
        };
        if name.as_str().is_empty() {
            return Err(LoadError::EmptyName);
        }
        let data = RuleCfg { name: name.clone(), bind_host, bind_port: bport, goto: gotos };
        match self.add_check(&data) {
            AddCheck::NameConflict => {
                return Err(LoadError::NameExist);
            },
            AddCheck::PortConflict => {
                return Err(LoadError::PortExist);
            },
            AddCheck::Accept => {},
        }
        let stopd = match &cfg.stop {
            Some(v) => *v,
            None => false,
        };
        match self.add_proxy(data, stopd) {
            Ok(()) => Ok(name),
            Err(_) => {
                proof {
                    assert(false);
                }
                Err(LoadError::EmptyName)
            },
        }
    }
}

/// Conflict checking (the add check): a rule that is not stopped and
/// shares the name draws the name conflict; with no such rule, one that is
/// not stopped and binds the same port draws the port conflict, whatever
/// name it carries; and with neither, the rule is accepted.
pub proof fn lemma_add_check_conflicts(rs: Seq<RuleProxy>, name: Seq<char>, port: i32)
    ensures
        name_conflicts(rs, name) ==> add_check_view(rs, name, port) == AddCheck::NameConflict,
        !name_conflicts(rs, name) && port_conflicts(rs, port) ==> add_check_view(rs, name, port)
            == AddCheck::PortConflict,
        !name_conflicts(rs, name) && !port_conflicts(rs, port) ==> add_check_view(rs, name, port)
            == AddCheck::Accept,
        forall|i: int|
            0 <= i < rs.len() && (#[trigger] rs[i]).running && rs[i].cfg.bind_port == port && rs[i].cfg.name@
                != name && !name_conflicts(rs, name) ==> add_check_view(rs, name, port)
                == AddCheck::PortConflict,
{
}

} // verus!
