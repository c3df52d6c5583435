//! The node registry: a name-keyed table of sessions.  It validates
//! registrations against the one-session-per-name rule, replaces stale
//! sessions, tracks liveness, and routes rendezvous deliveries to the
//! session that asked.

use vstd::prelude::*;

use vstd::utf8::encode_utf8;

use crate::entity::{clone_opt_string, opt_str_view, NodeListIt, NodeListRep};
use crate::node::{
    has_wait, set_wait, time_ok, NodeServer, NodeServerCfg, WaitError, HEARTBEAT_TIMEOUT_MS,
};

verus! {

/// What a registration attempt may do, per the token check.
#[derive(Clone, Copy, Debug, PartialEq, Eq, Structural)]
pub enum RegCheck {
    /// No session under this name: register freely.
    Fresh,
    /// A session exists but is offline, or the caller holds its token:
    /// replacing it resumes the logical session.
    ReplaceOk,
    /// Another live session owns the name and the token does not match:
    /// the caller must be turned away.
    Conflict,
}

/// Why a registration was rejected outright.
#[derive(Clone, Copy, Debug, PartialEq, Eq, Structural)]
pub enum RegError {
    /// The name is empty.
    EmptyName,
    /// The name does not fit the control channel's length field.
    NameTooLong,
}

/// Why a lookup failed.
#[derive(Clone, Copy, Debug, PartialEq, Eq, Structural)]
pub enum FindError {
    /// No session under this name is online.
    NotFound,
}

/// Whether the table holds a session under this name.
pub open spec fn has_node(ns: Seq<NodeServer>, name: Seq<char>) -> bool {
    exists|i: int| 0 <= i < ns.len() && (#[trigger] ns[i]).cfg.name@ == name
}

/// The index of the session under this name (unique under `names_unique`).
pub open spec fn node_at(ns: Seq<NodeServer>, name: Seq<char>) -> int {
    choose|i: int| 0 <= i < ns.len() && (#[trigger] ns[i]).cfg.name@ == name
}

/// No two sessions share a name.
pub open spec fn names_unique(ns: Seq<NodeServer>) -> bool {
    forall|i: int, j: int|
        0 <= i < j < ns.len() ==> (#[trigger] ns[i]).cfg.name@ != (#[trigger] ns[j]).cfg.name@
}

/// The table without the session under this name; unchanged when absent.
pub open spec fn remove_node(ns: Seq<NodeServer>, name: Seq<char>) -> Seq<NodeServer> {
    if has_node(ns, name) {
        ns.remove(node_at(ns, name))
    } else {
        ns
    }
}

/// The token check on a registration attempt, against the table at `now`.
pub open spec fn reg_check_view(
    ns: Seq<NodeServer>,
    name: Seq<char>,
    token: Option<Seq<char>>,
    now: u64,
) -> RegCheck {
    if !has_node(ns, name) {
        RegCheck::Fresh
    } else {
        let e = ns[node_at(ns, name)];
        if !e.online_at(now) {
            RegCheck::ReplaceOk
        } else {
            match token {
                Some(t) => if t == e.cfg.token@ {
                    RegCheck::ReplaceOk
                } else {
                    RegCheck::Conflict
                },
                None => RegCheck::Conflict,
            }
        }
    }
}

/// The lookup: the session under this name, but only while it is online.
pub open spec fn find_view(ns: Seq<NodeServer>, name: Seq<char>, now: u64) -> Option<int> {
    if has_node(ns, name) && ns[node_at(ns, name)].online_at(now) {
        Some(node_at(ns, name))
    } else {
        None
    }
}

/// Removing the session under any name keeps the rest and their order.
proof fn lemma_remove_node_gone(ns: Seq<NodeServer>, name: Seq<char>)
    requires
        names_unique(ns),
    ensures
        !has_node(remove_node(ns, name), name),
        names_unique(remove_node(ns, name)),
{
    if has_node(ns, name) {
        let k = node_at(ns, name);
        let rem = ns.remove(k);
        assert forall|i: int| 0 <= i < rem.len() implies (#[trigger] rem[i]).cfg.name@ != name by {
            let a0 = if i < k {
                i
            } else {
                i + 1
            };
            assert(rem[i] == ns[a0]);
            if a0 < k {
                assert(ns[a0].cfg.name@ != ns[k].cfg.name@);
            } else {
                assert(ns[k].cfg.name@ != ns[a0].cfg.name@);
            }
        }
        assert forall|a: int, b: int| 0 <= a < b < rem.len() implies (#[trigger] rem[a]).cfg.name@
            != (#[trigger] rem[b]).cfg.name@ by {
            let a0 = if a < k {
                a
            } else {
                a + 1
            };
            let b0 = if b < k {
                b
            } else {
                b + 1
            };
            assert(rem[a] == ns[a0] && rem[b] == ns[b0]);
            assert(ns[a0].cfg.name@ != ns[b0].cfg.name@);
        }
    }
}

/// The name-keyed table of node sessions.
pub struct NodeEngine {
    pub nodes: Vec<NodeServer>,
}

impl NodeEngine {
    /// Sessions well formed, one per name.
    pub open spec fn wf(self) -> bool {
        &&& names_unique(self.nodes@)
        &&& forall|i: int| 0 <= i < self.nodes@.len() ==> (#[trigger] self.nodes@[i]).wf()
    }

    /// An empty registry.
    pub fn new() -> (r: NodeEngine)
        ensures
            r.wf(),
            r.nodes@.len() == 0,
    {
        NodeEngine { nodes: Vec::new() }
    }

    /// Looks a session up by name.
    fn find_index(&self, name: &String) -> (r: Option<usize>)
        requires
            self.wf(),
        ensures
            match r {
                Some(i) => i < self.nodes@.len() && self.nodes@[i as int].cfg.name@ == name@
                    && has_node(self.nodes@, name@) && i == node_at(self.nodes@, name@),
                None => !has_node(self.nodes@, name@),
            },
    {
        let mut i: usize = 0;
        while i < self.nodes.len()
            invariant
                self.wf(),
                0 <= i <= self.nodes@.len(),
                forall|k: int| 0 <= k < i ==> (#[trigger] self.nodes@[k]).cfg.name@ != name@,
            decreases self.nodes@.len() - i,
        {
            if self.nodes[i].cfg.name == *name {
                proof {
                    let w = node_at(self.nodes@, name@);
                    assert(0 <= w < self.nodes@.len() && self.nodes@[w].cfg.name@ == name@);
                    assert(w == i as int);
                }
                return Some(i);
            }
            i = i + 1;
        }
        None
    }

    /// The token check of a registration attempt: fresh name, rightful
    /// resumption, or conflict with the live owner of the name.
    pub fn reg_check(&self, data: &crate::entity::RegNodeReq, now: u64) -> (r: RegCheck)
        requires
            self.wf(),
        ensures
            r == reg_check_view(self.nodes@, data.name@, opt_str_view(data.token), now),
    {
        let i = match self.find_index(&data.name) {
            None => {
                return RegCheck::Fresh;
            },
            Some(i) => i,
        };
        if !self.nodes[i].online(now) {
            return RegCheck::ReplaceOk;
        }
        match &data.token {
            Some(t) => {
                if *t == self.nodes[i].cfg.token {
                    RegCheck::ReplaceOk
                } else {
                    RegCheck::Conflict
                }
            },
            None => RegCheck::Conflict,
        }
    }

    /// Registers a session: any prior session under the name leaves the
    /// table and its control connection's handle comes back to be shut
    /// down; the new session enters with a fresh id and a full heartbeat
    /// window.  An empty name, or one too long for the control channel's
    /// length field, is rejected.
    pub fn register(
        &mut self,
        cfg: NodeServerCfg,
        conn: u64,
        peer: Option<String>,
        now: u64,
    ) -> (r: Result<Option<u64>, RegError>)
        requires
            old(self).wf(),
            time_ok(now),
        ensures
            final(self).wf(),
            match r {
                Ok(closed) => {
                    &&& cfg.name@.len() > 0
                    &&& encode_utf8(cfg.name@).len() <= 0xffff
                    &&& closed == (if has_node(old(self).nodes@, cfg.name@) {
                        Some(old(self).nodes@[node_at(old(self).nodes@, cfg.name@)].conn)
                    } else {
                        None::<u64>
                    })
                    &&& final(self).nodes@.len() >= 1
                    &&& final(self).nodes@.drop_last() == remove_node(
                        old(self).nodes@,
                        cfg.name@,
                    )
                    &&& ({
                        let e = final(self).nodes@.last();
                        &&& e.cfg.name@ == cfg.name@
                        &&& e.cfg.token@ == cfg.token@
                        &&& opt_str_view(e.cfg.version) == opt_str_view(cfg.version)
                        &&& e.cfg.id@.len() == 20
                        &&& e.conn == conn
                        &&& opt_str_view(e.peer) == opt_str_view(peer)
                        &&& !e.shuted
                        &&& !e.stopping
                        &&& e.deadline_ms == now + HEARTBEAT_TIMEOUT_MS
                        &&& e.oln_time_ms == now
                        &&& e.otln_time_ms is None
                        &&& e.msgs@.len() == 0
                        &&& e.waits@.len() == 0
                    })
                },
                Err(RegError::EmptyName) => cfg.name@.len() == 0 && *final(self) == *old(self),
                Err(RegError::NameTooLong) => cfg.name@.len() > 0 && encode_utf8(cfg.name@).len()
                    > 0xffff && *final(self) == *old(self),
            },
    {
        if cfg.name.as_str().is_empty() {
            return Err(RegError::EmptyName);
        }
        if cfg.name.as_str().as_bytes().len() > 0xffff {
            proof {
                assert(encode_utf8(cfg.name@).len() > 0xffff);
            }
            return Err(RegError::NameTooLong);
        }
        let closed = match self.find_index(&cfg.name) {
            None => None,
            Some(i) => {
                proof {
                    lemma_remove_node_gone(self.nodes@, cfg.name@);
                }
                let old_node = self.nodes.remove(i);
                Some(old_node.conn)
            },
        };
        let ghost mid = self.nodes@;
        let e = NodeServer::new(cfg, conn, peer, now);
        proof {
            assert forall|a: int, b: int|
                0 <= a < b < mid.push(e).len() implies (#[trigger] mid.push(e)[a]).cfg.name@ != (
            #[trigger] mid.push(e)[b]).cfg.name@ by {
                if b < mid.len() {
                    assert(mid[a].cfg.name@ != mid[b].cfg.name@);
                } else {
                    assert(!has_node(mid, e.cfg.name@));
                    assert(mid.push(e)[a] == mid[a]);
                }
            }
        }
        self.nodes.push(e);
        proof {
            assert(self.nodes@.drop_last() =~= mid);
        }
        Ok(closed)
    }

    /// Looks a node up for a rendezvous: found only while online.
    pub fn find_node(&self, name: &String, now: u64) -> (r: Result<usize, FindError>)
        requires
            self.wf(),
        ensures
            match r {
                Ok(i) => find_view(self.nodes@, name@, now) == Some(i as int),
                Err(FindError::NotFound) => find_view(self.nodes@, name@, now) is None,
            },
    {
        match self.find_index(name) {
            None => Err(FindError::NotFound),
            Some(i) => {
                if self.nodes[i].online(now) {
                    Ok(i)
                } else {
                    Err(FindError::NotFound)
                }
            },
        }
    }

    /// Routes a rendezvous delivery to the session that asked.  A missing
    /// node swallows the delivery, as a missing request id does not: the
    /// caller drops the connection either way.
    pub fn put_conn(&mut self, name: &String, xids: &String, conn: Option<u64>) -> (r: Result<
        (),
        WaitError,
    >)
        requires
            old(self).wf(),
        ensures
            final(self).wf(),
            !has_node(old(self).nodes@, name@) ==> *final(self) == *old(self) && r is Ok,
            has_node(old(self).nodes@, name@) ==> {
                let k = node_at(old(self).nodes@, name@);
                let e = old(self).nodes@[k];
                &&& final(self).nodes@ == old(self).nodes@.update(
                    k,
                    (NodeServer { waits: final(self).nodes@[k].waits, ..e }),
                )
                &&& final(self).nodes@[k].waits@ == set_wait(e.waits@, xids@, conn)
                &&& r == (if has_wait(e.waits@, xids@) {
                    Ok::<(), WaitError>(())
                } else {
                    Err::<(), WaitError>(WaitError::Expired)
                })
            },
    {
        let i = match self.find_index(name) {
            None => {
                return Ok(());
            },
            Some(i) => i,
        };
        let mut e = self.nodes.remove(i);
        let r = e.put_conn(xids, conn);
        self.nodes.insert(i, e);
        proof {
            assert(self.nodes@ =~= old(self).nodes@.update(
                i as int,
                (NodeServer { waits: self.nodes@[i as int].waits, ..old(self).nodes@[i as int] }),
            ));
            assert forall|a: int, b: int|
                0 <= a < b < self.nodes@.len() implies (#[trigger] self.nodes@[a]).cfg.name@ != (
            #[trigger] self.nodes@[b]).cfg.name@ by {
                assert(old(self).nodes@[a].cfg.name@ != old(self).nodes@[b].cfg.name@);
            }
        }
        r
    }

    /// Drops the session under this name, but only while the given session
    /// id still owns it — a session replaced since then stays.  Returns the
    /// control connection handle to shut down.
    pub fn remove(&mut self, name: &String, id: &String) -> (r: Option<u64>)
        requires
            old(self).wf(),
        ensures
            final(self).wf(),
            ({
                let had = has_node(old(self).nodes@, name@) && old(self).nodes@[node_at(
                    old(self).nodes@,
                    name@,
                )].cfg.id@ == id@;
                if had {
                    &&& final(self).nodes@ == remove_node(old(self).nodes@, name@)
                    &&& r == Some(old(self).nodes@[node_at(old(self).nodes@, name@)].conn)
                } else {
                    &&& *final(self) == *old(self)
                    &&& r is None
                }
            }),
    {
        let i = match self.find_index(name) {
            None => {
                return None;
            },
            Some(i) => i,
        };
        if !(self.nodes[i].cfg.id == *id) {
            return None;
        }
        proof {
            lemma_remove_node_gone(self.nodes@, name@);
        }
        let e = self.nodes.remove(i);
        Some(e.conn)
    }
}

/// How long a session has been online, in whole seconds: up to the moment
/// it went offline, or still counting; zero on a clock that ran backwards.
pub open spec fn online_secs_view(e: NodeServer, now: u64) -> u64 {
    let end = match e.otln_time_ms {
        None => now,
        Some(o) => o,
    };
    if end >= e.oln_time_ms {
        ((end - e.oln_time_ms) as u64) / 1000
    } else {
        0
    }
}

/// How long a session has been offline, in whole seconds; nothing while it
/// is online or was never marked offline.
pub open spec fn outline_secs_view(e: NodeServer, now: u64) -> Option<u64> {
    if !e.online_at(now) && e.otln_time_ms is Some && e.otln_time_ms->0 <= now {
        Some(((now - e.otln_time_ms->0) as u64) / 1000)
    } else {
        None
    }
}

/// The peer address a listing shows: only while the connection stands.
pub open spec fn addr_view(e: NodeServer) -> Option<Seq<char>> {
    if !e.shuted && e.peer is Some {
        Some(e.peer->0@)
    } else {
        None
    }
}

/// Whether one listing row reports this session at `now`.
pub open spec fn info_matches(e: NodeServer, now: u64, it: NodeListIt) -> bool {
    &&& it.name@ == e.cfg.name@
    &&& opt_str_view(it.version) == opt_str_view(e.cfg.version)
    &&& it.online == e.online_at(now)
    &&& it.online_times == online_secs_view(e, now)
    &&& it.outline_times == outline_secs_view(e, now)
    &&& opt_str_view(it.addrs) == addr_view(e)
}

impl NodeEngine {
    /// One listing row for the session under this name, if any: its
    /// liveness at `now`, its online and offline stretches, its address.
    pub fn get_info(&self, name: &String, now: u64) -> (r: Option<NodeListIt>)
        requires
            self.wf(),
        ensures
            match r {
                Some(it) => has_node(self.nodes@, name@) && info_matches(
                    self.nodes@[node_at(self.nodes@, name@)],
                    now,
                    it,
                ),
                None => !has_node(self.nodes@, name@),
            },
    {
        let i = match self.find_index(name) {
            None => {
                return None;
            },
            Some(i) => i,
        };
        Some(self.info_row(i, now))
    }

    /// Builds the listing row of the session at index `i`.
    fn info_row(&self, i: usize, now: u64) -> (it: NodeListIt)
        requires
            self.wf(),
            i < self.nodes@.len(),
        ensures
            info_matches(self.nodes@[i as int], now, it),
    {
        let e = &self.nodes[i];
        let online_times = match e.online_time_ms(now) {
            Some(ms) => ms / 1000,
            None => 0,
        };
        let outline_times = match e.outline_time_ms(now) {
            Some(ms) => Some(ms / 1000),
            None => None,
        };
        let addrs = match e.peer_addr() {
            Ok(a) => Some(a),
            Err(_) => None,
        };
        NodeListIt {
            name: e.cfg.name.clone(),
            version: clone_opt_string(&e.cfg.version),
            addrs,
            online: e.online(now),
            online_times,
            outline_times,
        }
    }

    /// The whole listing, one row per session, in table order.
    pub fn show_list(&self, now: u64) -> (r: NodeListRep)
        requires
            self.wf(),
        ensures
            r.list@.len() == self.nodes@.len(),
            forall|i: int|
                0 <= i < self.nodes@.len() ==> info_matches(
                    self.nodes@[i],
                    now,
                    #[trigger] r.list@[i],
                ),
    {
        let mut list: Vec<NodeListIt> = Vec::new();
        let mut i: usize = 0;
        while i < self.nodes.len()
            invariant
                self.wf(),
                0 <= i <= self.nodes@.len(),
                list@.len() == i,
                forall|k: int|
                    0 <= k < i ==> info_matches(self.nodes@[k], now, #[trigger] list@[k]),
            decreases self.nodes@.len() - i,
        {
            let row = self.info_row(i, now);
            list.push(row);
            i = i + 1;
        }
        NodeListRep { list }
    }
}

/// Registration of an unused name: the session enters the table whole, and
/// a lookup finds exactly it for as long as it stays online, and nothing
/// once it no longer is.
pub proof fn lemma_register_then_find(ns: Seq<NodeServer>, e: NodeServer, now: u64)
    requires
        names_unique(ns),
        !has_node(ns, e.cfg.name@),
    ensures
        ({
            let ns1 = ns.push(e);
            &&& names_unique(ns1)
            &&& find_view(ns1, e.cfg.name@, now) == (if e.online_at(now) {
                Some(ns.len() as int)
            } else {
                None::<int>
            })
            &&& e.online_at(now) ==> ns1[find_view(ns1, e.cfg.name@, now)->0] == e
        }),
{
    let ns1 = ns.push(e);
    assert(ns1[ns.len() as int] == e);
    assert(has_node(ns1, e.cfg.name@));
    assert forall|a: int, b: int| 0 <= a < b < ns1.len() implies (#[trigger] ns1[a]).cfg.name@ != (
    #[trigger] ns1[b]).cfg.name@ by {
        if b < ns.len() {
            assert(ns[a].cfg.name@ != ns[b].cfg.name@);
        } else {
            assert(ns1[a] == ns[a]);
        }
    }
    let k = node_at(ns1, e.cfg.name@);
    assert(0 <= k < ns1.len() && ns1[k].cfg.name@ == e.cfg.name@);
    if k < ns.len() {
        assert(ns1[k] == ns[k]);
        assert(has_node(ns, e.cfg.name@));
    }
    assert(k == ns.len() as int);
}

/// Re-registration of an online name: the wrong token (or none) draws a
/// conflict, the session's own token allows the replacement — and the
/// contract of `register` then surfaces exactly the old session's control
/// connection for closing.
pub proof fn lemma_reregister_token(
    ns: Seq<NodeServer>,
    name: Seq<char>,
    token: Option<Seq<char>>,
    now: u64,
)
    requires
        names_unique(ns),
        has_node(ns, name),
        ns[node_at(ns, name)].online_at(now),
    ensures
        ({
            let e = ns[node_at(ns, name)];
            &&& (reg_check_view(ns, name, token, now) == RegCheck::ReplaceOk <==> token == Some(
                e.cfg.token@,
            ))
            &&& (reg_check_view(ns, name, token, now) == RegCheck::Conflict <==> token != Some(
                e.cfg.token@,
            ))
        }),
{
}

} // verus!
