//! The node side of the control channel: the client keeps one outbound
//! connection to the server, answers heartbeats, and reacts to
//! control-code-1 notices by dialing locally and calling back.  The
//! decisions live here; the embedding binary owns the sockets, the clock
//! and the sleeps.

use vstd::prelude::*;

use crate::codec::{parse_conn_req, ConnReq, Message};
use crate::ids::ascii_string;
use crate::node::{heart_cmd, heart_message, time_ok, HEARTBEAT_TIMEOUT_MS};
use crate::util::{cmp_version, compare_version, dec_digits, fmt_u64, CompareVersion};

verus! {

/// How often the client offers a heartbeat of its own.
pub const HEART_INTERVAL_MS: u64 = 20_000;

/// The client's identity and what it learned of the server.
#[derive(Clone)]
pub struct NodeClientCfg {
    pub name: String,
    pub token: Option<String>,
    pub remote_version: String,
}

/// Whether the server is old enough to need the body-carrying callback
/// instead of the argument-carrying one.
pub fn is_old_remote(v: &String) -> (r: bool)
    ensures
        r == (cmp_version(v@, "0.2.3"@) == CompareVersion::Less || cmp_version(v@, "0.2.3"@)
            == CompareVersion::Equal),
{
    match compare_version(v, "0.2.3".to_owned()) {
        CompareVersion::Less => true,
        CompareVersion::Equal => true,
        _ => false,
    }
}

/// The node side of one control channel.
pub struct NodeClient {
    pub cfg: NodeClientCfg,
    /// The host dialed when a notice names none.
    pub connhost: String,
    /// Whether the server needs the old callback shape.
    pub isoldconn: bool,
    /// Whether the client is to wind down.
    pub stopping: bool,
    /// Silence from the server past this moment ends the client.
    pub deadline_ms: u64,
    /// When the next own heartbeat is due.
    pub heart_at_ms: u64,
    /// The outbound queue, front first.
    pub msgs: Vec<Message>,
}

impl NodeClient {
    /// A fresh client over a just-registered connection.
    pub fn new(cfg: NodeClientCfg, connhost: String, now: u64) -> (r: NodeClient)
        requires
            time_ok(now),
        ensures
            r.cfg.name@ == cfg.name@,
            r.connhost@ == connhost@,
            r.isoldconn == (cmp_version(cfg.remote_version@, "0.2.3"@) == CompareVersion::Less
                || cmp_version(cfg.remote_version@, "0.2.3"@) == CompareVersion::Equal),
            !r.stopping,
            r.deadline_ms == now + HEARTBEAT_TIMEOUT_MS,
            r.heart_at_ms == now + HEART_INTERVAL_MS,
            r.msgs@.len() == 0,
    {
        let isold = is_old_remote(&cfg.remote_version);
        NodeClient {
            cfg,
            connhost,
            isoldconn: isold,
            stopping: false,
            deadline_ms: now + HEARTBEAT_TIMEOUT_MS,
            heart_at_ms: now + HEART_INTERVAL_MS,
            msgs: Vec::new(),
        }
    }

    /// The periodic check: silence past the deadline stops the client; a
    /// due heartbeat goes to the front of the queue and the next one is
    /// scheduled.  Returns whether the client is now stopping.
    pub fn run_check(&mut self, now: u64) -> (stop: bool)
        requires
            time_ok(now),
        ensures
            final(self).stopping == (old(self).stopping || now >= old(self).deadline_ms),
            stop == final(self).stopping,
            now >= old(self).heart_at_ms ==> {
                &&& final(self).heart_at_ms == now + HEART_INTERVAL_MS
                &&& final(self).msgs@.len() == old(self).msgs@.len() + 1
                &&& final(self).msgs@ == seq![final(self).msgs@[0]].add(old(self).msgs@)
                &&& final(self).msgs@[0]@.control == 0
                &&& final(self).msgs@[0]@.cmds == Some(heart_cmd())
            },
            now < old(self).heart_at_ms ==> {
                &&& final(self).msgs@ == old(self).msgs@
                &&& final(self).heart_at_ms == old(self).heart_at_ms
            },
            final(self).cfg == old(self).cfg,
            final(self).deadline_ms == old(self).deadline_ms,
    {
        if now >= self.deadline_ms {
            self.stopping = true;
        }
        if now >= self.heart_at_ms {
            let m = heart_message();
            self.msgs.insert(0, m);
            self.heart_at_ms = now + HEART_INTERVAL_MS;
            proof {
                assert(self.msgs@ =~= seq![self.msgs@[0]].add(old(self).msgs@));
            }
        }
        self.stopping
    }

    /// Takes in one message from the server: a heartbeat reply resets the
    /// silence deadline; a control-code-1 notice with a well-formed body
    /// yields the rendezvous request to act on; anything else is ignored,
    /// and a notice whose body does not parse is dropped.
    pub fn on_msg(&mut self, m: Message, now: u64) -> (r: Option<ConnReq>)
        requires
            time_ok(now),
        ensures
            final(self).msgs@ == old(self).msgs@,
            final(self).cfg == old(self).cfg,
            final(self).stopping == old(self).stopping,
            m.control == 0 ==> final(self).deadline_ms == now + HEARTBEAT_TIMEOUT_MS && r is None,
            m.control != 0 ==> final(self).deadline_ms == old(self).deadline_ms,
            m.control == 1 ==> match (m@.bodys, r) {
                (Some(b), Some(req)) => parse_conn_req(b) == Some(req@),
                (Some(b), None) => parse_conn_req(b) is None,
                (None, x) => x is None,
            },
            m.control != 0 && m.control != 1 ==> r is None,
    {
        if m.control == 0 {
            self.deadline_ms = now + HEARTBEAT_TIMEOUT_MS;
            return None;
        }
        if m.control == 1 {
            return match m.bodys {
                None => None,
                Some(b) => crate::codec::decode_conn_req(&b),
            };
        }
        None
    }

    /// Hands out the next outbound message, front of the queue first.
    pub fn pop_msg(&mut self) -> (r: Option<Message>)
        ensures
            match r {
                Some(m) => {
                    &&& old(self).msgs@.len() > 0
                    &&& m == old(self).msgs@[0]
                    &&& final(self).msgs@ == old(self).msgs@.drop_first()
                },
                None => old(self).msgs@.len() == 0 && final(self).msgs@ == old(self).msgs@,
            },
            final(self).cfg == old(self).cfg,
            final(self).stopping == old(self).stopping,
            final(self).deadline_ms == old(self).deadline_ms,
            final(self).heart_at_ms == old(self).heart_at_ms,
    {
        if self.msgs.len() == 0 {
            return None;
        }
        let m = self.msgs.remove(0);
        proof {
            assert(self.msgs@ =~= old(self).msgs@.drop_first());
        }
        Some(m)
    }
}

/// The address a notice asks the node to dial: the override carried in the
/// request, or the client's default host, with the port appended.  An
/// override that is not ASCII yields nothing and the dial is reported
/// failed.
pub fn conn_addr(connhost: &String, req: &ConnReq) -> (r: Option<String>)
    ensures
        match req.host {
            None => r matches Some(a) && a@ == connhost@ + seq![':'] + dec_digits(
                req.port as nat,
            ),
            Some(h) => if forall|i: int| 0 <= i < h@.len() ==> h@[i] < 128 {
                r matches Some(a) && a@ == h@.map_values(|x: u8| x as char) + seq![':']
                    + dec_digits(req.port as nat)
            } else {
                r is None
            },
        },
{
    proof {
        reveal_strlit(":");
        assert(":"@ =~= seq![':']);
    }
    let mut s: String;
    match &req.host {
        None => {
            s = connhost.clone();
        },
        Some(h) => {
            let mut i: usize = 0;
            let n = h.len();
            while i < n
                invariant
                    req.host matches Some(hx) && hx == *h,
                    n == h@.len(),
                    0 <= i <= n,
                    forall|k: int| 0 <= k < i ==> h@[k] < 128,
                decreases n - i,
            {
                if h[i] >= 128 {
                    return None;
                }
                i = i + 1;
            }
            let hv = crate::codec::copy_range(h, 0, n);
            proof {
                assert(hv@ =~= h@);
            }
            s = ascii_string(hv);
        },
    }
    s.append(":");
    s.append(fmt_u64(req.port as u64).as_str());
    Some(s)
}

} // verus!
