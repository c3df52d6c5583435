//! One remote agent's server-side session: its configuration and control
//! connection, the heartbeat deadline that decides liveness, the online and
//! offline clocks, the outbound message queue, and the table of in-flight
//! rendezvous requests.
//!
//! Time reaches this module only as an argument, in milliseconds; the
//! embedding binary reads the clock, performs the socket work, and sleeps
//! between polls.  Connections are carried as opaque numeric handles.

use vstd::prelude::*;

use vstd::utf8::{encode_utf8, is_ascii_chars, is_ascii_chars_concat, is_ascii_chars_encode_utf8};

use crate::codec::{conn_req_bytes, encode_conn_req, ConnReq, ConnReqView, Message};
use crate::entity::opt_str_view;
use crate::ids::{fresh_xid, random_token};
use crate::util::{fmt_u64, lemma_dec_digits_are_digits, lemma_dec_digits_len, pow10};

verus! {

/// How long a node may stay silent before it counts as offline.
pub const HEARTBEAT_TIMEOUT_MS: u64 = 30_000;

/// How long an offline session lingers in the registry before the reaper
/// may drop it.
pub const STALE_REMOVE_MS: u64 = 3_600_000;

/// The overall budget of one rendezvous wait.
pub const WAIT_CONN_TIMEOUT_MS: u64 = 10_000;

/// The pause between two polls of a rendezvous wait.
pub const WAIT_POLL_MS: u64 = 10;

/// The pause between two liveness checks of a session.
pub const CHECK_TICK_MS: u64 = 100;

/// Times too close to the end of the 64-bit millisecond range are not
/// accepted; every deadline this module computes then fits.
pub open spec fn time_ok(now: u64) -> bool {
    now <= 0x7fff_ffff_ffff_ffff
}

/// A session's identity, as issued at registration.
pub struct NodeServerCfg {
    pub id: String,
    pub name: String,
    pub version: Option<String>,
    pub token: String,
}

/// Where one rendezvous request stands.
#[derive(Clone, Copy, Debug, PartialEq, Eq, Structural)]
pub enum WaitState {
    Pending,
    Fulfilled,
    Failed,
}

/// One in-flight rendezvous request: its id, its state, and the delivered
/// connection handle once fulfilled.
pub struct WaitItem {
    pub xids: String,
    pub stat: WaitState,
    pub conn: Option<u64>,
}

impl WaitItem {
    /// A connection handle is present exactly on a fulfilled request.
    pub open spec fn wf(self) -> bool {
        (self.stat is Fulfilled) <==> (self.conn is Some)
    }
}

/// Whether the table holds a request with this id.
pub open spec fn has_wait(ws: Seq<WaitItem>, id: Seq<char>) -> bool {
    exists|i: int| 0 <= i < ws.len() && (#[trigger] ws[i]).xids@ == id
}

/// The index of the request with this id (unique under `waits_wf`).
pub open spec fn wait_at(ws: Seq<WaitItem>, id: Seq<char>) -> int {
    choose|i: int| 0 <= i < ws.len() && (#[trigger] ws[i]).xids@ == id
}

/// Every request well formed, and no two with the same id.
pub open spec fn waits_wf(ws: Seq<WaitItem>) -> bool {
    &&& forall|i: int| 0 <= i < ws.len() ==> (#[trigger] ws[i]).wf()
    &&& forall|i: int, j: int|
        0 <= i < j < ws.len() ==> (#[trigger] ws[i]).xids@ != (#[trigger] ws[j]).xids@
}

/// The table after the request with this id is resolved: fulfilled with a
/// handle, or failed.  Without the id the table stands unchanged.
pub open spec fn set_wait(ws: Seq<WaitItem>, id: Seq<char>, conn: Option<u64>) -> Seq<WaitItem> {
    if has_wait(ws, id) {
        let k = wait_at(ws, id);
        ws.update(
            k,
            WaitItem {
                stat: if conn is Some {
                    WaitState::Fulfilled
                } else {
                    WaitState::Failed
                },
                conn,
                ..ws[k]
            },
        )
    } else {
        ws
    }
}

/// The table without the request with this id; unchanged when absent.
pub open spec fn remove_wait(ws: Seq<WaitItem>, id: Seq<char>) -> Seq<WaitItem> {
    if has_wait(ws, id) {
        ws.remove(wait_at(ws, id))
    } else {
        ws
    }
}

/// What one poll of a rendezvous wait reports.
#[derive(Clone, Copy, Debug, PartialEq, Eq, Structural)]
pub enum WaitPoll {
    /// Nothing yet: sleep and poll again.
    Waiting,
    /// The node delivered this connection handle.
    Ready(u64),
    /// The node reported that its local dial failed.
    LocalErr,
    /// The budget ran out while still pending.
    TimedOut,
}

/// What a poll at `now` reports, given the wait table and the session's
/// stopping flag.
pub open spec fn poll_view(
    ws: Seq<WaitItem>,
    stopping: bool,
    id: Seq<char>,
    now: u64,
    deadline: u64,
) -> WaitPoll {
    if stopping || now >= deadline {
        WaitPoll::TimedOut
    } else if has_wait(ws, id) {
        let it = ws[wait_at(ws, id)];
        match it.stat {
            WaitState::Pending => WaitPoll::Waiting,
            WaitState::Fulfilled => WaitPoll::Ready(it.conn->0),
            WaitState::Failed => WaitPoll::LocalErr,
        }
    } else {
        WaitPoll::Waiting
    }
}

/// The wait table after that poll: every terminal outcome removes the
/// request; a pending poll leaves it.
pub open spec fn poll_waits(
    ws: Seq<WaitItem>,
    stopping: bool,
    id: Seq<char>,
    now: u64,
    deadline: u64,
) -> Seq<WaitItem> {
    match poll_view(ws, stopping, id, now, deadline) {
        WaitPoll::Waiting => ws,
        _ => remove_wait(ws, id),
    }
}

/// Why a rendezvous request could not be placed, or a delivery not taken.
#[derive(Clone, Copy, Debug, PartialEq, Eq, Structural)]
pub enum WaitError {
    /// No request with that id is pending (it timed out, or never was).
    Expired,
    /// The session is shutting down.
    CtxEnd,
    /// The control connection is already shut.
    Outline,
    /// The port is not positive.
    BadPort,
    /// A host override too long for the wire.
    HostTooLong,
    /// No unused request id found within the attempt bound.
    IdSpace,
}

/// Whether an optional host override fits the request body's 16-bit
/// length field.
pub open spec fn host_fits(host: Option<String>) -> bool {
    match host {
        None => true,
        Some(h) => encode_utf8(h@).len() <= 0xffff,
    }
}

/// The session after one liveness check at `now`: silence past the
/// heartbeat deadline shuts the connection, and an offline stretch past the
/// stale threshold marks the session stopping.
pub open spec fn check_view(e: NodeServer, now: u64) -> NodeServer {
    let closed = if !e.shuted && now >= e.deadline_ms {
        NodeServer { shuted: true, otln_time_ms: Some(now), ..e }
    } else {
        e
    };
    let stopped = closed.shuted && match closed.otln_time_ms {
        Some(o) => o <= now && now - o > STALE_REMOVE_MS,
        None => false,
    };
    NodeServer { stopping: closed.stopping || stopped, ..closed }
}

/// One node's server-side session.
pub struct NodeServer {
    pub cfg: NodeServerCfg,
    /// Handle of the control connection.
    pub conn: u64,
    /// The control connection's peer address, where known.
    pub peer: Option<String>,
    /// Whether the control connection has been shut down.
    pub shuted: bool,
    /// Whether the session's tasks have been told to end.
    pub stopping: bool,
    /// The heartbeat deadline: silence past it means offline.
    pub deadline_ms: u64,
    /// When this session came online.
    pub oln_time_ms: u64,
    /// When this session went offline, if it has.
    pub otln_time_ms: Option<u64>,
    /// The outbound control-channel queue, front first.
    pub msgs: Vec<Message>,
    /// The in-flight rendezvous requests.
    pub waits: Vec<WaitItem>,
}

/// The bytes of the heartbeat command.
pub open spec fn heart_cmd() -> Seq<u8> {
    seq![104u8, 101u8, 97u8, 114u8, 116u8]
}

/// A heartbeat message.
pub fn heart_message() -> (r: Message)
    ensures
        r@.control == 0,
        r@.cmds == Some(heart_cmd()),
        r@.heads is None,
        r@.bodys is None,
{
    let mut c: Vec<u8> = Vec::new();
    c.push(104u8);
    c.push(101u8);
    c.push(97u8);
    c.push(114u8);
    c.push(116u8);
    proof {
        assert(c@ =~= heart_cmd());
    }
    Message { control: 0, cmds: Some(c), heads: None, bodys: None }
}

impl NodeServer {
    /// The session's tables are consistent: requests well formed with
    /// unique ids, and the name short enough for the wire.
    pub open spec fn wf(self) -> bool {
        &&& waits_wf(self.waits@)
        &&& encode_utf8(self.cfg.name@).len() <= 0xffff
    }

    /// Whether the session counts as online at `now`.
    pub open spec fn online_at(self, now: u64) -> bool {
        !self.shuted && now < self.deadline_ms
    }

    /// Builds the session for a fresh registration: a new session id, the
    /// heartbeat deadline a full window away, online since now.
    pub fn new(cfg: NodeServerCfg, conn: u64, peer: Option<String>, now: u64) -> (r: NodeServer)
        requires
            time_ok(now),
            encode_utf8(cfg.name@).len() <= 0xffff,
        ensures
            r.wf(),
            r.cfg.id@.len() == 20,
            r.cfg.name@ == cfg.name@,
            opt_str_view(r.cfg.version) == opt_str_view(cfg.version),
            r.cfg.token@ == cfg.token@,
            r.conn == conn,
            opt_str_view(r.peer) == opt_str_view(peer),
            !r.shuted,
            !r.stopping,
            r.deadline_ms == now + HEARTBEAT_TIMEOUT_MS,
            r.oln_time_ms == now,
            r.otln_time_ms is None,
            r.msgs@.len() == 0,
            r.waits@.len() == 0,
    {
        let id = fresh_xid();
        NodeServer {
            cfg: NodeServerCfg { id, name: cfg.name, version: cfg.version, token: cfg.token },
            conn,
            peer,
            shuted: false,
            stopping: false,
            deadline_ms: now + HEARTBEAT_TIMEOUT_MS,
            oln_time_ms: now,
            otln_time_ms: None,
            msgs: Vec::new(),
            waits: Vec::new(),
        }
    }

    /// The session's configuration.
    pub fn conf(&self) -> (r: &NodeServerCfg)
        ensures
            r == &self.cfg,
    {
        &self.cfg
    }

    /// The control connection's peer address; an error once the connection
    /// is shut or where none was recorded.
    pub fn peer_addr(&self) -> (r: Result<String, WaitError>)
        ensures
            match r {
                Ok(a) => !self.shuted && self.peer is Some && a@ == self.peer->0@,
                Err(e) => (self.shuted || self.peer is None) && e == WaitError::Outline,
            },
    {
        if self.shuted {
            return Err(WaitError::Outline);
        }
        match &self.peer {
            None => Err(WaitError::Outline),
            Some(p) => Ok(p.clone()),
        }
    }

    /// Whether the session counts as online at `now`: not shut down and
    /// still inside the heartbeat window.
    pub fn online(&self, now: u64) -> (r: bool)
        ensures
            r == self.online_at(now),
    {
        !self.shuted && now < self.deadline_ms
    }

    /// Marks the control connection shut and remembers when, once.
    pub fn close(&mut self, now: u64)
        ensures
            *final(self) == (NodeServer {
                shuted: true,
                otln_time_ms: if old(self).shuted {
                    old(self).otln_time_ms
                } else {
                    Some(now)
                },
                ..*old(self)
            }),
    {
        if !self.shuted {
            self.otln_time_ms = Some(now);
            self.shuted = true;
        }
    }

    /// Ends the session: tells its tasks to stop and shuts the connection.
    pub fn stop(&mut self, now: u64)
        ensures
            *final(self) == (NodeServer {
                stopping: true,
                shuted: true,
                otln_time_ms: if old(self).shuted {
                    old(self).otln_time_ms
                } else {
                    Some(now)
                },
                ..*old(self)
            }),
    {
        self.stopping = true;
        self.close(now);
    }

    /// Takes in one control-channel message at `now`: any traffic resets
    /// the heartbeat deadline, and a heartbeat is answered at the front of
    /// the outbound queue.
    pub fn on_msg(&mut self, control: i32, now: u64)
        requires
            time_ok(now),
        ensures
            final(self).deadline_ms == now + HEARTBEAT_TIMEOUT_MS,
            control == 0 ==> {
                &&& final(self).msgs@.len() == old(self).msgs@.len() + 1
                &&& final(self).msgs@ == seq![final(self).msgs@[0]].add(old(self).msgs@)
                &&& final(self).msgs@[0]@.control == 0
                &&& final(self).msgs@[0]@.cmds == Some(heart_cmd())
            },
            control != 0 ==> final(self).msgs@ == old(self).msgs@,
            *final(self) == (NodeServer {
                deadline_ms: final(self).deadline_ms,
                msgs: final(self).msgs,
                ..*old(self)
            }),
    {
        self.deadline_ms = now + HEARTBEAT_TIMEOUT_MS;
        if control == 0 {
            let m = heart_message();
            self.msgs.insert(0, m);
            proof {
                assert(self.msgs@ =~= seq![self.msgs@[0]].add(old(self).msgs@));
            }
        }
    }

    /// Hands out the next outbound message, front of the queue first.
    pub fn pop_msg(&mut self) -> (r: Option<Message>)
        ensures
            match r {
                Some(m) => {
                    &&& old(self).msgs@.len() > 0
                    &&& m == old(self).msgs@[0]
                    &&& final(self).msgs@ == old(self).msgs@.drop_first()
                },
                None => old(self).msgs@.len() == 0 && final(self).msgs@ == old(self).msgs@,
            },
            *final(self) == (NodeServer { msgs: final(self).msgs, ..*old(self) }),
    {
        if self.msgs.len() == 0 {
            return None;
        }
        let m = self.msgs.remove(0);
        proof {
            assert(self.msgs@ =~= old(self).msgs@.drop_first());
        }
        Some(m)
    }

    /// The liveness check, run every tick: past the heartbeat deadline the
    /// connection is shut; an hour after going offline the session asks to
    /// be ended.  Returns whether the session is now stopping.
    pub fn run_check(&mut self, now: u64) -> (stop: bool)
        requires
            time_ok(now),
        ensures
            *final(self) == check_view(*old(self), now),
            stop == final(self).stopping,
    {
        if !self.shuted && now >= self.deadline_ms {
            self.close(now);
        }
        if self.shuted {
            match self.otln_time_ms {
                Some(o) => {
                    if o <= now && now - o > STALE_REMOVE_MS {
                        self.stopping = true;
                    }
                },
                None => {},
            }
        }
        self.stopping
    }

    /// How long the session has been online: up to now while it still is,
    /// else up to the moment it went offline.
    pub fn online_time_ms(&self, now: u64) -> (r: Option<u64>)
        ensures
            ({
                let end = match self.otln_time_ms {
                    None => now,
                    Some(o) => o,
                };
                r == if end >= self.oln_time_ms {
                    Some((end - self.oln_time_ms) as u64)
                } else {
                    None::<u64>
                }
            }),
    {
        let end = match self.otln_time_ms {
            None => now,
            Some(o) => o,
        };
        if end >= self.oln_time_ms {
            Some(end - self.oln_time_ms)
        } else {
            None
        }
    }

    /// How long the session has been offline; an error while it is online
    /// or was never marked offline.
    pub fn outline_time_ms(&self, now: u64) -> (r: Option<u64>)
        ensures
            r == if !self.online_at(now) && self.otln_time_ms is Some && self.otln_time_ms->0
                <= now {
                Some((now - self.otln_time_ms->0) as u64)
            } else {
                None::<u64>
            },
    {
        if self.online(now) {
            return None;
        }
        match self.otln_time_ms {
            None => None,
            Some(o) => {
                if o <= now {
                    Some(now - o)
                } else {
                    None
                }
            },
        }
    }

    /// Looks up a rendezvous request by id.
    fn find_wait(&self, xids: &String) -> (r: Option<usize>)
        requires
            waits_wf(self.waits@),
        ensures
            match r {
                Some(i) => i < self.waits@.len() && self.waits@[i as int].xids@ == xids@
                    && has_wait(self.waits@, xids@) && i == wait_at(self.waits@, xids@),
                None => !has_wait(self.waits@, xids@),
            },
    {
        let mut i: usize = 0;
        while i < self.waits.len()
            invariant
                waits_wf(self.waits@),
                0 <= i <= self.waits@.len(),
                forall|k: int| 0 <= k < i ==> (#[trigger] self.waits@[k]).xids@ != xids@,
            decreases self.waits@.len() - i,
        {
            if self.waits[i].xids == *xids {
                proof {
                    assert(self.waits@[i as int].xids@ == xids@);
                    let w = wait_at(self.waits@, xids@);
                    assert(0 <= w < self.waits@.len() && self.waits@[w].xids@ == xids@);
                    assert(w == i as int);
                }
                return Some(i);
            }
            i = i + 1;
        }
        None
    }

    /// Resolves a rendezvous request: a delivered connection handle
    /// fulfills it, no handle fails it.  With no such request pending the
    /// delivery has expired and the handle must be dropped by the caller.
    pub fn put_conn(&mut self, xids: &String, conn: Option<u64>) -> (r: Result<(), WaitError>)
        requires
            old(self).wf(),
        ensures
            final(self).wf(),
            final(self).waits@ == set_wait(old(self).waits@, xids@, conn),
            r == if has_wait(old(self).waits@, xids@) {
                Ok::<(), WaitError>(())
            } else {
                Err::<(), WaitError>(WaitError::Expired)
            },
            *final(self) == (NodeServer { waits: final(self).waits, ..*old(self) }),
    {
        let i = match self.find_wait(xids) {
            None => {
                return Err(WaitError::Expired);
            },
            Some(i) => i,
        };
        let old_xids = self.waits.remove(i);
        let item = match conn {
            Some(c) => WaitItem { xids: old_xids.xids, stat: WaitState::Fulfilled, conn: Some(c) },
            None => WaitItem { xids: old_xids.xids, stat: WaitState::Failed, conn: None },
        };
        self.waits.insert(i, item);
        proof {
            assert(self.waits@ =~= set_wait(old(self).waits@, xids@, conn));
            assert forall|a: int, b: int|
                0 <= a < b < self.waits@.len() implies (#[trigger] self.waits@[a]).xids@ != (
            #[trigger] self.waits@[b]).xids@ by {
                assert(old(self).waits@[a].xids@ != old(self).waits@[b].xids@);
            }
        }
        Ok(())
    }
}

/// Removing any request keeps the table well formed.
proof fn lemma_remove_waits_wf(ws: Seq<WaitItem>, k: int)
    requires
        waits_wf(ws),
        0 <= k < ws.len(),
    ensures
        waits_wf(ws.remove(k)),
{
    let r = ws.remove(k);
    assert forall|a: int, b: int| 0 <= a < b < r.len() implies (#[trigger] r[a]).xids@ != (
    #[trigger] r[b]).xids@ by {
        let a0 = if a < k {
            a
        } else {
            a + 1
        };
        let b0 = if b < k {
            b
        } else {
            b + 1
        };
        assert(r[a] == ws[a0] && r[b] == ws[b0]);
        assert(ws[a0].xids@ != ws[b0].xids@);
    }
}

/// Builds one rendezvous request id: a fresh xid, the port, and five
/// random characters.  All ASCII, and well within the wire's length field.
fn new_wait_id(port: i32) -> (r: String)
    requires
        0 < port,
    ensures
        r@.len() >= 21,
        is_ascii_chars(r@),
        vstd::utf8::encode_utf8(r@).len() <= 0xffff,
{
    proof {
        reveal_strlit("-");
        assert("-"@ =~= seq!['-']);
    }
    let mut s = fresh_xid();
    let ghost x = s@;
    s.append("-");
    let digits = fmt_u64(port as u64);
    s.append(digits.as_str());
    let tok = random_token(5);
    s.append(tok.as_str());
    proof {
        lemma_dec_digits_are_digits(port as nat);
        reveal_with_fuel(pow10, 11);
        assert(pow10(10) == 10_000_000_000);
        lemma_dec_digits_len(port as nat, 10);
        assert(is_ascii_chars(x));
        assert(is_ascii_chars(seq!['-']));
        assert(is_ascii_chars(digits@));
        assert(is_ascii_chars(tok@));
        is_ascii_chars_concat(x + seq!['-'], x, seq!['-']);
        is_ascii_chars_concat(x + seq!['-'] + digits@, x + seq!['-'], digits@);
        is_ascii_chars_concat(x + seq!['-'] + digits@ + tok@, x + seq!['-'] + digits@, tok@);
        assert(s@ =~= x + seq!['-'] + digits@ + tok@);
        is_ascii_chars_encode_utf8(s@);
    }
    s
}

impl NodeServer {
    /// Opens one rendezvous request: picks an id unused in the table,
    /// records it pending, and queues the control-code-1 notice whose body
    /// carries the node's name, the id, the optional host override, and
    /// the port.  The caller then polls with `wait_poll` until a terminal
    /// outcome.
    pub fn wait_conn_prepare(&mut self, host: &Option<String>, port: i32, now: u64) -> (r: Result<
        String,
        WaitError,
    >)
        requires
            old(self).wf(),
            time_ok(now),
        ensures
            final(self).wf(),
            match r {
                Ok(xid) => {
                    &&& !old(self).stopping && !old(self).shuted && 0 < port
                    &&& host_fits(*host)
                    &&& !has_wait(old(self).waits@, xid@)
                    &&& final(self).waits@.len() == old(self).waits@.len() + 1
                    &&& final(self).waits@.take(old(self).waits@.len() as int) == old(self).waits@
                    &&& final(self).waits@.last().xids@ == xid@
                    &&& final(self).waits@.last().stat is Pending
                    &&& final(self).waits@.last().conn is None
                    &&& final(self).msgs@.len() == old(self).msgs@.len() + 1
                    &&& final(self).msgs@.take(old(self).msgs@.len() as int) == old(self).msgs@
                    &&& ({
                        let m = final(self).msgs@.last()@;
                        let req = (ConnReqView {
                            name: vstd::utf8::encode_utf8(old(self).cfg.name@),
                            xids: vstd::utf8::encode_utf8(xid@),
                            host: match opt_str_view(*host) {
                                None => None,
                                Some(h) => Some(vstd::utf8::encode_utf8(h)),
                            },
                            port: port as u32,
                        });
                        m.control == 1 && m.cmds is None && m.heads is None && m.bodys == Some(
                            conn_req_bytes(req),
                        )
                    })
                    &&& *final(self) == (NodeServer {
                        waits: final(self).waits,
                        msgs: final(self).msgs,
                        ..*old(self)
                    })
                },
                Err(e) => {
                    &&& *final(self) == *old(self)
                    &&& (e == WaitError::CtxEnd <==> old(self).stopping)
                    &&& (e == WaitError::Outline <==> !old(self).stopping && old(self).shuted)
                    &&& (e == WaitError::BadPort <==> !old(self).stopping && !old(self).shuted
                        && port <= 0)
                    &&& (e == WaitError::HostTooLong <==> !old(self).stopping && !old(self).shuted
                        && 0 < port && !host_fits(*host))
                    &&& (e == WaitError::IdSpace ==> !old(self).stopping && !old(self).shuted && 0
                        < port && host_fits(*host))
                },
            },
    {
        if self.stopping {
            return Err(WaitError::CtxEnd);
        }
        if self.shuted {
            return Err(WaitError::Outline);
        }
        if port <= 0 {
            return Err(WaitError::BadPort);
        }
        let hostv: Option<Vec<u8>> = match host {
            None => None,
            Some(h) => {
                let hb = h.as_str().as_bytes_vec();
                if hb.len() > 0xffff {
                    return Err(WaitError::HostTooLong);
                }
                Some(hb)
            },
        };
        let mut tries: usize = 0;
        while tries < 32
            invariant
                *self == *old(self),
                self.wf(),
                !self.stopping && !self.shuted && 0 < port,
                hostv matches Some(hb) ==> hb@.len() <= 0xffff,
                hostv matches Some(hb) ==> (opt_str_view(*host) matches Some(h) && hb@
                    == vstd::utf8::encode_utf8(h)),
                hostv is None <==> opt_str_view(*host) is None,
                time_ok(now),
            decreases 32 - tries,
        {
            let xid = new_wait_id(port);
            if self.find_wait(&xid).is_none() {
                let item = WaitItem { xids: xid.clone(), stat: WaitState::Pending, conn: None };
                proof {
                    assert forall|a: int, b: int|
                        0 <= a < b < self.waits@.push(item).len() implies (#[trigger] self.waits@.push(
                        item,
                    )[a]).xids@ != (#[trigger] self.waits@.push(item)[b]).xids@ by {
                        if b < self.waits@.len() {
                            assert(self.waits@[a].xids@ != self.waits@[b].xids@);
                        } else {
                            assert(!has_wait(self.waits@, xid@));
                            assert(self.waits@.push(item)[a] == self.waits@[a]);
                        }
                    }
                }
                self.waits.push(item);
                let name_bytes = self.cfg.name.as_str().as_bytes_vec();
                let xid_bytes = xid.as_str().as_bytes_vec();
                let req = ConnReq { name: name_bytes, xids: xid_bytes, host: hostv, port: port as u32 };
                let body = encode_conn_req(&req);
                let m = Message { control: 1, cmds: None, heads: None, bodys: Some(body) };
                self.msgs.push(m);
                proof {
                    assert(self.waits@.take(old(self).waits@.len() as int) =~= old(self).waits@);
                    assert(self.msgs@.take(old(self).msgs@.len() as int) =~= old(self).msgs@);
                }
                return Ok(xid);
            }
            tries = tries + 1;
        }
        Err(WaitError::IdSpace)
    }

    /// One poll of a rendezvous wait at `now`.  A fulfilled request hands
    /// its connection over and leaves the table; a failed one reports the
    /// node's dial error; past the deadline (or with the session stopping)
    /// the wait ends as a timeout.  Every terminal outcome removes the
    /// request, so a later delivery under the same id finds nothing.
    pub fn wait_poll(&mut self, xids: &String, now: u64, deadline: u64) -> (r: WaitPoll)
        requires
            old(self).wf(),
        ensures
            final(self).wf(),
            r == poll_view(old(self).waits@, old(self).stopping, xids@, now, deadline),
            final(self).waits@ == poll_waits(
                old(self).waits@,
                old(self).stopping,
                xids@,
                now,
                deadline,
            ),
            *final(self) == (NodeServer { waits: final(self).waits, ..*old(self) }),
    {
        if self.stopping || now >= deadline {
            match self.find_wait(xids) {
                Some(i) => {
                    proof {
                        lemma_remove_waits_wf(self.waits@, i as int);
                    }
                    self.waits.remove(i);
                },
                None => {},
            }
            return WaitPoll::TimedOut;
        }
        let i = match self.find_wait(xids) {
            None => {
                return WaitPoll::Waiting;
            },
            Some(i) => i,
        };
        match self.waits[i].stat {
            WaitState::Pending => WaitPoll::Waiting,
            WaitState::Fulfilled => {
                proof {
                    lemma_remove_waits_wf(self.waits@, i as int);
                }
                let it = self.waits.remove(i);
                match it.conn {
                    Some(c) => WaitPoll::Ready(c),
                    None => {
                        proof {
                            assert(false);
                        }
                        WaitPoll::LocalErr
                    },
                }
            },
            WaitState::Failed => {
                proof {
                    lemma_remove_waits_wf(self.waits@, i as int);
                }
                self.waits.remove(i);
                WaitPoll::LocalErr
            },
        }
    }
}

/// Updating a request keeps every id in place.
proof fn lemma_set_wait_ids(ws: Seq<WaitItem>, id: Seq<char>, conn: Option<u64>)
    ensures
        set_wait(ws, id, conn).len() == ws.len(),
        forall|i: int|
            0 <= i < ws.len() ==> (#[trigger] set_wait(ws, id, conn)[i]).xids@ == ws[i].xids@,
{
    if has_wait(ws, id) {
        let k = wait_at(ws, id);
        assert(0 <= k < ws.len());
    }
}

/// After a request is removed, no request with its id remains.
proof fn lemma_remove_wait_gone(ws: Seq<WaitItem>, id: Seq<char>)
    requires
        waits_wf(ws),
    ensures
        !has_wait(remove_wait(ws, id), id),
{
    if has_wait(ws, id) {
        let k = wait_at(ws, id);
        let rem = ws.remove(k);
        assert forall|i: int| 0 <= i < rem.len() implies (#[trigger] rem[i]).xids@ != id by {
            let a0 = if i < k {
                i
            } else {
                i + 1
            };
            assert(rem[i] == ws[a0]);
            if a0 < k {
                assert(ws[a0].xids@ != ws[k].xids@);
            } else {
                assert(ws[k].xids@ != ws[a0].xids@);
            }
        }
    }
}

/// Rendezvous round trip, the delivered side: once the node fulfills a
/// pending request with a connection, a poll inside the budget hands back
/// exactly that connection, and the request leaves the table, so a second
/// delivery under the same id finds nothing.
pub proof fn lemma_rendezvous_fulfilled(
    ws: Seq<WaitItem>,
    id: Seq<char>,
    c: u64,
    now: u64,
    deadline: u64,
)
    requires
        waits_wf(ws),
        has_wait(ws, id),
        now < deadline,
    ensures
        poll_view(set_wait(ws, id, Some(c)), false, id, now, deadline) == WaitPoll::Ready(c),
        !has_wait(poll_waits(set_wait(ws, id, Some(c)), false, id, now, deadline), id),
{
    let ws1 = set_wait(ws, id, Some(c));
    let k = wait_at(ws, id);
    lemma_set_wait_ids(ws, id, Some(c));
    assert(ws1[k].xids@ == id);
    assert(has_wait(ws1, id));
    let k1 = wait_at(ws1, id);
    assert(ws[k1].xids@ == id);
    assert(k1 == k);
    assert(ws1[k].stat is Fulfilled && ws1[k].conn == Some(c));
    assert forall|a: int, b: int| 0 <= a < b < ws1.len() implies (#[trigger] ws1[a]).xids@ != (
    #[trigger] ws1[b]).xids@ by {
        assert(ws[a].xids@ != ws[b].xids@);
    }
    lemma_remove_wait_gone(ws1, id);
}

/// Rendezvous round trip, the failing side: once the node reports a local
/// dial error, a poll inside the budget reports that error, not a timeout,
/// and the request leaves the table.
pub proof fn lemma_rendezvous_failed(ws: Seq<WaitItem>, id: Seq<char>, now: u64, deadline: u64)
    requires
        waits_wf(ws),
        has_wait(ws, id),
        now < deadline,
    ensures
        poll_view(set_wait(ws, id, None), false, id, now, deadline) == WaitPoll::LocalErr,
        !has_wait(poll_waits(set_wait(ws, id, None), false, id, now, deadline), id),
{
    let ws1 = set_wait(ws, id, None);
    let k = wait_at(ws, id);
    lemma_set_wait_ids(ws, id, None);
    assert(ws1[k].xids@ == id);
    assert(has_wait(ws1, id));
    let k1 = wait_at(ws1, id);
    assert(ws[k1].xids@ == id);
    assert(k1 == k);
    assert(ws1[k].stat is Failed);
    assert forall|a: int, b: int| 0 <= a < b < ws1.len() implies (#[trigger] ws1[a]).xids@ != (
    #[trigger] ws1[b]).xids@ by {
        assert(ws[a].xids@ != ws[b].xids@);
    }
    lemma_remove_wait_gone(ws1, id);
}

/// Rendezvous timeout: while a request is still pending at its deadline,
/// the poll reports a timeout, the request leaves the table, and a late
/// delivery under its id changes nothing — the delivered connection is
/// simply dropped.
pub proof fn lemma_rendezvous_timeout(
    ws: Seq<WaitItem>,
    id: Seq<char>,
    c: u64,
    now: u64,
    deadline: u64,
)
    requires
        waits_wf(ws),
        now >= deadline,
    ensures
        poll_view(ws, false, id, now, deadline) == WaitPoll::TimedOut,
        !has_wait(poll_waits(ws, false, id, now, deadline), id),
        set_wait(poll_waits(ws, false, id, now, deadline), id, Some(c)) == poll_waits(
            ws,
            false,
            id,
            now,
            deadline,
        ),
{
    lemma_remove_wait_gone(ws, id);
}

/// Heartbeat liveness: a session silent past its deadline is reported
/// offline by every later check, and is marked for removal only once its
/// offline stretch exceeds the stale threshold.
pub proof fn lemma_heartbeat_liveness(e: NodeServer, now1: u64, now2: u64)
    requires
        !e.shuted,
        !e.stopping,
        now1 >= e.deadline_ms,
        now1 <= now2,
    ensures
        ({
            let e1 = check_view(e, now1);
            &&& e1.shuted
            &&& !e1.online_at(now2)
            &&& e1.otln_time_ms == Some(now1)
            &&& (check_view(e1, now2).stopping <==> now2 - now1 > STALE_REMOVE_MS)
        }),
{
}

} // verus!
