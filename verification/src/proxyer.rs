//! The byte-pump relay: full-duplex copying between an accepted client
//! connection (the front) and the rendezvoused or dialed connection (the
//! back).  Each direction queues chunks in a bounded buffer, so a slow
//! writer holds its reader back; reading may end while buffered bytes are
//! still owed, and the relay delivers them all before that direction ends.
//! An optional rate gate per direction pauses the reading side whenever a
//! 100-millisecond window's byte budget is spent.
//!
//! The sockets stay with the embedding binary: it reads chunks in, writes
//! chunks out, and sleeps when a buffer is over its high-water mark or a
//! rate gate asks for a pause.

use vstd::prelude::*;

use crate::entity::ProxyLimit;

verus! {

/// The high-water mark of one direction's buffer, in bytes.
pub const PROXY_BUF_SIZE_MAX: usize = 1024 * 1024;

/// The largest chunk one read hands in.
pub const READ_CHUNK_SIZE: usize = 10240;

/// One relay's identity and optional rate limits.
pub struct ProxyerCfg {
    pub ids: String,
    pub limit: Option<ProxyLimit>,
}

/// All the bytes of a chunk queue, front chunk first.
pub open spec fn flat(chunks: Seq<Seq<u8>>) -> Seq<u8>
    decreases chunks.len(),
{
    if chunks.len() == 0 {
        Seq::empty()
    } else {
        chunks[0] + flat(chunks.drop_first())
    }
}

/// Queueing one more chunk appends its bytes.
pub proof fn lemma_flat_push(chunks: Seq<Seq<u8>>, c: Seq<u8>)
    ensures
        flat(chunks.push(c)) == flat(chunks) + c,
    decreases chunks.len(),
{
    reveal_with_fuel(flat, 3);
    if chunks.len() == 0 {
        assert(chunks.push(c)[0] == c);
        assert(chunks.push(c).drop_first() =~= Seq::<Seq<u8>>::empty());
        assert(flat(chunks.push(c)) =~= flat(chunks) + c);
    } else {
        lemma_flat_push(chunks.drop_first(), c);
        assert(chunks.push(c)[0] == chunks[0]);
        assert(chunks.push(c).drop_first() =~= chunks.drop_first().push(c));
        assert(flat(chunks.push(c)) =~= flat(chunks) + c);
    }
}

/// One direction of the relay: the queued chunks, whether reading has
/// ended, and the whole byte history either side of the buffer.
pub struct PumpDir {
    /// The buffered chunks, next to write first.
    pub chunks: Vec<Vec<u8>>,
    /// Bytes sitting in `chunks`.
    pub byte_len: usize,
    /// Whether the reading side has hit end-of-stream or an error.
    pub read_ended: bool,
    /// Every byte the reader pushed in, in order.
    pub received: Ghost<Seq<u8>>,
    /// Every byte the writer pulled out, in order.
    pub delivered: Ghost<Seq<u8>>,
}

impl PumpDir {
    /// The bytes still owed to the writing side, in order.
    pub open spec fn buffered(self) -> Seq<u8> {
        flat(self.chunks@.map_values(|c: Vec<u8>| c@))
    }

    /// The books balance: received = delivered + buffered, and the byte
    /// count matches the buffer.
    pub open spec fn wf(self) -> bool {
        &&& self.received@ == self.delivered@ + self.buffered()
        &&& self.byte_len == self.buffered().len()
        &&& forall|i: int|
            0 <= i < self.chunks@.len() ==> 0 < (#[trigger] self.chunks@[i])@.len()
                <= READ_CHUNK_SIZE
    }

    /// An empty direction.
    pub fn new() -> (r: PumpDir)
        ensures
            r.wf(),
            r.received@ == Seq::<u8>::empty(),
            r.delivered@ == Seq::<u8>::empty(),
            r.buffered() == Seq::<u8>::empty(),
            !r.read_ended,
    {
        let d = PumpDir {
            chunks: Vec::new(),
            byte_len: 0,
            read_ended: false,
            received: Ghost(Seq::empty()),
            delivered: Ghost(Seq::empty()),
        };
        proof {
            assert(d.chunks@.map_values(|c: Vec<u8>| c@) =~= Seq::<Seq<u8>>::empty());
            assert(d.received@ =~= d.delivered@ + d.buffered());
        }
        d
    }

    /// Whether the reader may push more: the buffer is at or under its
    /// high-water mark.  Past it the reader sleeps and asks again.
    pub fn can_accept(&self) -> (r: bool)
        ensures
            r == (self.byte_len <= PROXY_BUF_SIZE_MAX),
    {
        self.byte_len <= PROXY_BUF_SIZE_MAX
    }

    /// Queues one chunk the reader got: its bytes join the history and the
    /// buffer, in order.
    pub fn push_chunk(&mut self, data: Vec<u8>)
        requires
            old(self).wf(),
            old(self).byte_len <= PROXY_BUF_SIZE_MAX,
            0 < data@.len() <= READ_CHUNK_SIZE,
        ensures
            final(self).wf(),
            final(self).received@ == old(self).received@ + data@,
            final(self).delivered@ == old(self).delivered@,
            final(self).buffered() == old(self).buffered() + data@,
            final(self).read_ended == old(self).read_ended,
    {
        proof {
            lemma_flat_push(self.chunks@.map_values(|c: Vec<u8>| c@), data@);
            assert(self.chunks@.push(data).map_values(|c: Vec<u8>| c@) =~= self.chunks@.map_values(
                |c: Vec<u8>| c@,
            ).push(data@));
        }
        self.byte_len = self.byte_len + data.len();
        self.received = Ghost(self.received@ + data@);
        self.chunks.push(data);
        proof {
            assert(self.received@ =~= self.delivered@ + self.buffered());
        }
    }

    /// Hands the writer the next chunk, front of the queue first; nothing
    /// while the buffer is empty.
    pub fn pull_chunk(&mut self) -> (r: Option<Vec<u8>>)
        requires
            old(self).wf(),
        ensures
            final(self).wf(),
            final(self).received@ == old(self).received@,
            final(self).read_ended == old(self).read_ended,
            match r {
                Some(v) => {
                    &&& old(self).buffered().len() > 0
                    &&& 0 < v@.len() <= READ_CHUNK_SIZE
                    &&& v@ == old(self).buffered().take(v@.len() as int)
                    &&& final(self).delivered@ == old(self).delivered@ + v@
                    &&& final(self).buffered() == old(self).buffered().skip(v@.len() as int)
                },
                None => old(self).buffered().len() == 0 && *final(self) == *old(self),
            },
    {
        if self.chunks.len() == 0 {
            proof {
                assert(self.chunks@.map_values(|c: Vec<u8>| c@) =~= Seq::<Seq<u8>>::empty());
            }
            return None;
        }
        let v = self.chunks.remove(0);
        proof {
            let m0 = old(self).chunks@.map_values(|c: Vec<u8>| c@);
            assert(self.chunks@.map_values(|c: Vec<u8>| c@) =~= m0.drop_first());
            assert(old(self).buffered() == v@ + self.buffered());
            assert(v@ =~= old(self).buffered().take(v@.len() as int));
            assert(self.buffered() =~= old(self).buffered().skip(v@.len() as int));
        }
        self.byte_len = self.byte_len - v.len();
        self.delivered = Ghost(self.delivered@ + v@);
        proof {
            assert(self.received@ =~= self.delivered@ + self.buffered());
        }
        Some(v)
    }

    /// Marks the reading side ended; buffered bytes are still owed.
    pub fn end_read(&mut self)
        ensures
            *final(self) == (PumpDir { read_ended: true, ..*old(self) }),
    {
        self.read_ended = true;
    }

    /// Whether the writing side is done: reading ended and nothing left to
    /// deliver.  Only then may the writer close its connection.
    pub fn writer_done(&self) -> (r: bool)
        requires
            self.wf(),
        ensures
            r == (self.read_ended && self.buffered().len() == 0),
    {
        self.read_ended && self.byte_len == 0
    }
}

/// Byte-pump round trip: what a direction has delivered, followed by what
/// still sits buffered, is exactly what it received — byte for byte, in
/// order, whatever the chunk sizes were; so delivery is always a prefix of
/// reception, and once reading has ended and the buffer has drained, the
/// two histories are equal.
pub proof fn lemma_pump_fifo(d: PumpDir)
    requires
        d.wf(),
    ensures
        d.delivered@ + d.buffered() == d.received@,
        d.delivered@ == d.received@.take(d.delivered@.len() as int),
        d.read_ended && d.buffered().len() == 0 ==> d.delivered@ == d.received@,
{
    assert(d.delivered@ =~= d.received@.take(d.delivered@.len() as int));
    if d.buffered().len() == 0 {
        assert(d.delivered@ =~= d.received@);
    }
}

// ---------------------------------------------------------------------------
// Rate gates
// ---------------------------------------------------------------------------

/// One direction's rate gate: a byte budget per 100-millisecond window and
/// the count spent in the current window.  A zero budget never pauses.
pub struct RateGate {
    pub budget: usize,
    pub count: usize,
}

/// Whether counting `n` more bytes spends the window's budget.
pub open spec fn gate_pause(g: RateGate, n: int) -> bool {
    g.budget > 0 && g.count + n >= g.budget
}

/// The limiter's state after counting `n` more bytes: reset at a window
/// boundary, accumulating otherwise.
pub open spec fn gate_after(g: RateGate, n: int) -> RateGate {
    RateGate {
        budget: g.budget,
        count: if gate_pause(g, n) || g.budget == 0 {
            0
        } else {
            (g.count + n) as usize
        },
    }
}

impl RateGate {
    /// The count stays under the budget between calls, and the budget
    /// leaves room to count one more chunk.
    pub open spec fn wf(self) -> bool {
        &&& (self.budget > 0 ==> self.count < self.budget)
        &&& (self.budget == 0 ==> self.count == 0)
        &&& self.budget <= usize::MAX - READ_CHUNK_SIZE
    }

    /// A gate for `kbps` KB/s: the window budget is one tenth of a second's
    /// worth.  `kbps` zero means no limit.
    pub fn new(kbps: usize) -> (r: RateGate)
        requires
            kbps <= 0x3f_ffff,
        ensures
            r.wf(),
            r.budget == kbps * 1024 / 10,
            r.count == 0,
    {
        RateGate { budget: kbps * 1024 / 10, count: 0 }
    }

    /// Counts `n` freshly moved bytes.  Once the window's budget is spent
    /// a sleep is ordered until the window ends, and the next window
    /// starts at zero.
    pub fn note(&mut self, n: usize) -> (pause: bool)
        requires
            old(self).wf(),
            n <= READ_CHUNK_SIZE,
        ensures
            final(self).wf(),
            pause == gate_pause(*old(self), n as int),
            *final(self) == gate_after(*old(self), n as int),
            old(self).budget > 0 ==> old(self).count + n < old(self).budget + READ_CHUNK_SIZE,
    {
        if self.budget == 0 {
            return false;
        }
        let next = self.count + n;
        if next >= self.budget {
            self.count = 0;
            true
        } else {
            self.count = next;
            false
        }
    }
}

/// Rate limiting: with a budget of `B` bytes per window and chunks of at
/// most `READ_CHUNK_SIZE` bytes, the bytes counted in any single window
/// stay below `B + READ_CHUNK_SIZE`: intake halts no later than
/// the chunk that reaches `B`.
pub proof fn lemma_rate_window_bound(g: RateGate, n: usize)
    requires
        g.wf(),
        g.budget > 0,
        n <= READ_CHUNK_SIZE,
    ensures
        g.count + n < g.budget + READ_CHUNK_SIZE,
{
}

// ---------------------------------------------------------------------------
// The relay
// ---------------------------------------------------------------------------

/// One relay session: the front-to-back direction, the back-to-front
/// direction, and the rate gates of the limited sides.
pub struct Proxyer {
    pub cfg: ProxyerCfg,
    /// Front to back: filled by `read1`, drained by `write2`.
    pub fwd: PumpDir,
    /// Back to front: filled by `read2`, drained by `write1`.
    pub rev: PumpDir,
    /// Gates the front reader (the configured up-limit).
    pub up_gate: Option<RateGate>,
    /// Gates the front writer (the configured down-limit).
    pub down_gate: Option<RateGate>,
}

impl Proxyer {
    /// Both directions sound and any gates sound.
    pub open spec fn wf(self) -> bool {
        &&& self.fwd.wf()
        &&& self.rev.wf()
        &&& match self.up_gate {
            None => self.cfg.limit is None,
            Some(g) => g.wf() && self.cfg.limit is Some,
        }
        &&& match self.down_gate {
            None => self.cfg.limit is None,
            Some(g) => g.wf() && self.cfg.limit is Some,
        }
    }

    /// A fresh relay over two just-paired connections: empty buffers, and
    /// rate gates sized from the configured limit.
    pub fn new(cfg: ProxyerCfg) -> (r: Proxyer)
        requires
            cfg.limit matches Some(l) ==> l.up <= 0x3f_ffff && l.down <= 0x3f_ffff,
        ensures
            r.wf(),
            r.fwd.received@ == Seq::<u8>::empty(),
            r.fwd.delivered@ == Seq::<u8>::empty(),
            r.rev.received@ == Seq::<u8>::empty(),
            r.rev.delivered@ == Seq::<u8>::empty(),
            !r.fwd.read_ended && !r.rev.read_ended,
            r.cfg.ids@ == cfg.ids@,
            r.up_gate == match cfg.limit {
                None => None::<RateGate>,
                Some(l) => Some((RateGate { budget: (l.up * 1024 / 10) as usize, count: 0 })),
            },
            r.down_gate == match cfg.limit {
                None => None::<RateGate>,
                Some(l) => Some((RateGate { budget: (l.down * 1024 / 10) as usize, count: 0 })),
            },
    {
        let (up_gate, down_gate) = match &cfg.limit {
            None => (None, None),
            Some(l) => (Some(RateGate::new(l.up)), Some(RateGate::new(l.down))),
        };
        Proxyer { cfg, fwd: PumpDir::new(), rev: PumpDir::new(), up_gate, down_gate }
    }

    /// Takes one chunk read off the front connection: it joins the
    /// front-to-back buffer, and the up gate says whether the reader must
    /// sleep out the window.
    pub fn read1(&mut self, data: Vec<u8>) -> (pause: bool)
        requires
            old(self).wf(),
            old(self).fwd.byte_len <= PROXY_BUF_SIZE_MAX,
            0 < data@.len() <= READ_CHUNK_SIZE,
        ensures
            final(self).wf(),
            final(self).fwd.received@ == old(self).fwd.received@ + data@,
            final(self).fwd.delivered@ == old(self).fwd.delivered@,
            final(self).rev == old(self).rev,
            final(self).down_gate == old(self).down_gate,
            pause == match old(self).up_gate {
                None => false,
                Some(g) => gate_pause(g, data@.len() as int),
            },
            final(self).up_gate == match old(self).up_gate {
                None => None::<RateGate>,
                Some(g) => Some(gate_after(g, data@.len() as int)),
            },
    {
        let n = data.len();
        self.fwd.push_chunk(data);
        match &mut self.up_gate {
            None => false,
            Some(g) => g.note(n),
        }
    }

    /// Hands out the next chunk owed to the front connection, with the
    /// down gate's verdict; nothing while the back-to-front buffer is
    /// empty.
    pub fn write1(&mut self) -> (r: (Option<Vec<u8>>, bool))
        requires
            old(self).wf(),
        ensures
            final(self).wf(),
            final(self).rev.received@ == old(self).rev.received@,
            final(self).rev.read_ended == old(self).rev.read_ended,
            final(self).fwd == old(self).fwd,
            final(self).up_gate == old(self).up_gate,
            match r.0 {
                Some(v) => {
                    &&& v@.len() > 0
                    &&& v@ == old(self).rev.buffered().take(v@.len() as int)
                    &&& final(self).rev.delivered@ == old(self).rev.delivered@ + v@
                    &&& r.1 == match old(self).down_gate {
                        None => false,
                        Some(g) => gate_pause(g, v@.len() as int),
                    }
                    &&& final(self).down_gate == match old(self).down_gate {
                        None => None::<RateGate>,
                        Some(g) => Some(gate_after(g, v@.len() as int)),
                    }
                },
                None => {
                    &&& old(self).rev.buffered().len() == 0
                    &&& final(self).rev == old(self).rev
                    &&& final(self).down_gate == old(self).down_gate
                    &&& !r.1
                },
            },
    {
        let v = match self.rev.pull_chunk() {
            None => {
                return (None, false);
            },
            Some(v) => v,
        };
        let n = v.len();
        let pause = match &mut self.down_gate {
            None => false,
            Some(g) => g.note(n),
        };
        (Some(v), pause)
    }

    /// Takes one chunk read off the back connection into the back-to-front
    /// buffer.
    pub fn read2(&mut self, data: Vec<u8>)
        requires
            old(self).wf(),
            old(self).rev.byte_len <= PROXY_BUF_SIZE_MAX,
            0 < data@.len() <= READ_CHUNK_SIZE,
        ensures
            final(self).wf(),
            final(self).rev.received@ == old(self).rev.received@ + data@,
            final(self).rev.delivered@ == old(self).rev.delivered@,
            final(self).fwd == old(self).fwd,
    {
        self.rev.push_chunk(data);
    }

    /// Hands out the next chunk owed to the back connection; nothing while
    /// the front-to-back buffer is empty.
    pub fn write2(&mut self) -> (r: Option<Vec<u8>>)
        requires
            old(self).wf(),
        ensures
            final(self).wf(),
            final(self).fwd.received@ == old(self).fwd.received@,
            final(self).fwd.read_ended == old(self).fwd.read_ended,
            final(self).rev == old(self).rev,
            final(self).up_gate == old(self).up_gate,
            final(self).down_gate == old(self).down_gate,
            match r {
                Some(v) => {
                    &&& 0 < v@.len() <= READ_CHUNK_SIZE
                    &&& v@ == old(self).fwd.buffered().take(v@.len() as int)
                    &&& final(self).fwd.delivered@ == old(self).fwd.delivered@ + v@
                },
                None => old(self).fwd.buffered().len() == 0 && final(self).fwd == old(self).fwd,
            },
    {
        self.fwd.pull_chunk()
    }
}

} // verus!
