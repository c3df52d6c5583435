//! The framed control-channel protocol: a length-prefixed binary message
//! (control code, optional command, optional headers, optional body) carried
//! over a persistent byte stream, and the serialized rendezvous request that
//! rides in the body of a control-code-1 message.
//!
//! Every frame starts with a sixteen-byte header: the control code and the
//! three section lengths, each a big-endian 32-bit value.  The sections
//! follow in order.  A reader that sees a length over the section's limit
//! tears the connection down; no partial-frame recovery is attempted.

use vstd::prelude::*;

verus! {

/// Longest accepted command section.
pub const CMD_MAX: usize = 1024;

/// Longest accepted header section.
pub const HEAD_MAX: usize = 100 * 1024;

/// Longest accepted body section.
pub const BODY_MAX: usize = 1024 * 1024;

// ---------------------------------------------------------------------------
// Big-endian 16- and 32-bit fields
// ---------------------------------------------------------------------------

/// The big-endian bytes of a 32-bit value.
pub open spec fn be32(x: u32) -> Seq<u8> {
    seq![
        ((x >> 24) & 0xff) as u8,
        ((x >> 16) & 0xff) as u8,
        ((x >> 8) & 0xff) as u8,
        (x & 0xff) as u8,
    ]
}

/// The 32-bit value read from four big-endian bytes.
pub open spec fn u32_of_be(b0: u8, b1: u8, b2: u8, b3: u8) -> u32 {
    ((b0 as u32) << 24) | ((b1 as u32) << 16) | ((b2 as u32) << 8) | (b3 as u32)
}

/// The big-endian bytes of a 16-bit value.
pub open spec fn be16(x: u16) -> Seq<u8> {
    seq![((x >> 8) & 0xff) as u8, (x & 0xff) as u8]
}

/// The 16-bit value read from two big-endian bytes.
pub open spec fn u16_of_be(b0: u8, b1: u8) -> u16 {
    ((b0 as u16) << 8) | (b1 as u16)
}

pub proof fn lemma_be32_roundtrip(x: u32)
    ensures
        u32_of_be(
            ((x >> 24) & 0xff) as u8,
            ((x >> 16) & 0xff) as u8,
            ((x >> 8) & 0xff) as u8,
            (x & 0xff) as u8,
        ) == x,
{
    let y0 = ((x >> 24) & 0xff) as u8;
    let y1 = ((x >> 16) & 0xff) as u8;
    let y2 = ((x >> 8) & 0xff) as u8;
    let y3 = (x & 0xff) as u8;
    assert(((y0 as u32) << 24) | ((y1 as u32) << 16) | ((y2 as u32) << 8) | (y3 as u32) == x)
        by (bit_vector)
        requires
            y0 == ((x >> 24) & 0xff) as u8,
            y1 == ((x >> 16) & 0xff) as u8,
            y2 == ((x >> 8) & 0xff) as u8,
            y3 == (x & 0xff) as u8,
    ;
}

pub proof fn lemma_be16_roundtrip(x: u16)
    ensures
        u16_of_be(((x >> 8) & 0xff) as u8, (x & 0xff) as u8) == x,
{
    let y0 = ((x >> 8) & 0xff) as u8;
    let y1 = (x & 0xff) as u8;
    assert(((y0 as u16) << 8) | (y1 as u16) == x) by (bit_vector)
        requires
            y0 == ((x >> 8) & 0xff) as u8,
            y1 == (x & 0xff) as u8,
    ;
}

/// Appends the big-endian bytes of `x`.
pub fn push_be32(v: &mut Vec<u8>, x: u32)
    ensures
        final(v)@ == old(v)@ + be32(x),
{
    proof {
        assert((x >> 24) & 0xff < 256 && (x >> 16) & 0xff < 256 && (x >> 8) & 0xff < 256 && x
            & 0xff < 256) by (bit_vector);
    }
    v.push(((x >> 24) & 0xff) as u8);
    v.push(((x >> 16) & 0xff) as u8);
    v.push(((x >> 8) & 0xff) as u8);
    v.push((x & 0xff) as u8);
    proof {
        assert(v@ =~= old(v)@ + be32(x));
    }
}

/// Appends the big-endian bytes of `x`.
pub fn push_be16(v: &mut Vec<u8>, x: u16)
    ensures
        final(v)@ == old(v)@ + be16(x),
{
    proof {
        assert((x >> 8) & 0xff < 256 && x & 0xff < 256) by (bit_vector);
    }
    v.push(((x >> 8) & 0xff) as u8);
    v.push((x & 0xff) as u8);
    proof {
        assert(v@ =~= old(v)@ + be16(x));
    }
}

/// Reads the big-endian 32-bit value at `at`.
pub fn read_be32(b: &Vec<u8>, at: usize) -> (x: u32)
    requires
        at + 4 <= b@.len(),
    ensures
        x == u32_of_be(b@[at as int], b@[at + 1], b@[at + 2], b@[at + 3]),
{
    let _n = b.len();
    let b0 = b[at];
    let b1 = b[at + 1];
    let b2 = b[at + 2];
    let b3 = b[at + 3];
    proof {
        assert(((b0 as u32) << 24) | ((b1 as u32) << 16) | ((b2 as u32) << 8) | (b3 as u32)
            <= 0xffff_ffff) by (bit_vector);
        assert(((b0 as u32) << 24) <= 0xff00_0000 && ((b1 as u32) << 16) <= 0xff_0000 && ((
        b2 as u32) << 8) <= 0xff00) by (bit_vector);
    }
    ((b0 as u32) << 24) | ((b1 as u32) << 16) | ((b2 as u32) << 8) | (b3 as u32)
}

/// Reads the big-endian 16-bit value at `at`.
pub fn read_be16(b: &Vec<u8>, at: usize) -> (x: u16)
    requires
        at + 2 <= b@.len(),
    ensures
        x == u16_of_be(b@[at as int], b@[at + 1]),
{
    let _n = b.len();
    let b0 = b[at];
    let b1 = b[at + 1];
    proof {
        assert(((b0 as u16) << 8) <= 0xff00) by (bit_vector);
    }
    ((b0 as u16) << 8) | (b1 as u16)
}

/// Copies `b[start..end]` out as a fresh vector.
pub fn copy_range(b: &Vec<u8>, start: usize, end: usize) -> (r: Vec<u8>)
    requires
        start <= end <= b@.len(),
    ensures
        r@ == b@.subrange(start as int, end as int),
{
    let mut r: Vec<u8> = Vec::new();
    let mut i: usize = start;
    while i < end
        invariant
            start <= i <= end <= b@.len(),
            r@ =~= b@.subrange(start as int, i as int),
        decreases end - i,
    {
        r.push(b[i]);
        proof {
            assert(r@ =~= b@.subrange(start as int, i + 1));
        }
        i = i + 1;
    }
    r
}

// ---------------------------------------------------------------------------
// Control-channel frames
// ---------------------------------------------------------------------------

/// One control-channel message.  Control code 0 is a heartbeat (command
/// `heart`, no body); control code 1 asks the peer to open a data connection,
/// with the serialized rendezvous request as the body.  Absent sections are
/// `None`; on the wire they have length zero.
pub struct Message {
    pub control: i32,
    pub cmds: Option<Vec<u8>>,
    pub heads: Option<Vec<u8>>,
    pub bodys: Option<Vec<u8>>,
}

/// The mathematical shape of a message.
pub struct MessageView {
    pub control: int,
    pub cmds: Option<Seq<u8>>,
    pub heads: Option<Seq<u8>>,
    pub bodys: Option<Seq<u8>>,
}

impl View for Message {
    type V = MessageView;

    open spec fn view(&self) -> MessageView {
        MessageView {
            control: self.control as int,
            cmds: match self.cmds {
                None => None,
                Some(v) => Some(v@),
            },
            heads: match self.heads {
                None => None,
                Some(v) => Some(v@),
            },
            bodys: match self.bodys {
                None => None,
                Some(v) => Some(v@),
            },
        }
    }
}

/// The length of an optional section.
pub open spec fn sec_len(s: Option<Seq<u8>>) -> int {
    match s {
        None => 0,
        Some(v) => v.len() as int,
    }
}

/// The bytes of an optional section.
pub open spec fn sec_bytes(s: Option<Seq<u8>>) -> Seq<u8> {
    match s {
        None => Seq::empty(),
        Some(v) => v,
    }
}

impl MessageView {
    /// A message the frame format can carry: a non-negative control code and
    /// sections that are absent, or non-empty and within their limits.
    pub open spec fn wf(self) -> bool {
        &&& 0 <= self.control <= i32::MAX
        &&& match self.cmds {
            None => true,
            Some(v) => 0 < v.len() <= CMD_MAX,
        }
        &&& match self.heads {
            None => true,
            Some(v) => 0 < v.len() <= HEAD_MAX,
        }
        &&& match self.bodys {
            None => true,
            Some(v) => 0 < v.len() <= BODY_MAX,
        }
    }
}

/// The wire bytes of a message: control code, the three section lengths, the
/// sections.
pub open spec fn frame_bytes(m: MessageView) -> Seq<u8> {
    be32(m.control as u32) + be32(sec_len(m.cmds) as u32) + be32(sec_len(m.heads) as u32) + be32(
        sec_len(m.bodys) as u32,
    ) + sec_bytes(m.cmds) + sec_bytes(m.heads) + sec_bytes(m.bodys)
}

/// What a reader makes of the bytes of one whole frame: `None` on anything
/// malformed (short header, over-limit section length, trailing or missing
/// bytes, a control code beyond `i32`).
pub open spec fn parse_frame(b: Seq<u8>) -> Option<MessageView> {
    if b.len() < 16 {
        None
    } else {
        let ctl = u32_of_be(b[0], b[1], b[2], b[3]);
        let lc = u32_of_be(b[4], b[5], b[6], b[7]) as int;
        let lh = u32_of_be(b[8], b[9], b[10], b[11]) as int;
        let lb = u32_of_be(b[12], b[13], b[14], b[15]) as int;
        if ctl > i32::MAX || lc > CMD_MAX || lh > HEAD_MAX || lb > BODY_MAX || b.len() != 16 + lc
            + lh + lb {
            None
        } else {
            Some(
                MessageView {
                    control: ctl as int,
                    cmds: if lc == 0 {
                        None
                    } else {
                        Some(b.subrange(16, 16 + lc))
                    },
                    heads: if lh == 0 {
                        None
                    } else {
                        Some(b.subrange(16 + lc, 16 + lc + lh))
                    },
                    bodys: if lb == 0 {
                        None
                    } else {
                        Some(b.subrange(16 + lc + lh, 16 + lc + lh + lb))
                    },
                },
            )
        }
    }
}

/// A whole frame always parses back to the message it was made from.
#[verifier::rlimit(50)]
pub proof fn lemma_frame_roundtrip(m: MessageView)
    requires
        m.wf(),
    ensures
        parse_frame(frame_bytes(m)) == Some(m),
{
    let b = frame_bytes(m);
    let lc = sec_len(m.cmds);
    let lh = sec_len(m.heads);
    let lb = sec_len(m.bodys);
    assert(b.len() == 16 + lc + lh + lb);
    assert(b.subrange(0, 4) =~= be32(m.control as u32));
    assert(b.subrange(4, 8) =~= be32(lc as u32));
    assert(b.subrange(8, 12) =~= be32(lh as u32));
    assert(b.subrange(12, 16) =~= be32(lb as u32));
    lemma_be32_roundtrip(m.control as u32);
    lemma_be32_roundtrip(lc as u32);
    lemma_be32_roundtrip(lh as u32);
    lemma_be32_roundtrip(lb as u32);
    assert(u32_of_be(b[0], b[1], b[2], b[3]) == m.control as u32);
    assert(u32_of_be(b[4], b[5], b[6], b[7]) == lc as u32);
    assert(u32_of_be(b[8], b[9], b[10], b[11]) == lh as u32);
    assert(u32_of_be(b[12], b[13], b[14], b[15]) == lb as u32);
    assert(b.subrange(16, 16 + lc) =~= sec_bytes(m.cmds));
    assert(b.subrange(16 + lc, 16 + lc + lh) =~= sec_bytes(m.heads));
    assert(b.subrange(16 + lc + lh, 16 + lc + lh + lb) =~= sec_bytes(m.bodys));
    let p = parse_frame(b);
    assert(p is Some);
    assert(p->0.control == m.control);
    assert(p->0.cmds == m.cmds);
    assert(p->0.heads == m.heads);
    assert(p->0.bodys == m.bodys);
}

/// Encodes one message as one whole frame.
pub fn encode_frame(m: &Message) -> (r: Vec<u8>)
    requires
        m@.wf(),
    ensures
        r@ == frame_bytes(m@),
{
    let mut r: Vec<u8> = Vec::new();
    push_be32(&mut r, m.control as u32);
    let lc: u32 = match &m.cmds {
        None => 0,
        Some(v) => v.len() as u32,
    };
    let lh: u32 = match &m.heads {
        None => 0,
        Some(v) => v.len() as u32,
    };
    let lb: u32 = match &m.bodys {
        None => 0,
        Some(v) => v.len() as u32,
    };
    push_be32(&mut r, lc);
    push_be32(&mut r, lh);
    push_be32(&mut r, lb);
    match &m.cmds {
        None => {},
        Some(v) => r.extend_from_slice(v.as_slice()),
    }
    match &m.heads {
        None => {},
        Some(v) => r.extend_from_slice(v.as_slice()),
    }
    match &m.bodys {
        None => {},
        Some(v) => r.extend_from_slice(v.as_slice()),
    }
    proof {
        assert(r@ =~= frame_bytes(m@));
    }
    r
}

/// Decodes the bytes of one whole frame; `None` on anything malformed.
pub fn decode_frame(b: &Vec<u8>) -> (r: Option<Message>)
    ensures
        match r {
            Some(m) => parse_frame(b@) == Some(m@),
            None => parse_frame(b@) is None,
        },
{
    let n = b.len();
    if n < 16 {
        return None;
    }
    let ctl = read_be32(b, 0);
    let lc = read_be32(b, 4);
    let lh = read_be32(b, 8);
    let lb = read_be32(b, 12);
    if ctl > 0x7fff_ffff {
        return None;
    }
    if lc > 1024 || lh > 102400 || lb > 1048576 {
        return None;
    }
    let lcu = lc as usize;
    let lhu = lh as usize;
    let lbu = lb as usize;
    if n != 16 + lcu + lhu + lbu {
        return None;
    }
    let cmds = if lcu == 0 {
        None
    } else {
        Some(copy_range(b, 16, 16 + lcu))
    };
    let heads = if lhu == 0 {
        None
    } else {
        Some(copy_range(b, 16 + lcu, 16 + lcu + lhu))
    };
    let bodys = if lbu == 0 {
        None
    } else {
        Some(copy_range(b, 16 + lcu + lhu, 16 + lcu + lhu + lbu))
    };
    let m = Message { control: ctl as i32, cmds, heads, bodys };
    proof {
        assert(parse_frame(b@) == Some(m@));
    }
    Some(m)
}

// ---------------------------------------------------------------------------
// Rendezvous request bodies
// ---------------------------------------------------------------------------

/// The serialized rendezvous request carried in the body of a control-code-1
/// message: the node's name, the request id, an optional host override for
/// the local dial, and the port to dial.
pub struct ConnReq {
    pub name: Vec<u8>,
    pub xids: Vec<u8>,
    pub host: Option<Vec<u8>>,
    pub port: u32,
}

/// The mathematical shape of a rendezvous request.
pub struct ConnReqView {
    pub name: Seq<u8>,
    pub xids: Seq<u8>,
    pub host: Option<Seq<u8>>,
    pub port: u32,
}

impl View for ConnReq {
    type V = ConnReqView;

    open spec fn view(&self) -> ConnReqView {
        ConnReqView {
            name: self.name@,
            xids: self.xids@,
            host: match self.host {
                None => None,
                Some(v) => Some(v@),
            },
            port: self.port,
        }
    }
}

impl ConnReqView {
    /// A request the body format can carry: every text field fits a 16-bit
    /// length.
    pub open spec fn wf(self) -> bool {
        &&& self.name.len() <= 0xffff
        &&& self.xids.len() <= 0xffff
        &&& match self.host {
            None => true,
            Some(h) => h.len() <= 0xffff,
        }
    }
}

/// The body bytes of a rendezvous request: the two id lengths, a host-present
/// flag, the host length, the port, then the three text fields in order.
pub open spec fn conn_req_bytes(v: ConnReqView) -> Seq<u8> {
    be16(v.name.len() as u16) + be16(v.xids.len() as u16) + seq![
        if v.host is Some {
            1u8
        } else {
            0u8
        },
    ] + be16(sec_len16(v.host)) + be32(v.port) + v.name + v.xids + sec_bytes(v.host)
}

/// The length of an optional section, as a 16-bit value.
pub open spec fn sec_len16(s: Option<Seq<u8>>) -> u16 {
    match s {
        None => 0u16,
        Some(v) => v.len() as u16,
    }
}

/// What a reader makes of a rendezvous request body: `None` on anything
/// malformed (short header, a flag byte besides 0 and 1, a host length with
/// no host flag, trailing or missing bytes).
pub open spec fn parse_conn_req(b: Seq<u8>) -> Option<ConnReqView> {
    if b.len() < 11 {
        None
    } else {
        let ln = u16_of_be(b[0], b[1]) as int;
        let lx = u16_of_be(b[2], b[3]) as int;
        let flag = b[4];
        let lh = u16_of_be(b[5], b[6]) as int;
        let port = u32_of_be(b[7], b[8], b[9], b[10]);
        if (flag != 0 && flag != 1) || (flag == 0 && lh != 0) || b.len() != 11 + ln + lx + lh {
            None
        } else {
            Some(
                ConnReqView {
                    name: b.subrange(11, 11 + ln),
                    xids: b.subrange(11 + ln, 11 + ln + lx),
                    host: if flag == 0 {
                        None
                    } else {
                        Some(b.subrange(11 + ln + lx, 11 + ln + lx + lh))
                    },
                    port,
                },
            )
        }
    }
}

/// A request body always parses back to the request it was made from.
pub proof fn lemma_conn_req_roundtrip(v: ConnReqView)
    requires
        v.wf(),
    ensures
        parse_conn_req(conn_req_bytes(v)) == Some(v),
{
    let b = conn_req_bytes(v);
    let ln = v.name.len() as int;
    let lx = v.xids.len() as int;
    let lh = sec_len16(v.host) as int;
    assert(b.len() == 11 + ln + lx + lh);
    assert(b.subrange(0, 2) =~= be16(ln as u16));
    assert(b.subrange(2, 4) =~= be16(lx as u16));
    assert(b.subrange(5, 7) =~= be16(lh as u16));
    assert(b.subrange(7, 11) =~= be32(v.port));
    lemma_be16_roundtrip(ln as u16);
    lemma_be16_roundtrip(lx as u16);
    lemma_be16_roundtrip(lh as u16);
    lemma_be32_roundtrip(v.port);
    assert(u16_of_be(b[0], b[1]) == ln as u16);
    assert(u16_of_be(b[2], b[3]) == lx as u16);
    assert(u16_of_be(b[5], b[6]) == lh as u16);
    assert(u32_of_be(b[7], b[8], b[9], b[10]) == v.port);
    assert(b.subrange(11, 11 + ln) =~= v.name);
    assert(b.subrange(11 + ln, 11 + ln + lx) =~= v.xids);
    assert(b.subrange(11 + ln + lx, 11 + ln + lx + lh) =~= sec_bytes(v.host));
    let p = parse_conn_req(b);
    assert(p is Some);
    assert(p->0.name == v.name);
    assert(p->0.xids == v.xids);
    assert(p->0.host == v.host);
    assert(p->0.port == v.port);
}

/// Encodes a rendezvous request as a message body.
pub fn encode_conn_req(v: &ConnReq) -> (r: Vec<u8>)
    requires
        v@.wf(),
    ensures
        r@ == conn_req_bytes(v@),
{
    let mut r: Vec<u8> = Vec::new();
    push_be16(&mut r, v.name.len() as u16);
    push_be16(&mut r, v.xids.len() as u16);
    match &v.host {
        None => {
            r.push(0u8);
            push_be16(&mut r, 0u16);
        },
        Some(_) => {
            r.push(1u8);
        },
    }
    match &v.host {
        None => {},
        Some(h) => push_be16(&mut r, h.len() as u16),
    }
    push_be32(&mut r, v.port);
    r.extend_from_slice(v.name.as_slice());
    r.extend_from_slice(v.xids.as_slice());
    match &v.host {
        None => {},
        Some(h) => r.extend_from_slice(h.as_slice()),
    }
    proof {
        assert(r@ =~= conn_req_bytes(v@));
    }
    r
}

/// Decodes a rendezvous request body; `None` on anything malformed.
pub fn decode_conn_req(b: &Vec<u8>) -> (r: Option<ConnReq>)
    ensures
        match r {
            Some(v) => parse_conn_req(b@) == Some(v@),
            None => parse_conn_req(b@) is None,
        },
{
    let n = b.len();
    if n < 11 {
        return None;
    }
    let ln = read_be16(b, 0) as usize;
    let lx = read_be16(b, 2) as usize;
    let flag = b[4];
    let lh = read_be16(b, 5) as usize;
    let port = read_be32(b, 7);
    if flag != 0 && flag != 1 {
        return None;
    }
    if flag == 0 && lh != 0 {
        return None;
    }
    if n != 11 + ln + lx + lh {
        return None;
    }
    let name = copy_range(b, 11, 11 + ln);
    let xids = copy_range(b, 11 + ln, 11 + ln + lx);
    let host = if flag == 0 {
        None
    } else {
        Some(copy_range(b, 11 + ln + lx, 11 + ln + lx + lh))
    };
    let v = ConnReq { name, xids, host, port };
    proof {
        assert(parse_conn_req(b@) == Some(v@));
    }
    Some(v)
}

} // verus!
